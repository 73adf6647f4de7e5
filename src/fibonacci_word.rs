use vstd::prelude::*;
use crate::color::Rgb;

verus! {

/// The longest word the generator builds; longer requests are clamped.
pub const MAX_WORD_LENGTH: u32 = 40;

/// A line segment of the word's path, in steps of one unit.
#[derive(Clone, Copy, Debug, PartialEq, Eq, Structural)]
pub struct Segment {
    pub x0: i64,
    pub y0: i64,
    pub x1: i64,
    pub y1: i64,
    pub color: Rgb,
}

pub open spec fn fib(n: nat) -> nat
    decreases n,
{
    if n == 0 {
        0
    } else if n == 1 {
        1
    } else {
        fib((n - 1) as nat) + fib((n - 2) as nat)
    }
}

/// The two newest words after `k` substitution steps, starting from "0" and
/// "01"; each step turns `(a, b)` into `(b, b + a)`.
pub open spec fn word_pair(k: nat) -> (Seq<char>, Seq<char>)
    decreases k,
{
    if k == 0 {
        (seq!['0'], seq!['0', '1'])
    } else {
        let (a, b) = word_pair((k - 1) as nat);
        (b, b + a)
    }
}

pub open spec fn clamped_word_length(n: nat) -> nat {
    if n > MAX_WORD_LENGTH {
        MAX_WORD_LENGTH as nat
    } else {
        n
    }
}

/// The word of length parameter `n`: `n - 2` substitution steps, none when
/// `n < 2`.
pub open spec fn fib_word(n: nat) -> Seq<char> {
    let m = clamped_word_length(n);
    if m < 2 {
        word_pair(0).1
    } else {
        word_pair((m - 2) as nat).1
    }
}

/// The direction after reading symbol `c` at index `i` while heading `(dx, dy)`:
/// a '0' swaps the components, and at an odd index also negates both.
pub open spec fn turn(dx: int, dy: int, c: char, i: nat) -> (int, int) {
    if c == '0' {
        if i % 2 == 0 {
            (dy, dx)
        } else {
            (-dy, -dx)
        }
    } else {
        (dx, dy)
    }
}

/// Position and heading `(x, y, dx, dy)` before symbol `i` of the walk,
/// which starts at the origin heading `(0, 1)`.
pub open spec fn turtle(word: Seq<char>, i: nat) -> (int, int, int, int)
    decreases i,
{
    if i == 0 {
        (0, 0, 0, 1)
    } else {
        let (x, y, dx, dy) = turtle(word, (i - 1) as nat);
        let (ndx, ndy) = turn(dx, dy, word[i - 1], (i - 1) as nat);
        (x + dx, y + dy, ndx, ndy)
    }
}

pub open spec fn green() -> Rgb {
    Rgb { r: 0, g: 255, b: 0 }
}

/// The segment drawn for symbol `i`: one step from the current position.
pub open spec fn step_segment(word: Seq<char>, i: nat) -> Segment {
    let (x, y, dx, dy) = turtle(word, i);
    Segment { x0: x as i64, y0: y as i64, x1: (x + dx) as i64, y1: (y + dy) as i64, color: green() }
}

/// The path walked over `word`: one segment per symbol.
pub open spec fn path_spec(word: Seq<char>) -> Seq<Segment> {
    Seq::new(word.len(), |i: int| step_segment(word, i as nat))
}

proof fn lemma_word_pair_len(k: nat)
    ensures
        word_pair(k).0.len() == fib(k + 2),
        word_pair(k).1.len() == fib(k + 3),
    decreases k,
{
    if k > 0 {
        lemma_word_pair_len((k - 1) as nat);
    } else {
        reveal_with_fuel(fib, 4);
    }
}

proof fn lemma_fib_bound(n: nat)
    ensures
        fib(n) <= pow2_nat(n),
        pow2_nat(n) >= 1,
    decreases n,
{
    if n >= 2 {
        lemma_fib_bound((n - 1) as nat);
        lemma_fib_bound((n - 2) as nat);
        assert(pow2_nat((n - 1) as nat) == 2 * pow2_nat((n - 2) as nat));
    } else if n == 1 {
        lemma_fib_bound(0);
    }
}

pub open spec fn pow2_nat(n: nat) -> nat
    decreases n,
{
    if n == 0 {
        1
    } else {
        2 * pow2_nat((n - 1) as nat)
    }
}

proof fn lemma_pow2_le(a: nat, b: nat)
    requires
        a <= b,
    ensures
        pow2_nat(a) <= pow2_nat(b),
    decreases b,
{
    lemma_fib_bound(a);
    if a < b {
        lemma_pow2_le(a, (b - 1) as nat);
        lemma_fib_bound((b - 1) as nat);
    }
}

proof fn lemma_fib_word_short(n: nat)
    ensures
        fib_word(n).len() <= pow2_nat(41),
{
    let m = clamped_word_length(n);
    let k: nat = if m < 2 { 0 } else { (m - 2) as nat };
    lemma_word_pair_len(k);
    lemma_fib_bound(k + 3);
    lemma_pow2_le(k + 3, 41);
}

/// For word lengths from 2 up to the maximum, the word has `fib(n + 1)`
/// symbols and its path has one segment per symbol.
pub proof fn lemma_word_length(n: nat)
    requires
        2 <= n <= MAX_WORD_LENGTH,
    ensures
        fib_word(n).len() == fib(n + 1),
        path_spec(fib_word(n)).len() == fib(n + 1),
{
    lemma_word_pair_len((n - 2) as nat);
}

/// Below length 2 the word is the seed "01" alone.
pub proof fn lemma_short_word(n: nat)
    requires
        n < 2,
    ensures
        fib_word(n) == seq!['0', '1'],
        path_spec(fib_word(n)).len() == 2,
{
}

fn copy_word(v: &Vec<char>) -> (r: Vec<char>)
    ensures
        r@ == v@,
{
    let mut out: Vec<char> = Vec::new();
    let mut i: usize = 0;
    while i < v.len()
        invariant
            i <= v@.len(),
            out@ == v@.subrange(0, i as int),
        decreases v@.len() - i,
    {
        out.push(v[i]);
        i = i + 1;
        assert(out@ =~= v@.subrange(0, i as int));
    }
    assert(out@ =~= v@);
    out
}

/// The Fibonacci word for length parameter `n` (clamped to `MAX_WORD_LENGTH`).
pub fn fibonacci_word(n: u32) -> (r: Vec<char>)
    ensures
        r@ == fib_word(n as nat),
{
    let m = if n > MAX_WORD_LENGTH {
        MAX_WORD_LENGTH
    } else {
        n
    };
    let mut s0: Vec<char> = vec!['0'];
    let mut s1: Vec<char> = vec!['0', '1'];
    assert(s0@ =~= word_pair(0).0);
    assert(s1@ =~= word_pair(0).1);
    let mut i: u32 = 2;
    while i < m
        invariant
            2 <= i,
            m >= 2 ==> i <= m,
            m < 2 ==> i == 2,
            m == clamped_word_length(n as nat),
            s0@ == word_pair((i - 2) as nat).0,
            s1@ == word_pair((i - 2) as nat).1,
        decreases m - i,
    {
        let mut tail = s0;
        s0 = copy_word(&s1);
        s1.append(&mut tail);
        i = i + 1;
    }
    s1
}

/// The path walked over `word`, one segment per symbol.
pub fn word_path(word: &Vec<char>) -> (r: Vec<Segment>)
    requires
        word@.len() <= pow2_nat(41),
    ensures
        r@ == path_spec(word@),
{
    let mut out: Vec<Segment> = Vec::new();
    let mut x: i64 = 0;
    let mut y: i64 = 0;
    let mut dx: i64 = 0;
    let mut dy: i64 = 1;
    let mut i: usize = 0;
    proof {
        reveal_with_fuel(pow2_nat, 42);
    }
    while i < word.len()
        invariant
            i <= word@.len() <= pow2_nat(41),
            pow2_nat(41) == 0x200_0000_0000,
            turtle(word@, i as nat) == (x as int, y as int, dx as int, dy as int),
            -(i as int) <= x <= i,
            -(i as int) <= y <= i,
            -1 <= dx <= 1,
            -1 <= dy <= 1,
            out@.len() == i,
            forall|j: int| 0 <= j < i ==> out@[j] == step_segment(word@, j as nat),
        decreases word@.len() - i,
    {
        let nx = x + dx;
        let ny = y + dy;
        out.push(Segment { x0: x, y0: y, x1: nx, y1: ny, color: Rgb { r: 0, g: 255, b: 0 } });
        if word[i] == '0' {
            if i % 2 == 0 {
                let t = dx;
                dx = dy;
                dy = t;
            } else {
                let t = dx;
                dx = -dy;
                dy = -t;
            }
        }
        x = nx;
        y = ny;
        i = i + 1;
    }
    assert(out@ =~= path_spec(word@));
    out
}

/// The drawing of the Fibonacci word fractal for length parameter `n`.
pub fn fibonacci_segments(n: u32) -> (r: Vec<Segment>)
    ensures
        r@ == path_spec(fib_word(n as nat)),
        r@.len() == fib_word(n as nat).len(),
{
    let word = fibonacci_word(n);
    proof {
        lemma_fib_word_short(n as nat);
    }
    word_path(&word)
}

/// A word fractal generator: its length parameter, and the path last
/// computed together with the parameter it was computed for.
pub struct FibonacciWord {
    n: u32,
    last: Option<u32>,
    shapes: Vec<Segment>,
}

impl FibonacciWord {
    pub closed spec fn n_spec(&self) -> u32 {
        self.n
    }

    pub closed spec fn last_spec(&self) -> Option<u32> {
        self.last
    }

    pub closed spec fn shapes_spec(&self) -> Seq<Segment> {
        self.shapes@
    }

    /// The cached path matches the parameter it was computed for.
    pub open spec fn wf(&self) -> bool {
        match self.last_spec() {
            Some(n) => self.shapes_spec() == path_spec(fib_word(n as nat)),
            None => self.shapes_spec().len() == 0,
        }
    }

    pub open spec fn is_stale(&self) -> bool {
        self.last_spec() != Some(self.n_spec())
    }

    pub fn new() -> (r: Self)
        ensures
            r.n_spec() == 1,
            r.last_spec() is None,
            r.wf(),
    {
        FibonacciWord { n: 1, last: None, shapes: Vec::new() }
    }

    pub fn n(&self) -> (r: u32)
        ensures
            r == self.n_spec(),
    {
        self.n
    }

    /// Changes the length parameter; the cache is left as it is until the
    /// next refresh.
    pub fn set_n(&mut self, n: u32)
        ensures
            final(self).n_spec() == n,
            final(self).last_spec() == old(self).last_spec(),
            final(self).shapes_spec() == old(self).shapes_spec(),
    {
        self.n = n;
    }

    pub fn needs_recompute(&self) -> (r: bool)
        ensures
            r == self.is_stale(),
    {
        match self.last {
            Some(n) => n != self.n,
            None => true,
        }
    }

    pub fn shapes(&self) -> (r: &Vec<Segment>)
        ensures
            r@ == self.shapes_spec(),
    {
        &self.shapes
    }

    /// Brings the cached path up to date. When the parameter is unchanged
    /// nothing is touched; otherwise the path is rebuilt in full. Returns
    /// whether it was rebuilt.
    pub fn refresh(&mut self) -> (recomputed: bool)
        requires
            old(self).wf(),
        ensures
            recomputed == old(self).is_stale(),
            !recomputed ==> *final(self) == *old(self),
            final(self).shapes_spec() == path_spec(fib_word(old(self).n_spec() as nat)),
            final(self).n_spec() == old(self).n_spec(),
            final(self).last_spec() == Some(final(self).n_spec()),
            final(self).wf(),
    {
        if !self.needs_recompute() {
            return false;
        }
        self.shapes = fibonacci_segments(self.n);
        self.last = Some(self.n);
        true
    }
}

impl Default for FibonacciWord {
    fn default() -> (r: Self)
        ensures
            r.n_spec() == 1,
            r.last_spec() is None,
            r.wf(),
    {
        FibonacciWord::new()
    }
}

} // verus!

use vstd::prelude::*;
use crate::color::Rgb;
use crate::random::random_below;

verus! {

/// The deepest subdivision the carpet generator will perform.
pub const MAX_CARPET_DEPTH: u32 = 7;

/// Probabilities are given in millionths.
pub const PROBABILITY_SCALE: u32 = 1000000;

/// A filled square given by its center and side length, in carpet units:
/// a square drawn at the deepest level has side 1, and the whole carpet
/// spans `3^(depth + 1)` units centered on the origin.
#[derive(Clone, Copy, Debug, PartialEq, Eq, Structural)]
pub struct Square {
    pub cx: i64,
    pub cy: i64,
    pub side: i64,
    pub color: Rgb,
}

/// The settings of the carpet generator.
#[derive(Clone, Copy, Debug, PartialEq, Eq, Structural)]
pub struct CarpetParams {
    /// Number of subdivision levels below the outer square.
    pub depth: u32,
    /// Color each square by its level instead of a fixed blue.
    pub shaded: bool,
    /// Draw each square only with the given probability.
    pub randomness: bool,
    /// The probability of drawing a square, in millionths.
    pub probability: u32,
}

pub open spec fn pow3(n: nat) -> nat
    decreases n,
{
    if n == 0 {
        1
    } else {
        3 * pow3((n - 1) as nat)
    }
}

pub proof fn lemma_pow3_le(a: nat, b: nat)
    requires
        a <= b,
    ensures
        1 <= pow3(a) <= pow3(b),
    decreases b,
{
    if b > 0 {
        if a < b {
            lemma_pow3_le(a, (b - 1) as nat);
        } else {
            lemma_pow3_le((a - 1) as nat, (b - 1) as nat);
        }
    }
}

pub proof fn lemma_pow3_8()
    ensures
        pow3(8) == 6561,
{
    reveal_with_fuel(pow3, 9);
}

pub open spec fn clamped_depth(depth: nat) -> nat {
    if depth > MAX_CARPET_DEPTH {
        MAX_CARPET_DEPTH as nat
    } else {
        depth
    }
}

pub open spec fn clamped_probability(p: nat) -> nat {
    if p > PROBABILITY_SCALE {
        PROBABILITY_SCALE as nat
    } else {
        p
    }
}

pub open spec fn blue() -> Rgb {
    Rgb { r: 0, g: 0, b: 255 }
}

pub open spec fn white() -> Rgb {
    Rgb { r: 255, g: 255, b: 255 }
}

/// The color of a square drawn at `level`: fixed blue, or in shaded mode
/// an entry of a seven-shade palette by level (white past its end).
pub open spec fn level_color(shaded: bool, level: nat) -> Rgb {
    if !shaded {
        blue()
    } else if level == 0 {
        Rgb { r: 144, g: 224, b: 239 }
    } else if level == 1 {
        Rgb { r: 72, g: 202, b: 228 }
    } else if level == 2 {
        Rgb { r: 90, g: 180, b: 216 }
    } else if level == 3 {
        Rgb { r: 0, g: 150, b: 199 }
    } else if level == 4 {
        Rgb { r: 0, g: 119, b: 182 }
    } else if level == 5 {
        Rgb { r: 2, g: 62, b: 138 }
    } else if level == 6 {
        Rgb { r: 3, g: 4, b: 94 }
    } else {
        white()
    }
}

/// Offset of a neighbor cell along one axis: `d` is 0, 1 or 2 for -1, 0, +1.
pub open spec fn offset(d: int, step: int) -> int {
    if d == 0 {
        -step
    } else if d == 1 {
        0
    } else {
        step
    }
}

pub open spec fn square_at(cx: int, cy: int, side: nat, color: Rgb) -> Square {
    Square { cx: cx as i64, cy: cy as i64, side: side as i64, color }
}

/// The squares of a carpet region centered at `(cx, cy)` with `n` levels
/// left below it, in drawing order: the center square, then the eight
/// surrounding cells row by row.
pub open spec fn carpet_tree(cx: int, cy: int, n: nat, level: nat, shaded: bool) -> Seq<Square>
    decreases n, 10nat,
{
    seq![square_at(cx, cy, pow3(n), level_color(shaded, level))] + carpet_children(
        cx,
        cy,
        n,
        level,
        shaded,
        9,
    )
}

/// The squares of the first `k` of the nine cells around a center (the
/// middle cell, number 4, is skipped).
pub open spec fn carpet_children(
    cx: int,
    cy: int,
    n: nat,
    level: nat,
    shaded: bool,
    k: nat,
) -> Seq<Square>
    decreases n, k,
{
    if k == 0 || n == 0 {
        seq![]
    } else {
        let j = (k - 1) as nat;
        let rest = carpet_children(cx, cy, n, level, shaded, j);
        if j == 4 {
            rest
        } else {
            rest + carpet_tree(
                cx + offset((j / 3) as int, pow3(n) as int),
                cy + offset((j % 3) as int, pow3(n) as int),
                (n - 1) as nat,
                level + 1,
                shaded,
            )
        }
    }
}

/// Every square of a carpet with the given depth, in drawing order.
pub open spec fn carpet_spec(depth: nat, shaded: bool) -> Seq<Square> {
    carpet_tree(0, 0, clamped_depth(depth), 0, shaded)
}

/// Number of squares of a carpet region with `n` levels below it.
pub open spec fn carpet_count(n: nat) -> nat
    decreases n,
{
    if n == 0 {
        1
    } else {
        1 + 8 * carpet_count((n - 1) as nat)
    }
}

/// The squares whose draw falls under the threshold: square `i` is kept
/// when `draws[i] < threshold`.
pub open spec fn gate_spec(cells: Seq<Square>, draws: Seq<u32>, threshold: nat) -> Seq<Square>
    decreases cells.len(),
{
    if cells.len() == 0 {
        seq![]
    } else {
        let rest = gate_spec(cells.drop_last(), draws, threshold);
        if (draws[cells.len() - 1] as nat) < threshold {
            rest.push(cells.last())
        } else {
            rest
        }
    }
}

/// What the generator emits for `params`, given one draw per visited square.
pub open spec fn carpet_output(params: CarpetParams, draws: Seq<u32>) -> Seq<Square> {
    let cells = carpet_spec(params.depth as nat, params.shaded);
    if params.randomness {
        gate_spec(cells, draws, clamped_probability(params.probability as nat))
    } else {
        cells
    }
}

/// How many of the first `k` of the nine cells around a center are recursed into.
pub open spec fn cells_before(k: nat) -> int {
    if k > 4 {
        k - 1
    } else {
        k as int
    }
}

pub proof fn lemma_carpet_tree_len(cx: int, cy: int, n: nat, level: nat, shaded: bool)
    ensures
        carpet_tree(cx, cy, n, level, shaded).len() == carpet_count(n),
    decreases n, 10nat,
{
    lemma_carpet_children_len(cx, cy, n, level, shaded, 9);
}

pub proof fn lemma_carpet_children_len(
    cx: int,
    cy: int,
    n: nat,
    level: nat,
    shaded: bool,
    k: nat,
)
    requires
        k <= 9,
    ensures
        n == 0 ==> carpet_children(cx, cy, n, level, shaded, k).len() == 0,
        n > 0 ==> carpet_children(cx, cy, n, level, shaded, k).len() == cells_before(k)
            * carpet_count((n - 1) as nat),
    decreases n, k,
{
    if k == 0 && n > 0 {
        assert(cells_before(k) == 0);
        assert(cells_before(k) * carpet_count((n - 1) as nat) == 0) by (nonlinear_arith)
            requires
                cells_before(k) == 0,
        ;
    }
    if k > 0 && n > 0 {
        let j = (k - 1) as nat;
        lemma_carpet_children_len(cx, cy, n, level, shaded, j);
        if j != 4 {
            lemma_carpet_tree_len(
                cx + offset((j / 3) as int, pow3(n) as int),
                cy + offset((j % 3) as int, pow3(n) as int),
                (n - 1) as nat,
                level + 1,
                shaded,
            );
        }
        let c = carpet_count((n - 1) as nat);
        let sub = carpet_tree(
            cx + offset((j / 3) as int, pow3(n) as int),
            cy + offset((j % 3) as int, pow3(n) as int),
            (n - 1) as nat,
            level + 1,
            shaded,
        );
        let rest = carpet_children(cx, cy, n, level, shaded, j);
        if j == 4 {
            assert(carpet_children(cx, cy, n, level, shaded, k) == rest);
            assert(cells_before(k) == cells_before(j));
        } else {
            assert(carpet_children(cx, cy, n, level, shaded, k) == rest + sub);
            assert(cells_before(k) == cells_before(j) + 1);
            assert(cells_before(k) * c == cells_before(j) * c + c) by (nonlinear_arith)
                requires
                    cells_before(k) == cells_before(j) + 1,
            ;
        }
    }
}

fn pow3_exec(n: u32) -> (r: i64)
    requires
        n <= MAX_CARPET_DEPTH + 1,
    ensures
        r == pow3(n as nat),
{
    proof {
        lemma_pow3_le(n as nat, 8);
        lemma_pow3_8();
    }
    let mut r: i64 = 1;
    let mut i: u32 = 0;
    while i < n
        invariant
            i <= n <= 8,
            r == pow3(i as nat),
            pow3(n as nat) <= 6561,
        decreases n - i,
    {
        proof {
            lemma_pow3_le((i + 1) as nat, n as nat);
        }
        r = r * 3;
        i = i + 1;
    }
    r
}

fn level_color_exec(shaded: bool, level: u32) -> (c: Rgb)
    ensures
        c == level_color(shaded, level as nat),
{
    if !shaded {
        Rgb { r: 0, g: 0, b: 255 }
    } else if level == 0 {
        Rgb { r: 144, g: 224, b: 239 }
    } else if level == 1 {
        Rgb { r: 72, g: 202, b: 228 }
    } else if level == 2 {
        Rgb { r: 90, g: 180, b: 216 }
    } else if level == 3 {
        Rgb { r: 0, g: 150, b: 199 }
    } else if level == 4 {
        Rgb { r: 0, g: 119, b: 182 }
    } else if level == 5 {
        Rgb { r: 2, g: 62, b: 138 }
    } else if level == 6 {
        Rgb { r: 3, g: 4, b: 94 }
    } else {
        Rgb { r: 255, g: 255, b: 255 }
    }
}

/// Appends the squares of the carpet region centered at `(cx, cy)` with
/// `n` levels below it; the region lies inside the largest carpet.
fn push_carpet(out: &mut Vec<Square>, cx: i64, cy: i64, n: u32, level: u32, shaded: bool)
    requires
        n + level <= MAX_CARPET_DEPTH,
        2 * cx + pow3((n + 1) as nat) <= pow3(8),
        -2 * cx + pow3((n + 1) as nat) <= pow3(8),
        2 * cy + pow3((n + 1) as nat) <= pow3(8),
        -2 * cy + pow3((n + 1) as nat) <= pow3(8),
    ensures
        final(out)@ == old(out)@ + carpet_tree(cx as int, cy as int, n as nat, level as nat, shaded),
    decreases n,
{
    proof {
        lemma_pow3_le(n as nat, 8);
        lemma_pow3_le((n + 1) as nat, 8);
        lemma_pow3_8();
    }
    let side = pow3_exec(n);
    let color = level_color_exec(shaded, level);
    out.push(Square { cx, cy, side, color });
    let ghost base = out@;
    assert(base == old(out)@ + seq![square_at(cx as int, cy as int, pow3(n as nat), level_color(shaded, level as nat))]);
    if n > 0 {
        let mut k: u32 = 0;
        while k < 9
            invariant
                k <= 9,
                0 < n,
                n + level <= MAX_CARPET_DEPTH,
                side == pow3(n as nat),
                pow3((n + 1) as nat) == 3 * side,
                pow3((n + 1) as nat) <= 6561,
                2 * cx + pow3((n + 1) as nat) <= pow3(8),
                -2 * cx + pow3((n + 1) as nat) <= pow3(8),
                2 * cy + pow3((n + 1) as nat) <= pow3(8),
                -2 * cy + pow3((n + 1) as nat) <= pow3(8),
                pow3(8) == 6561,
                out@ == base + carpet_children(cx as int, cy as int, n as nat, level as nat, shaded, k as nat),
            decreases 9 - k,
        {
            if k != 4 {
                let row = k / 3;
                let col = k % 3;
                let x = if row == 0 {
                    cx - side
                } else if row == 1 {
                    cx
                } else {
                    cx + side
                };
                let y = if col == 0 {
                    cy - side
                } else if col == 1 {
                    cy
                } else {
                    cy + side
                };
                assert(x == cx + offset((k / 3) as int, pow3(n as nat) as int));
                assert(y == cy + offset((k % 3) as int, pow3(n as nat) as int));
                assert(pow3(((n - 1) + 1) as nat) == side);
                push_carpet(out, x, y, n - 1, level + 1, shaded);
            }
            assert(out@ =~= base + carpet_children(cx as int, cy as int, n as nat, level as nat, shaded, (k + 1) as nat));
            k = k + 1;
        }
    }
    assert(out@ =~= old(out)@ + carpet_tree(cx as int, cy as int, n as nat, level as nat, shaded));
}

/// Every square of the carpet of the given depth (clamped to
/// `MAX_CARPET_DEPTH`), in drawing order; nothing is left out.
pub fn carpet_squares(depth: u32, shaded: bool) -> (r: Vec<Square>)
    ensures
        r@ == carpet_spec(depth as nat, shaded),
        r@.len() == carpet_count(clamped_depth(depth as nat)),
{
    let n = if depth > MAX_CARPET_DEPTH {
        MAX_CARPET_DEPTH
    } else {
        depth
    };
    let mut out: Vec<Square> = Vec::new();
    proof {
        lemma_pow3_le((n + 1) as nat, 8);
        lemma_carpet_tree_len(0, 0, n as nat, 0, shaded);
    }
    push_carpet(&mut out, 0, 0, n, 0, shaded);
    assert(out@ =~= carpet_spec(depth as nat, shaded));
    out
}

/// Keeps the squares whose draw is below `threshold`: square `i` goes with
/// `draws[i]`.
pub fn gate_squares(cells: &Vec<Square>, draws: &Vec<u32>, threshold: u32) -> (r: Vec<Square>)
    requires
        draws@.len() >= cells@.len(),
    ensures
        r@ == gate_spec(cells@, draws@, threshold as nat),
{
    let mut out: Vec<Square> = Vec::new();
    let mut i: usize = 0;
    while i < cells.len()
        invariant
            i <= cells@.len() <= draws@.len(),
            out@ == gate_spec(cells@.subrange(0, i as int), draws@, threshold as nat),
        decreases cells@.len() - i,
    {
        assert(cells@.subrange(0, (i + 1) as int).drop_last() =~= cells@.subrange(0, i as int));
        if draws[i] < threshold {
            out.push(cells[i]);
        }
        i = i + 1;
    }
    assert(cells@.subrange(0, cells@.len() as int) =~= cells@);
    out
}

/// The carpet for `params`. In random mode each visited square, in drawing
/// order, takes the next entry of `draws` and is kept when that entry is
/// below the probability (clamped to `PROBABILITY_SCALE`).
pub fn carpet(params: &CarpetParams, draws: &Vec<u32>) -> (r: Vec<Square>)
    requires
        params.randomness ==> draws@.len() >= carpet_count(clamped_depth(params.depth as nat)),
    ensures
        r@ == carpet_output(*params, draws@),
        !params.randomness ==> r@.len() == carpet_count(clamped_depth(params.depth as nat)),
{
    let cells = carpet_squares(params.depth, params.shaded);
    if params.randomness {
        let threshold = if params.probability > PROBABILITY_SCALE {
            PROBABILITY_SCALE
        } else {
            params.probability
        };
        gate_squares(&cells, draws, threshold)
    } else {
        cells
    }
}

/// `count` draws, each uniform in `0..PROBABILITY_SCALE`.
pub fn random_draws(count: usize) -> (r: Vec<u32>)
    ensures
        r@.len() == count,
        forall|i: int| 0 <= i < count ==> r@[i] < PROBABILITY_SCALE,
{
    let mut out: Vec<u32> = Vec::new();
    let mut i: usize = 0;
    while i < count
        invariant
            i <= count,
            out@.len() == i,
            forall|j: int| 0 <= j < i ==> out@[j] < PROBABILITY_SCALE,
        decreases count - i,
    {
        out.push(random_below(PROBABILITY_SCALE));
        i = i + 1;
    }
    out
}

pub open spec fn pow8(n: nat) -> nat
    decreases n,
{
    if n == 0 {
        1
    } else {
        8 * pow8((n - 1) as nat)
    }
}

/// `8^0 + 8^1 + ... + 8^n`.
pub open spec fn sum_pow8(n: nat) -> nat
    decreases n,
{
    if n == 0 {
        1
    } else {
        sum_pow8((n - 1) as nat) + pow8(n)
    }
}

proof fn lemma_sum_pow8_step(n: nat)
    requires
        n > 0,
    ensures
        sum_pow8(n) == 1 + 8 * sum_pow8((n - 1) as nat),
    decreases n,
{
    assert(pow8(n) == 8 * pow8((n - 1) as nat));
    if n > 1 {
        lemma_sum_pow8_step((n - 1) as nat);
        assert(sum_pow8((n - 1) as nat) == sum_pow8((n - 2) as nat) + pow8((n - 1) as nat));
    } else {
        assert(pow8(0) == 1);
    }
}

proof fn lemma_count_is_sum(n: nat)
    ensures
        carpet_count(n) == sum_pow8(n),
    decreases n,
{
    if n > 0 {
        lemma_count_is_sum((n - 1) as nat);
        lemma_sum_pow8_step(n);
    }
}

/// With randomness off, a carpet of depth `n` (at most `MAX_CARPET_DEPTH`)
/// has `8^0 + 8^1 + ... + 8^n` squares: one at depth 0, nine at depth 1,
/// seventy-three at depth 2.
pub proof fn lemma_carpet_square_count(params: CarpetParams, draws: Seq<u32>)
    requires
        !params.randomness,
        params.depth <= MAX_CARPET_DEPTH,
    ensures
        carpet_output(params, draws).len() == sum_pow8(params.depth as nat),
{
    lemma_carpet_tree_len(0, 0, params.depth as nat, 0, params.shaded);
    lemma_count_is_sum(params.depth as nat);
}

/// A carpet generator: its current settings, and the squares last computed
/// together with the settings they were computed for.
pub struct SierpinskiCarpet {
    params: CarpetParams,
    last: Option<CarpetParams>,
    shapes: Vec<Square>,
}

pub open spec fn default_carpet_params() -> CarpetParams {
    CarpetParams { depth: 1, shaded: false, randomness: false, probability: 500000 }
}

impl SierpinskiCarpet {
    pub closed spec fn params_spec(&self) -> CarpetParams {
        self.params
    }

    pub closed spec fn last_spec(&self) -> Option<CarpetParams> {
        self.last
    }

    pub closed spec fn shapes_spec(&self) -> Seq<Square> {
        self.shapes@
    }

    /// The cached squares match the settings they were computed for.
    pub open spec fn wf(&self) -> bool {
        match self.last_spec() {
            Some(p) => !p.randomness ==> self.shapes_spec() == carpet_output(p, seq![]),
            None => self.shapes_spec().len() == 0,
        }
    }

    /// The cache is out of date: the settings changed since it was filled.
    pub open spec fn is_stale(&self) -> bool {
        self.last_spec() != Some(self.params_spec())
    }

    pub fn new() -> (r: Self)
        ensures
            r.params_spec() == default_carpet_params(),
            r.last_spec() is None,
            r.shapes_spec().len() == 0,
            r.wf(),
    {
        SierpinskiCarpet {
            params: CarpetParams { depth: 1, shaded: false, randomness: false, probability: 500000 },
            last: None,
            shapes: Vec::new(),
        }
    }

    pub fn params(&self) -> (r: CarpetParams)
        ensures
            r == self.params_spec(),
    {
        self.params
    }

    /// Changes the settings; the cache is left as it is until the next refresh.
    pub fn set_params(&mut self, params: CarpetParams)
        ensures
            final(self).params_spec() == params,
            final(self).last_spec() == old(self).last_spec(),
            final(self).shapes_spec() == old(self).shapes_spec(),
    {
        self.params = params;
    }

    pub fn needs_recompute(&self) -> (r: bool)
        ensures
            r == self.is_stale(),
    {
        match self.last {
            Some(p) => p != self.params,
            None => true,
        }
    }

    pub fn shapes(&self) -> (r: &Vec<Square>)
        ensures
            r@ == self.shapes_spec(),
    {
        &self.shapes
    }

    /// Brings the cache up to date, taking the random draws from `draws`.
    /// When the settings are unchanged nothing is touched, so the same
    /// squares stay in place; otherwise they are rebuilt in full.
    /// Returns whether they were rebuilt.
    pub fn refresh_with(&mut self, draws: &Vec<u32>) -> (recomputed: bool)
        requires
            old(self).wf(),
            old(self).params_spec().randomness ==> draws@.len() >= carpet_count(
                clamped_depth(old(self).params_spec().depth as nat),
            ),
        ensures
            recomputed == old(self).is_stale(),
            !recomputed ==> *final(self) == *old(self),
            recomputed ==> final(self).shapes_spec() == carpet_output(old(self).params_spec(), draws@),
            final(self).params_spec() == old(self).params_spec(),
            final(self).last_spec() == Some(final(self).params_spec()),
            final(self).wf(),
    {
        if !self.needs_recompute() {
            return false;
        }
        self.shapes = carpet(&self.params, draws);
        self.last = Some(self.params);
        true
    }

    /// Brings the cache up to date, drawing fresh random numbers when the
    /// settings ask for randomness. Returns whether the squares were rebuilt.
    pub fn refresh(&mut self) -> (recomputed: bool)
        requires
            old(self).wf(),
        ensures
            recomputed == old(self).is_stale(),
            !recomputed ==> *final(self) == *old(self),
            recomputed && !old(self).params_spec().randomness ==> final(self).shapes_spec()
                == carpet_output(old(self).params_spec(), seq![]),
            recomputed && old(self).params_spec().randomness ==> exists|draws: Seq<u32>|
                {
                    &&& draws.len() == carpet_count(clamped_depth(old(self).params_spec().depth as nat))
                    &&& forall|i: int| 0 <= i < draws.len() ==> draws[i] < PROBABILITY_SCALE
                    &&& final(self).shapes_spec() == carpet_output(old(self).params_spec(), draws)
                },
            final(self).params_spec() == old(self).params_spec(),
            final(self).last_spec() == Some(final(self).params_spec()),
            final(self).wf(),
    {
        if !self.needs_recompute() {
            return false;
        }
        let draws = if self.params.randomness {
            let n = if self.params.depth > MAX_CARPET_DEPTH {
                MAX_CARPET_DEPTH
            } else {
                self.params.depth
            };
            proof {
                lemma_carpet_tree_len(0, 0, n as nat, 0, self.params.shaded);
            }
            let count = carpet_count_exec(n);
            random_draws(count)
        } else {
            Vec::new()
        };
        let ghost p = self.params;
        let r = self.refresh_with(&draws);
        assert(self.shapes_spec() == carpet_output(self.params_spec(), draws@));
        proof {
            if p.randomness {
                assert(draws@.len() == carpet_count(clamped_depth(p.depth as nat)));
                assert(forall|i: int| 0 <= i < draws@.len() ==> draws@[i] < PROBABILITY_SCALE);
            }
        }
        r
    }
}

/// `carpet_count(n)`, computed.
fn carpet_count_exec(n: u32) -> (r: usize)
    requires
        n <= MAX_CARPET_DEPTH,
    ensures
        r == carpet_count(n as nat),
{
    let mut r: usize = 1;
    let mut i: u32 = 0;
    while i < n
        invariant
            i <= n <= MAX_CARPET_DEPTH,
            r == carpet_count(i as nat),
            r <= carpet_count_bound(i as nat),
        decreases n - i,
    {
        r = 1 + 8 * r;
        i = i + 1;
    }
    r
}

spec fn carpet_count_bound(i: nat) -> nat {
    if i == 0 { 1 } else if i == 1 { 9 } else if i == 2 { 73 } else if i == 3 { 585 } else if i == 4 { 4681 } else if i == 5 { 37449 } else if i == 6 { 299593 } else { 2396745 }
}

impl Default for SierpinskiCarpet {
    fn default() -> (r: Self)
        ensures
            r.params_spec() == default_carpet_params(),
            r.last_spec() is None,
            r.wf(),
    {
        SierpinskiCarpet::new()
    }
}

} // verus!

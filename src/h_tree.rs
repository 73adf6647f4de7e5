use vstd::prelude::*;
use crate::color::Rgb;

verus! {

/// The deepest level the tree generator recurses to, whatever the settings.
pub const MAX_TREE_DEPTH: u32 = 20;

/// Lengths are given in billionths of a unit; each level's length is the
/// parent's times the scaling factor, rounded down to that precision.
pub const LENGTH_SCALE: u64 = 1000000000;

/// Scaling factors are given in thousandths.
pub const SCALE_DENOMINATOR: u64 = 1000;

/// One branch of a tree, drawn from the tip of its parent branch (or from
/// the root point when it has none). Its direction is the root angle plus
/// `turn` times the branch angle; its length is in `1 / LENGTH_SCALE` units.
#[derive(Clone, Copy, Debug, PartialEq, Eq)]
pub struct Branch {
    pub parent: Option<usize>,
    pub turn: i64,
    pub depth: u32,
    pub length: u64,
    pub color: Rgb,
}

/// The settings of the branching-tree generator.
#[derive(Clone, Copy, Debug, PartialEq, Eq, Structural)]
pub struct TreeParams {
    /// Length of the two root branches, in `1 / LENGTH_SCALE` units.
    pub root_length: u64,
    /// Each level is this many thousandths as long as the one above.
    pub scale: u64,
    /// Branches no longer than this end the recursion.
    pub min_length: u64,
    /// The color of the branches.
    pub color: Rgb,
    /// Draw the ending branches in the inverted color.
    pub invert_leaves: bool,
}

/// A setting that would keep the tree from ending.
#[derive(Clone, Copy, Debug, PartialEq, Eq, Structural)]
pub enum TreeError {
    /// The scaling factor is not strictly between 0 and 1.
    ScaleOutOfRange,
    /// The minimum length is zero.
    ZeroMinLength,
}

pub open spec fn tree_error(p: TreeParams) -> Option<TreeError> {
    if p.scale == 0 || p.scale >= SCALE_DENOMINATOR {
        Some(TreeError::ScaleOutOfRange)
    } else if p.min_length == 0 {
        Some(TreeError::ZeroMinLength)
    } else {
        None
    }
}

/// A branch of this length ends the recursion.
pub open spec fn is_leaf(p: TreeParams, length: nat) -> bool {
    length <= p.min_length
}

pub open spec fn branch_color(p: TreeParams, length: nat) -> Rgb {
    if p.invert_leaves && is_leaf(p, length) {
        p.color.inverted_spec()
    } else {
        p.color
    }
}

pub open spec fn scaled(p: TreeParams, length: nat) -> nat {
    length * p.scale as nat / SCALE_DENOMINATOR as nat
}

pub open spec fn branch_spec(p: TreeParams, parent: Option<usize>, length: nat, turn: int, depth: nat) -> Branch {
    Branch {
        parent,
        turn: turn as i64,
        depth: depth as u32,
        length: length as u64,
        color: branch_color(p, length),
    }
}

/// The branches drawn from one point, in drawing order, when that point's
/// two branches are numbered `base` and `base + 1`: the right branch, the
/// left branch, then everything grown from the right tip, then from the left.
pub open spec fn subtree(
    p: TreeParams,
    base: nat,
    parent: Option<usize>,
    length: nat,
    turn: int,
    depth: nat,
) -> Seq<Branch>
    decreases MAX_TREE_DEPTH - depth,
{
    let right = branch_spec(p, parent, length, turn - 1, depth);
    let left = branch_spec(p, parent, length, turn + 1, depth);
    if !is_leaf(p, length) && depth < MAX_TREE_DEPTH {
        let rs = subtree(p, base + 2, Some(base as usize), scaled(p, length), turn - 1, depth + 1);
        let ls = subtree(
            p,
            base + 2 + rs.len(),
            Some((base + 1) as usize),
            scaled(p, length),
            turn + 1,
            depth + 1,
        );
        seq![right, left] + rs + ls
    } else {
        seq![right, left]
    }
}

/// The whole tree for valid settings.
pub open spec fn tree_spec(p: TreeParams) -> Seq<Branch> {
    subtree(p, 0, None, p.root_length as nat, 0, 0)
}

/// Largest number of branches below a point at `depth`.
pub open spec fn subtree_bound(depth: nat) -> nat
    decreases MAX_TREE_DEPTH - depth,
{
    if depth < MAX_TREE_DEPTH {
        2 + 2 * subtree_bound(depth + 1)
    } else {
        2
    }
}

pub proof fn lemma_subtree_len(
    p: TreeParams,
    base: nat,
    parent: Option<usize>,
    length: nat,
    turn: int,
    depth: nat,
)
    requires
        depth <= MAX_TREE_DEPTH,
    ensures
        2 <= subtree(p, base, parent, length, turn, depth).len() <= subtree_bound(depth),
    decreases MAX_TREE_DEPTH - depth,
{
    if !is_leaf(p, length) && depth < MAX_TREE_DEPTH {
        let rs = subtree(p, base + 2, Some(base as usize), scaled(p, length), turn - 1, depth + 1);
        lemma_subtree_len(p, base + 2, Some(base as usize), scaled(p, length), turn - 1, depth + 1);
        lemma_subtree_len(
            p,
            base + 2 + rs.len(),
            Some((base + 1) as usize),
            scaled(p, length),
            turn + 1,
            depth + 1,
        );
    }
}

/// The number of levels grown from a point at `depth` whose branches have
/// `length`: one, plus the levels below when the branches are not leaves and
/// the depth cap is not reached. From the root this is `1 + k` for the first
/// `k` at which the length scaled `k` times is at most the minimum (or the
/// cap, whichever comes first).
pub open spec fn tree_levels(p: TreeParams, length: nat, depth: nat) -> nat
    decreases MAX_TREE_DEPTH - depth,
{
    if !is_leaf(p, length) && depth < MAX_TREE_DEPTH {
        1 + tree_levels(p, scaled(p, length), depth + 1)
    } else {
        1
    }
}

pub proof fn lemma_subtree_exact_len(
    p: TreeParams,
    base: nat,
    parent: Option<usize>,
    length: nat,
    turn: int,
    depth: nat,
)
    requires
        depth <= MAX_TREE_DEPTH,
    ensures
        subtree(p, base, parent, length, turn, depth).len() + 2 == 2 * pow2(tree_levels(p, length, depth)),
    decreases MAX_TREE_DEPTH - depth,
{
    if !is_leaf(p, length) && depth < MAX_TREE_DEPTH {
        let sl = scaled(p, length);
        let rs = subtree(p, base + 2, Some(base as usize), sl, turn - 1, depth + 1);
        lemma_subtree_exact_len(p, base + 2, Some(base as usize), sl, turn - 1, depth + 1);
        lemma_subtree_exact_len(p, base + 2 + rs.len(), Some((base + 1) as usize), sl, turn + 1, depth + 1);
        let l = tree_levels(p, sl, depth + 1);
        assert(pow2(l + 1) == 2 * pow2(l));
    } else {
        reveal_with_fuel(pow2, 2);
    }
}

/// A valid tree has exactly `2 * (2^D - 1)` branches, where `D` is the number
/// of levels it grows: every level doubles the branches of the one above.
pub proof fn lemma_tree_branch_count(p: TreeParams)
    ensures
        tree_spec(p).len() == 2 * (pow2(tree_levels(p, p.root_length as nat, 0)) - 1),
        tree_levels(p, p.root_length as nat, 0) >= 1,
{
    lemma_subtree_exact_len(p, 0, None, p.root_length as nat, 0, 0);
}

proof fn lemma_subtree_bound_small(depth: nat)
    requires
        depth <= MAX_TREE_DEPTH,
    ensures
        subtree_bound(depth) <= 0x40_0000,
{
    lemma_subtree_bound_pow(depth);
    lemma_pow2_mono((MAX_TREE_DEPTH + 2 - depth) as nat, 22);
    reveal_with_fuel(pow2, 23);
}

proof fn lemma_pow2_mono(a: nat, b: nat)
    requires
        a <= b,
    ensures
        pow2(a) <= pow2(b),
    decreases b,
{
    if a < b {
        lemma_pow2_mono(a, (b - 1) as nat);
    }
}

pub open spec fn pow2(n: nat) -> nat
    decreases n,
{
    if n == 0 {
        1
    } else {
        2 * pow2((n - 1) as nat)
    }
}

proof fn lemma_subtree_bound_pow(depth: nat)
    requires
        depth <= MAX_TREE_DEPTH,
    ensures
        subtree_bound(depth) + 2 == pow2((MAX_TREE_DEPTH + 2 - depth) as nat),
    decreases MAX_TREE_DEPTH - depth,
{
    if depth < MAX_TREE_DEPTH {
        lemma_subtree_bound_pow(depth + 1);
        assert(pow2((MAX_TREE_DEPTH + 2 - depth) as nat) == 2 * pow2((MAX_TREE_DEPTH + 2 - (depth
            + 1)) as nat));
    } else {
        reveal_with_fuel(pow2, 3);
    }
}

proof fn lemma_scaled_le(p: TreeParams, length: nat)
    requires
        p.scale < SCALE_DENOMINATOR,
    ensures
        scaled(p, length) <= length,
{
    assert(length * p.scale as nat / 1000 <= length) by (nonlinear_arith)
        requires
            p.scale < 1000,
    ;
}

/// Every branch of a subtree is no longer than the branches at its root and
/// is colored by the leaf rule.
pub proof fn lemma_subtree_colors(
    p: TreeParams,
    base: nat,
    parent: Option<usize>,
    length: nat,
    turn: int,
    depth: nat,
)
    requires
        depth <= MAX_TREE_DEPTH,
        length <= u64::MAX,
        p.scale < SCALE_DENOMINATOR,
    ensures
        forall|i: int|
            0 <= i < subtree(p, base, parent, length, turn, depth).len() ==> {
                let b = #[trigger] subtree(p, base, parent, length, turn, depth)[i];
                &&& b.length <= length
                &&& b.color == branch_color(p, b.length as nat)
            },
    decreases MAX_TREE_DEPTH - depth,
{
    if !is_leaf(p, length) && depth < MAX_TREE_DEPTH {
        lemma_scaled_le(p, length);
        let sl = scaled(p, length);
        let rs = subtree(p, base + 2, Some(base as usize), sl, turn - 1, depth + 1);
        let ls = subtree(p, base + 2 + rs.len(), Some((base + 1) as usize), sl, turn + 1, depth + 1);
        lemma_subtree_colors(p, base + 2, Some(base as usize), sl, turn - 1, depth + 1);
        lemma_subtree_colors(p, base + 2 + rs.len(), Some((base + 1) as usize), sl, turn + 1, depth + 1);
        let all = subtree(p, base, parent, length, turn, depth);
        assert forall|i: int| 0 <= i < all.len() implies all[i].length <= length
            && all[i].color == branch_color(p, all[i].length as nat) by {
            if i >= 2 && i < 2 + rs.len() {
                assert(all[i] == rs[i - 2]);
            } else if i >= 2 + rs.len() {
                assert(all[i] == ls[i - 2 - rs.len()]);
            }
        }
    }
}

/// With the leaf rule on, a branch no longer than the minimum length is
/// drawn in the inverted color and every other branch in the given color;
/// and the tree always ends, with at most `subtree_bound(0)` branches.
pub proof fn lemma_tree_leaf_colors(p: TreeParams)
    requires
        tree_error(p) is None,
        p.invert_leaves,
    ensures
        2 <= tree_spec(p).len() <= subtree_bound(0),
        forall|i: int|
            0 <= i < tree_spec(p).len() ==> {
                let b = #[trigger] tree_spec(p)[i];
                &&& b.length <= p.min_length ==> b.color == p.color.inverted_spec()
                &&& b.length > p.min_length ==> b.color == p.color
            },
{
    lemma_subtree_len(p, 0, None, p.root_length as nat, 0, 0);
    lemma_subtree_colors(p, 0, None, p.root_length as nat, 0, 0);
}

/// Appends the branches grown from one point, given its two branches'
/// shared parent, length, turn and depth.
fn push_subtree(
    out: &mut Vec<Branch>,
    p: &TreeParams,
    parent: Option<usize>,
    length: u64,
    turn: i64,
    depth: u32,
)
    requires
        depth <= MAX_TREE_DEPTH,
        -(depth as int) <= turn <= depth,
        p.scale < SCALE_DENOMINATOR,
        old(out)@.len() + subtree_bound(depth as nat) <= usize::MAX,
    ensures
        final(out)@ == old(out)@ + subtree(
            *p,
            old(out)@.len(),
            parent,
            length as nat,
            turn as int,
            depth as nat,
        ),
    decreases MAX_TREE_DEPTH - depth,
{
    let ghost start = out@;
    let base = out.len();
    let color = if p.invert_leaves && length <= p.min_length {
        p.color.inverted()
    } else {
        p.color
    };
    out.push(Branch { parent, turn: turn - 1, depth, length, color });
    out.push(Branch { parent, turn: turn + 1, depth, length, color });
    if length > p.min_length && depth < MAX_TREE_DEPTH {
        proof {
            lemma_scaled_le(*p, length as nat);
        }
        let next = ((length as u128) * (p.scale as u128) / 1000) as u64;
        assert(next == scaled(*p, length as nat));
        push_subtree(out, p, Some(base), next, turn - 1, depth + 1);
        proof {
            lemma_subtree_len(*p, (base + 2) as nat, Some(base), next as nat, turn - 1, (depth + 1) as nat);
        }
        push_subtree(out, p, Some(base + 1), next, turn + 1, depth + 1);
    }
    assert(out@ =~= start + subtree(*p, base as nat, parent, length as nat, turn as int, depth as nat));
}

/// The branches of the tree for `p`, in drawing order, or the reason `p`
/// would not end.
pub fn tree_branches(p: &TreeParams) -> (r: Result<Vec<Branch>, TreeError>)
    ensures
        match r {
            Ok(v) => tree_error(*p) is None && v@ == tree_spec(*p),
            Err(e) => tree_error(*p) == Some(e),
        },
{
    if p.scale == 0 || p.scale >= SCALE_DENOMINATOR {
        return Err(TreeError::ScaleOutOfRange);
    }
    if p.min_length == 0 {
        return Err(TreeError::ZeroMinLength);
    }
    let mut out: Vec<Branch> = Vec::new();
    proof {
        lemma_subtree_bound_small(0);
    }
    push_subtree(&mut out, p, None, p.root_length, 0, 0);
    assert(out@ =~= tree_spec(*p));
    Ok(out)
}

/// What the generator shows for `p`: the tree, or nothing when `p` is invalid.
pub open spec fn tree_output(p: TreeParams) -> Seq<Branch> {
    if tree_error(p) is None {
        tree_spec(p)
    } else {
        seq![]
    }
}

pub open spec fn default_tree_params() -> TreeParams {
    TreeParams {
        root_length: 100000000000,
        scale: 870,
        min_length: 60000000000,
        color: Rgb { r: 255, g: 0, b: 0 },
        invert_leaves: true,
    }
}

/// A branching-tree generator: its current settings, and the branches last
/// computed together with the settings they were computed for and the
/// configuration error met, if any.
pub struct HTree {
    params: TreeParams,
    last: Option<TreeParams>,
    shapes: Vec<Branch>,
    error: Option<TreeError>,
}

impl HTree {
    pub closed spec fn params_spec(&self) -> TreeParams {
        self.params
    }

    pub closed spec fn last_spec(&self) -> Option<TreeParams> {
        self.last
    }

    pub closed spec fn shapes_spec(&self) -> Seq<Branch> {
        self.shapes@
    }

    pub closed spec fn error_spec(&self) -> Option<TreeError> {
        self.error
    }

    /// The cached branches and error match the settings they were computed for.
    pub open spec fn wf(&self) -> bool {
        match self.last_spec() {
            Some(p) => self.shapes_spec() == tree_output(p) && self.error_spec() == tree_error(p),
            None => self.shapes_spec().len() == 0 && self.error_spec() is None,
        }
    }

    pub open spec fn is_stale(&self) -> bool {
        self.last_spec() != Some(self.params_spec())
    }

    pub fn with_params(params: TreeParams) -> (r: Self)
        ensures
            r.params_spec() == params,
            r.last_spec() is None,
            r.wf(),
    {
        HTree { params, last: None, shapes: Vec::new(), error: None }
    }

    pub fn new() -> (r: Self)
        ensures
            r.params_spec() == default_tree_params(),
            r.last_spec() is None,
            r.wf(),
    {
        HTree::with_params(
            TreeParams {
                root_length: 100000000000,
                scale: 870,
                min_length: 60000000000,
                color: Rgb { r: 255, g: 0, b: 0 },
                invert_leaves: true,
            },
        )
    }

    pub fn params(&self) -> (r: TreeParams)
        ensures
            r == self.params_spec(),
    {
        self.params
    }

    /// Changes the settings; the cache is left as it is until the next refresh.
    pub fn set_params(&mut self, params: TreeParams)
        ensures
            final(self).params_spec() == params,
            final(self).last_spec() == old(self).last_spec(),
            final(self).shapes_spec() == old(self).shapes_spec(),
            final(self).error_spec() == old(self).error_spec(),
    {
        self.params = params;
    }

    pub fn needs_recompute(&self) -> (r: bool)
        ensures
            r == self.is_stale(),
    {
        match self.last {
            Some(p) => p != self.params,
            None => true,
        }
    }

    pub fn shapes(&self) -> (r: &Vec<Branch>)
        ensures
            r@ == self.shapes_spec(),
    {
        &self.shapes
    }

    /// The configuration error of the settings last computed, if any.
    pub fn error(&self) -> (r: Option<TreeError>)
        ensures
            r == self.error_spec(),
    {
        self.error
    }

    /// Brings the cache up to date. When the settings are unchanged nothing
    /// is touched; otherwise the branches are rebuilt in full, or cleared with
    /// the error recorded when the settings are invalid. Returns whether the
    /// cache was rebuilt.
    pub fn refresh(&mut self) -> (recomputed: bool)
        requires
            old(self).wf(),
        ensures
            recomputed == old(self).is_stale(),
            !recomputed ==> *final(self) == *old(self),
            final(self).shapes_spec() == tree_output(old(self).params_spec()),
            final(self).error_spec() == tree_error(old(self).params_spec()),
            final(self).params_spec() == old(self).params_spec(),
            final(self).last_spec() == Some(final(self).params_spec()),
            final(self).wf(),
    {
        if !self.needs_recompute() {
            return false;
        }
        match tree_branches(&self.params) {
            Ok(v) => {
                self.shapes = v;
                self.error = None;
            },
            Err(e) => {
                self.shapes = Vec::new();
                self.error = Some(e);
            },
        }
        self.last = Some(self.params);
        true
    }
}

impl Default for HTree {
    fn default() -> (r: Self)
        ensures
            r.params_spec() == default_tree_params(),
            r.last_spec() is None,
            r.wf(),
    {
        HTree::new()
    }
}

} // verus!

use vstd::prelude::*;
use crate::color::Rgb;
use crate::h_tree::{Branch, HTree, TreeError, TreeParams, tree_error, tree_output};

verus! {

pub open spec fn clock_tree_params() -> TreeParams {
    TreeParams {
        root_length: 100000000000,
        scale: 870,
        min_length: 60000000000,
        color: Rgb { r: 255, g: 0, b: 0 },
        invert_leaves: false,
    }
}

/// A branching tree drawn in one fixed color, with no leaf coloring.
pub struct FractalClock {
    tree: HTree,
}

impl FractalClock {
    pub closed spec fn tree_spec(&self) -> HTree {
        self.tree
    }

    pub open spec fn wf(&self) -> bool {
        self.tree_spec().wf()
    }

    pub fn new() -> (r: Self)
        ensures
            r.tree_spec().params_spec() == clock_tree_params(),
            r.tree_spec().last_spec() is None,
            r.wf(),
    {
        FractalClock {
            tree: HTree::with_params(
                TreeParams {
                    root_length: 100000000000,
                    scale: 870,
                    min_length: 60000000000,
                    color: Rgb { r: 255, g: 0, b: 0 },
                    invert_leaves: false,
                },
            ),
        }
    }

    pub fn params(&self) -> (r: TreeParams)
        ensures
            r == self.tree_spec().params_spec(),
    {
        self.tree.params()
    }

    /// Changes the minimum branch length; the cache is left as it is until
    /// the next refresh.
    pub fn set_min_length(&mut self, min_length: u64)
        ensures
            final(self).tree_spec().params_spec() == (TreeParams {
                min_length,
                ..old(self).tree_spec().params_spec()
            }),
            final(self).tree_spec().last_spec() == old(self).tree_spec().last_spec(),
            final(self).tree_spec().shapes_spec() == old(self).tree_spec().shapes_spec(),
            final(self).tree_spec().error_spec() == old(self).tree_spec().error_spec(),
    {
        let p = self.tree.params();
        self.tree.set_params(TreeParams { min_length, ..p });
    }

    pub fn shapes(&self) -> (r: &Vec<Branch>)
        ensures
            r@ == self.tree_spec().shapes_spec(),
    {
        self.tree.shapes()
    }

    pub fn error(&self) -> (r: Option<TreeError>)
        ensures
            r == self.tree_spec().error_spec(),
    {
        self.tree.error()
    }

    /// Brings the cached branches up to date, as `HTree::refresh` does.
    pub fn refresh(&mut self) -> (recomputed: bool)
        requires
            old(self).wf(),
        ensures
            recomputed == old(self).tree_spec().is_stale(),
            !recomputed ==> *final(self) == *old(self),
            final(self).tree_spec().shapes_spec() == tree_output(old(self).tree_spec().params_spec()),
            final(self).tree_spec().error_spec() == tree_error(old(self).tree_spec().params_spec()),
            final(self).tree_spec().params_spec() == old(self).tree_spec().params_spec(),
            final(self).wf(),
    {
        self.tree.refresh()
    }
}

impl Default for FractalClock {
    fn default() -> (r: Self)
        ensures
            r.tree_spec().params_spec() == clock_tree_params(),
            r.wf(),
    {
        FractalClock::new()
    }
}

} // verus!

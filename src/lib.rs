use vstd::prelude::*;

pub mod color;
pub mod fibonacci_word;
pub mod fractal_clock;
pub mod h_tree;
pub mod mandelbrot;
mod random;
pub mod sierpinski;
pub mod wrap_app;

pub use wrap_app::WrapApp;

use crate::fibonacci_word::{fib_word, path_spec};
use crate::h_tree::{TreeParams, tree_output};
use crate::mandelbrot::{EscapeParams, escape_output};
use crate::sierpinski::{CarpetParams, carpet_output};

verus! {

/// Generation has no hidden inputs: the carpet without randomness gives the
/// same squares whatever draws it is handed, and every generator's output is
/// a function of its settings alone, so two runs on equal settings agree.
pub proof fn lemma_generation_is_deterministic(
    carpet: CarpetParams,
    draws1: Seq<u32>,
    draws2: Seq<u32>,
    n1: nat,
    n2: nat,
    tree1: TreeParams,
    tree2: TreeParams,
    escape1: EscapeParams,
    escape2: EscapeParams,
)
    requires
        !carpet.randomness,
    ensures
        carpet_output(carpet, draws1) == carpet_output(carpet, draws2),
        n1 == n2 ==> path_spec(fib_word(n1)) == path_spec(fib_word(n2)),
        tree1 == tree2 ==> tree_output(tree1) == tree_output(tree2),
        escape1 == escape2 ==> escape_output(escape1) == escape_output(escape2),
{
}

} // verus!

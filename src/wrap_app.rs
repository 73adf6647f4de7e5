use vstd::prelude::*;
use crate::fibonacci_word::{FibonacciWord, fib_word, path_spec};
use crate::h_tree::{HTree, tree_error, tree_output};
use crate::mandelbrot::{Mandelbrot, escape_error, escape_output};
use crate::sierpinski::{SierpinskiCarpet, carpet_output};

verus! {

/// The fractals on offer, in the order they are listed.
#[derive(Clone, Copy, Debug, PartialEq, Eq, Structural)]
pub enum Fractal {
    Sierpinski,
    Fibonacci,
    Tree,
    Mandelbrot,
}

pub open spec fn anchor_spec(f: Fractal) -> Seq<char> {
    match f {
        Fractal::Sierpinski => "sierpinski"@,
        Fractal::Fibonacci => "fibonacci"@,
        Fractal::Tree => "htree"@,
        Fractal::Mandelbrot => "mandelbrot"@,
    }
}

/// The fractal whose anchor is `s`, if any.
pub open spec fn fractal_of_anchor(s: Seq<char>) -> Option<Fractal> {
    if s == "sierpinski"@ {
        Some(Fractal::Sierpinski)
    } else if s == "fibonacci"@ {
        Some(Fractal::Fibonacci)
    } else if s == "htree"@ {
        Some(Fractal::Tree)
    } else if s == "mandelbrot"@ {
        Some(Fractal::Mandelbrot)
    } else {
        None
    }
}

impl Fractal {
    /// The short name that selects this fractal in a page address.
    pub fn anchor(&self) -> (r: &'static str)
        ensures
            r@ == anchor_spec(*self),
    {
        match self {
            Fractal::Sierpinski => "sierpinski",
            Fractal::Fibonacci => "fibonacci",
            Fractal::Tree => "htree",
            Fractal::Mandelbrot => "mandelbrot",
        }
    }

    /// The title shown for this fractal.
    pub fn name(&self) -> (r: &'static str)
        ensures
            r@ == match *self {
                Fractal::Sierpinski => "Sierpinski Carpet"@,
                Fractal::Fibonacci => "Fibonacci Word"@,
                Fractal::Tree => "H Tree"@,
                Fractal::Mandelbrot => "Mandelbrot Set"@,
            },
    {
        match self {
            Fractal::Sierpinski => "Sierpinski Carpet",
            Fractal::Fibonacci => "Fibonacci Word",
            Fractal::Tree => "H Tree",
            Fractal::Mandelbrot => "Mandelbrot Set",
        }
    }
}

/// The fractal selected by `anchor`, if it names one.
pub fn fractal_from_anchor(anchor: &str) -> (r: Option<Fractal>)
    ensures
        r == fractal_of_anchor(anchor@),
{
    let a = anchor.to_owned();
    if a == "sierpinski".to_owned() {
        Some(Fractal::Sierpinski)
    } else if a == "fibonacci".to_owned() {
        Some(Fractal::Fibonacci)
    } else if a == "htree".to_owned() {
        Some(Fractal::Tree)
    } else if a == "mandelbrot".to_owned() {
        Some(Fractal::Mandelbrot)
    } else {
        None
    }
}

/// Each fractal's anchor selects that fractal.
pub proof fn lemma_anchor_round_trip(f: Fractal)
    ensures
        fractal_of_anchor(anchor_spec(f)) == Some(f),
{
    reveal_strlit("sierpinski");
    reveal_strlit("fibonacci");
    reveal_strlit("htree");
    reveal_strlit("mandelbrot");
    assert("sierpinski"@[0] == 's' && "fibonacci"@[0] == 'f');
    assert("htree"@[0] == 'h' && "mandelbrot"@[0] == 'm');
    assert("fibonacci"@ != "sierpinski"@);
    assert("htree"@ != "sierpinski"@ && "htree"@ != "fibonacci"@);
    assert("mandelbrot"@ != "sierpinski"@ && "mandelbrot"@ != "fibonacci"@ && "mandelbrot"@
        != "htree"@);
}

/// `after` is `before` with the generator `f` brought up to date and the
/// others untouched; `recomputed` tells whether `f`'s output was rebuilt.
pub open spec fn refreshed(before: Apps, after: Apps, f: Fractal, recomputed: bool) -> bool {
    &&& f != Fractal::Sierpinski ==> after.sierpinski == before.sierpinski
    &&& f != Fractal::Fibonacci ==> after.fibonacci == before.fibonacci
    &&& f != Fractal::Tree ==> after.htree == before.htree
    &&& f != Fractal::Mandelbrot ==> after.mandelbrot == before.mandelbrot
    &&& f == Fractal::Sierpinski ==> {
        let p = before.sierpinski.params_spec();
        &&& recomputed == before.sierpinski.is_stale()
        &&& !recomputed ==> after.sierpinski == before.sierpinski
        &&& after.sierpinski.params_spec() == p
        &&& !after.sierpinski.is_stale()
        &&& !p.randomness ==> after.sierpinski.shapes_spec() == carpet_output(p, seq![])
    }
    &&& f == Fractal::Fibonacci ==> {
        let n = before.fibonacci.n_spec();
        &&& recomputed == before.fibonacci.is_stale()
        &&& !recomputed ==> after.fibonacci == before.fibonacci
        &&& after.fibonacci.n_spec() == n
        &&& !after.fibonacci.is_stale()
        &&& after.fibonacci.shapes_spec() == path_spec(fib_word(n as nat))
    }
    &&& f == Fractal::Tree ==> {
        let p = before.htree.params_spec();
        &&& recomputed == before.htree.is_stale()
        &&& !recomputed ==> after.htree == before.htree
        &&& after.htree.params_spec() == p
        &&& !after.htree.is_stale()
        &&& after.htree.shapes_spec() == tree_output(p)
        &&& after.htree.error_spec() == tree_error(p)
    }
    &&& f == Fractal::Mandelbrot ==> {
        let p = before.mandelbrot.params_spec();
        &&& recomputed == before.mandelbrot.is_stale()
        &&& !recomputed ==> after.mandelbrot == before.mandelbrot
        &&& after.mandelbrot.params_spec() == p
        &&& !after.mandelbrot.is_stale()
        &&& after.mandelbrot.shapes_spec() == escape_output(p)
        &&& after.mandelbrot.error_spec() == escape_error(p)
    }
}

/// One generator of each kind.
pub struct Apps {
    pub fibonacci: FibonacciWord,
    pub htree: HTree,
    pub sierpinski: SierpinskiCarpet,
    pub mandelbrot: Mandelbrot,
}

impl Apps {
    pub open spec fn wf(&self) -> bool {
        &&& self.fibonacci.wf()
        &&& self.htree.wf()
        &&& self.sierpinski.wf()
        &&& self.mandelbrot.wf()
    }

    pub fn new() -> (r: Self)
        ensures
            r.wf(),
    {
        Apps {
            fibonacci: FibonacciWord::new(),
            htree: HTree::new(),
            sierpinski: SierpinskiCarpet::new(),
            mandelbrot: Mandelbrot::new(),
        }
    }

    /// The fractals in the order they are listed.
    pub fn fractals(&self) -> (r: Vec<Fractal>)
        ensures
            r@ == seq![Fractal::Sierpinski, Fractal::Fibonacci, Fractal::Tree, Fractal::Mandelbrot],
    {
        vec![Fractal::Sierpinski, Fractal::Fibonacci, Fractal::Tree, Fractal::Mandelbrot]
    }

    /// Brings the cache of the generator `f` up to date and leaves the
    /// others alone. Returns whether its output was rebuilt.
    pub fn refresh(&mut self, f: Fractal) -> (recomputed: bool)
        requires
            old(self).wf(),
        ensures
            final(self).wf(),
            refreshed(*old(self), *final(self), f, recomputed),
    {
        match f {
            Fractal::Sierpinski => self.sierpinski.refresh(),
            Fractal::Fibonacci => self.fibonacci.refresh(),
            Fractal::Tree => self.htree.refresh(),
            Fractal::Mandelbrot => self.mandelbrot.refresh(),
        }
    }
}

impl Default for Apps {
    fn default() -> (r: Self)
        ensures
            r.wf(),
    {
        Apps::new()
    }
}

/// The fractal shown for a selected anchor: the one it names, or the first
/// when none is selected yet.
pub open spec fn shown_spec(anchor: Seq<char>) -> Option<Fractal> {
    if anchor.len() == 0 {
        Some(Fractal::Sierpinski)
    } else {
        fractal_of_anchor(anchor)
    }
}

/// All the generators, and the anchor of the one on show.
pub struct WrapApp {
    pub selected_anchor: String,
    pub apps: Apps,
}

impl WrapApp {
    pub open spec fn anchor_spec(&self) -> Seq<char> {
        self.selected_anchor@
    }

    pub fn new() -> (r: Self)
        ensures
            r.anchor_spec().len() == 0,
            r.apps.wf(),
    {
        WrapApp { selected_anchor: String::new(), apps: Apps::new() }
    }

    /// Selects the fractal named by `anchor` (from a link or a menu click).
    pub fn select_anchor(&mut self, anchor: &str)
        ensures
            final(self).anchor_spec() == anchor@,
            final(self).apps == old(self).apps,
    {
        self.selected_anchor = anchor.to_owned();
    }

    /// Selects `f`.
    pub fn select(&mut self, f: Fractal)
        ensures
            final(self).anchor_spec() == anchor_spec(f),
            final(self).apps == old(self).apps,
    {
        self.selected_anchor = f.anchor().to_owned();
    }

    /// The anchor now selected; empty before any selection.
    pub fn selected_anchor(&self) -> (r: &str)
        ensures
            r@ == self.anchor_spec(),
    {
        self.selected_anchor.as_str()
    }

    /// The fractal on show: the selected one, the first when nothing is
    /// selected, and none for an anchor that names no fractal.
    pub fn shown(&self) -> (r: Option<Fractal>)
        ensures
            r == shown_spec(self.anchor_spec()),
    {
        let a = self.selected_anchor.as_str();
        if a.is_empty() {
            Some(Fractal::Sierpinski)
        } else {
            fractal_from_anchor(a)
        }
    }

    /// Stores the first fractal's anchor when none is selected yet, then
    /// brings the fractal on show up to date; the others are left alone.
    /// Returns whether its output was rebuilt.
    pub fn update(&mut self) -> (recomputed: bool)
        requires
            old(self).apps.wf(),
        ensures
            final(self).apps.wf(),
            old(self).anchor_spec().len() == 0 ==> final(self).anchor_spec() == "sierpinski"@,
            old(self).anchor_spec().len() != 0 ==> final(self).anchor_spec()
                == old(self).anchor_spec(),
            match shown_spec(old(self).anchor_spec()) {
                Some(f) => refreshed(old(self).apps, final(self).apps, f, recomputed),
                None => !recomputed && final(self).apps == old(self).apps,
            },
    {
        if self.selected_anchor.as_str().is_empty() {
            self.select(Fractal::Sierpinski);
        }
        match self.shown() {
            Some(f) => self.apps.refresh(f),
            None => false,
        }
    }
}

impl Default for WrapApp {
    fn default() -> (r: Self)
        ensures
            r.anchor_spec().len() == 0,
            r.apps.wf(),
    {
        WrapApp::new()
    }
}

} // verus!

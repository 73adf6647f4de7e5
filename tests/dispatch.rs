use fractals::wrap_app::{fractal_from_anchor, Apps, Fractal};
use fractals::WrapApp;

#[test]
fn anchors_round_trip() {
    let apps = Apps::new();
    for f in apps.fractals() {
        assert_eq!(fractal_from_anchor(f.anchor()), Some(f));
    }
    assert_eq!(fractal_from_anchor("nothing"), None);
    assert_eq!(Fractal::Tree.name(), "H Tree");
}

#[test]
fn first_fractal_is_shown_by_default() {
    let mut w = WrapApp::new();
    assert_eq!(w.shown(), Some(Fractal::Sierpinski));
    assert_eq!(w.selected_anchor(), "");
    assert!(w.update());
    assert_eq!(w.selected_anchor(), "sierpinski");
    assert_eq!(w.apps.sierpinski.shapes().len(), 9);
    assert!(w.apps.fibonacci.shapes().is_empty());
    assert!(!w.update());
}

#[test]
fn selection_routes_the_update() {
    let mut w = WrapApp::default();
    w.select_anchor("fibonacci");
    assert_eq!(w.shown(), Some(Fractal::Fibonacci));
    assert!(w.update());
    assert_eq!(w.apps.fibonacci.shapes().len(), 2);
    assert!(w.apps.sierpinski.shapes().is_empty());
    w.select(Fractal::Tree);
    assert_eq!(w.selected_anchor(), "htree");
    assert!(w.update());
    assert_eq!(w.apps.htree.shapes().len(), 62);
    w.select_anchor("unknown");
    assert_eq!(w.shown(), None);
    assert!(!w.update());
    assert_eq!(w.selected_anchor(), "unknown");
}

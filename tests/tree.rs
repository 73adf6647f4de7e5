use fractals::color::Rgb;
use fractals::fractal_clock::FractalClock;
use fractals::h_tree::{tree_branches, HTree, TreeError, TreeParams, LENGTH_SCALE};

const RED: Rgb = Rgb { r: 255, g: 0, b: 0 };
const CYAN: Rgb = Rgb { r: 0, g: 255, b: 255 };
const U: u64 = LENGTH_SCALE;

fn params(n: u64) -> TreeParams {
    TreeParams { root_length: 100 * U, scale: 870, min_length: 20 * U * (4 - n), color: RED, invert_leaves: true }
}

#[test]
fn trees_end_for_each_slider_value() {
    let expected = [62usize, 510, 16382];
    for n in 1u64..=3 {
        let p = params(n);
        let v = tree_branches(&p).unwrap();
        assert_eq!(v.len(), expected[n as usize - 1]);
        for b in &v {
            if b.length <= p.min_length {
                assert_eq!(b.color, CYAN);
            } else {
                assert_eq!(b.color, RED);
            }
        }
        assert!(v.iter().any(|b| b.color == CYAN));
    }
}

#[test]
fn branch_layout() {
    let v = tree_branches(&params(1)).unwrap();
    assert_eq!((v[0].parent, v[0].turn, v[0].depth, v[0].length), (None, -1, 0, 100 * U));
    assert_eq!((v[1].parent, v[1].turn, v[1].depth, v[1].length), (None, 1, 0, 100 * U));
    assert_eq!((v[2].parent, v[2].turn, v[2].length), (Some(0), -2, 87_000_000_000));
    assert_eq!((v[3].parent, v[3].turn), (Some(0), 0));
    assert_eq!(v[4].length, 75_690_000_000);
    assert_eq!(v[6].length, 65_850_300_000);
    assert_eq!(v[8].length, 57_289_761_000);
    assert_eq!(v[8].color, CYAN);
}

#[test]
fn child_just_above_the_minimum_keeps_growing() {
    // 68.97 * 0.87 = 60.0039, above the minimum 60: three levels.
    let p = TreeParams { root_length: 68_970_000_000, min_length: 60 * U, ..params(1) };
    assert_eq!(tree_branches(&p).unwrap().len(), 14);
}

#[test]
fn fractional_minimum_is_compared_exactly() {
    // Level five is 49.842..., above the minimum 49.84.
    let p = TreeParams { min_length: 49_840_000_000, invert_leaves: false, ..params(1) };
    assert_eq!(tree_branches(&p).unwrap().len(), 254);
}

#[test]
fn invalid_settings_are_rejected() {
    let p = params(1);
    assert_eq!(tree_branches(&TreeParams { scale: 0, ..p }), Err(TreeError::ScaleOutOfRange));
    assert_eq!(tree_branches(&TreeParams { scale: 1000, ..p }), Err(TreeError::ScaleOutOfRange));
    assert_eq!(tree_branches(&TreeParams { min_length: 0, ..p }), Err(TreeError::ZeroMinLength));
}

#[test]
fn short_root_draws_two_leaves() {
    let v = tree_branches(&TreeParams { root_length: U, ..params(1) }).unwrap();
    assert_eq!(v.len(), 2);
    assert!(v.iter().all(|b| b.color == CYAN));
}

#[test]
fn depth_cap_bounds_the_tree() {
    let p = TreeParams { root_length: 1000 * U, scale: 999, min_length: 1, color: RED, invert_leaves: false };
    let v = tree_branches(&p).unwrap();
    assert_eq!(v.len(), (1usize << 22) - 2);
    assert!(v.iter().all(|b| b.depth <= 20));
}

#[test]
fn tree_cache_records_errors() {
    let mut t = HTree::new();
    assert!(t.refresh());
    assert_eq!(t.shapes().len(), 62);
    assert_eq!(t.error(), None);
    let first = t.shapes().as_ptr();
    assert!(!t.refresh());
    assert_eq!(first, t.shapes().as_ptr());
    t.set_params(TreeParams { scale: 1200, ..t.params() });
    assert!(t.refresh());
    assert!(t.shapes().is_empty());
    assert_eq!(t.error(), Some(TreeError::ScaleOutOfRange));
}

#[test]
fn clock_tree_has_one_color() {
    let mut c = FractalClock::new();
    assert!(c.refresh());
    assert_eq!(c.shapes().len(), 62);
    assert!(c.shapes().iter().all(|b| b.color == RED));
    c.set_min_length(40 * U);
    assert!(c.refresh());
    assert_eq!(c.shapes().len(), 510);
    c.set_min_length(49_840_000_000);
    assert!(c.refresh());
    assert_eq!(c.shapes().len(), 254);
    assert_eq!(c.error(), None);
}

use fractals::color::Rgb;
use fractals::sierpinski::{
    carpet, carpet_squares, gate_squares, random_draws, CarpetParams, SierpinskiCarpet, Square,
    PROBABILITY_SCALE,
};

const BLUE: Rgb = Rgb { r: 0, g: 0, b: 255 };

fn plain(depth: u32) -> CarpetParams {
    CarpetParams { depth, shaded: false, randomness: false, probability: 500000 }
}

#[test]
fn depth_zero_is_one_square() {
    let v = carpet_squares(0, false);
    assert_eq!(v, vec![Square { cx: 0, cy: 0, side: 1, color: BLUE }]);
}

#[test]
fn square_counts_are_sums_of_powers_of_eight() {
    let expected = [1usize, 9, 73, 585, 4681, 37449];
    for (depth, want) in expected.iter().enumerate() {
        assert_eq!(carpet_squares(depth as u32, false).len(), *want);
        assert_eq!(carpet(&plain(depth as u32), &Vec::new()).len(), *want);
    }
}

#[test]
fn depth_one_layout() {
    let v = carpet_squares(1, false);
    assert_eq!(v[0], Square { cx: 0, cy: 0, side: 3, color: BLUE });
    let neighbors: Vec<(i64, i64)> = v[1..].iter().map(|s| (s.cx, s.cy)).collect();
    assert_eq!(
        neighbors,
        vec![(-3, -3), (-3, 0), (-3, 3), (0, -3), (0, 3), (3, -3), (3, 0), (3, 3)]
    );
    assert!(v[1..].iter().all(|s| s.side == 1));
}

#[test]
fn shaded_colors_follow_the_level() {
    let v = carpet_squares(2, true);
    assert_eq!(v[0].color, Rgb { r: 144, g: 224, b: 239 });
    assert_eq!(v[1].color, Rgb { r: 72, g: 202, b: 228 });
    assert_eq!(v[2].color, Rgb { r: 90, g: 180, b: 216 });
    assert_eq!(v[2].side, 1);
}

#[test]
fn gate_keeps_squares_below_the_threshold() {
    let cells = carpet_squares(1, false);
    let draws: Vec<u32> = vec![0, 10, 600000, 499999, 500000, 1, 999999, 2, 3];
    let kept = gate_squares(&cells, &draws, 500000);
    let want: Vec<Square> = [0usize, 1, 3, 5, 7, 8].iter().map(|&i| cells[i]).collect();
    assert_eq!(kept, want);
}

#[test]
fn random_mode_uses_the_draws_in_order() {
    let params = CarpetParams { depth: 1, shaded: false, randomness: true, probability: 500000 };
    let all = carpet(&params, &vec![0; 9]);
    assert_eq!(all.len(), 9);
    let none = carpet(&params, &vec![999999; 9]);
    assert!(none.is_empty());
    let certain = CarpetParams { probability: 5000000, ..params };
    assert_eq!(carpet(&certain, &vec![999999; 9]).len(), 9);
}

#[test]
fn random_draws_are_in_range() {
    let d = random_draws(1000);
    assert_eq!(d.len(), 1000);
    assert!(d.iter().all(|&x| x < PROBABILITY_SCALE));
}

#[test]
fn same_settings_give_identical_squares() {
    assert_eq!(carpet_squares(3, true), carpet_squares(3, true));
}

#[test]
fn cache_is_kept_while_settings_are_unchanged() {
    let mut c = SierpinskiCarpet::new();
    assert!(c.needs_recompute());
    assert!(c.refresh());
    assert_eq!(c.shapes().len(), 9);
    let first = c.shapes().as_ptr();
    assert!(!c.refresh());
    assert_eq!(first, c.shapes().as_ptr());
    c.set_params(plain(2));
    assert!(c.needs_recompute());
    assert!(c.refresh());
    assert_eq!(c.shapes().len(), 73);
}

#[test]
fn random_refresh_draws_a_subset() {
    let mut c = SierpinskiCarpet::default();
    c.set_params(CarpetParams { depth: 2, shaded: false, randomness: true, probability: 500000 });
    assert!(c.refresh());
    let full = carpet_squares(2, false);
    assert!(c.shapes().len() <= 73);
    assert!(c.shapes().iter().all(|s| full.contains(s)));
}

#[test]
fn depth_is_clamped_to_the_maximum() {
    let v = carpet_squares(9, false);
    assert_eq!(v.len(), 2396745);
    assert_eq!(v[0].side, 2187);
    assert!(v.iter().all(|s| s.side >= 1));
}

use fractals::color::{hsv_to_rgb, Rgb};
use fractals::mandelbrot::{
    escape_color_exec, escape_iterations, mandelbrot_pixels, EscapeError, EscapeParams, Mandelbrot,
    FIX_ONE,
};

const BLACK: Rgb = Rgb { r: 0, g: 0, b: 0 };

#[test]
fn origin_never_escapes() {
    for max in [25u32, 80, 255] {
        assert_eq!(escape_iterations(0, 0, max, 4), max);
        assert_eq!(escape_color_exec(max, max), BLACK);
    }
}

#[test]
fn far_real_points_escape_at_once() {
    assert!(escape_iterations(21 * FIX_ONE / 10, 0, 80, 4) <= 2);
    assert!(escape_iterations(-3 * FIX_ONE, 0, 80, 4) <= 2);
    assert_eq!(escape_iterations(21 * FIX_ONE / 10, 0, 80, 4), 1);
}

#[test]
fn escape_counts_of_known_points() {
    // c = 1: z runs 1, 2, 5; |z|^2 reaches 4 after one step.
    assert_eq!(escape_iterations(FIX_ONE, 0, 80, 4), 2);
    // c = -1 cycles between -1 and 0 forever.
    assert_eq!(escape_iterations(-FIX_ONE, 0, 80, 4), 80);
    // c = i cycles too.
    assert_eq!(escape_iterations(0, FIX_ONE, 50, 4), 50);
}

#[test]
fn hsv_sectors() {
    assert_eq!(hsv_to_rgb(0, 1, 1, 1), Rgb { r: 255, g: 0, b: 0 });
    assert_eq!(hsv_to_rgb(1, 1, 1, 1), Rgb { r: 255, g: 255, b: 0 });
    assert_eq!(hsv_to_rgb(2, 1, 1, 1), Rgb { r: 0, g: 255, b: 0 });
    assert_eq!(hsv_to_rgb(3, 1, 1, 1), Rgb { r: 0, g: 255, b: 255 });
    assert_eq!(hsv_to_rgb(4, 1, 1, 1), Rgb { r: 0, g: 0, b: 255 });
    assert_eq!(hsv_to_rgb(5, 1, 1, 1), Rgb { r: 255, g: 0, b: 255 });
    assert_eq!(hsv_to_rgb(6, 1, 1, 1), Rgb { r: 255, g: 0, b: 0 });
    assert_eq!(hsv_to_rgb(1, 2, 2, 2), Rgb { r: 255, g: 128, b: 0 });
    assert_eq!(hsv_to_rgb(0, 2, 1, 2), Rgb { r: 255, g: 128, b: 128 });
    assert_eq!(hsv_to_rgb(0, 1, 1, 0), BLACK);
}

#[test]
fn escape_colors_by_count() {
    assert_eq!(escape_color_exec(0, 80), Rgb { r: 255, g: 0, b: 0 });
    assert_eq!(escape_color_exec(40, 80), Rgb { r: 0, g: 255, b: 255 });
    assert_eq!(escape_color_exec(20, 80), Rgb { r: 128, g: 255, b: 0 });
}

#[test]
fn grid_is_column_major_and_clamped() {
    let p = EscapeParams { zoom: FIX_ONE, resolution: 5, max_iterations: 25, threshold: 4 };
    let v = mandelbrot_pixels(&p).unwrap();
    assert_eq!(v.len(), 100 * 100);
    assert_eq!((v[0].x, v[0].y), (0, 0));
    assert_eq!((v[1].x, v[1].y), (0, 1));
    assert_eq!((v[100].x, v[100].y), (1, 0));
    // Cell (81, 41) samples c close to 0, inside the set.
    assert_eq!(v[81 * 100 + 41].color, BLACK);
    // Cell (0, 0) samples c = -2 - 0.92i, which escapes at count 1:
    // hue 360 / 25 degrees.
    assert_eq!(v[0].color, Rgb { r: 255, g: 62, b: 0 });
    assert_eq!(v[0].color, escape_color_exec(1, 25));
    assert_eq!(v, mandelbrot_pixels(&p).unwrap());
}

#[test]
fn picture_cache_is_kept_while_settings_are_unchanged() {
    let mut m = Mandelbrot::new();
    m.set_params(EscapeParams { zoom: FIX_ONE, resolution: 100, max_iterations: 25, threshold: 4 });
    assert!(m.refresh());
    assert_eq!(m.shapes().len(), 10000);
    let first = m.shapes().as_ptr();
    assert!(!m.refresh());
    assert_eq!(first, m.shapes().as_ptr());
    m.set_params(EscapeParams { max_iterations: 30, ..m.params() });
    assert!(m.needs_recompute());
    assert!(m.refresh());
}

#[test]
fn large_resolution_is_clamped() {
    let p = EscapeParams { zoom: 0, resolution: 2000, max_iterations: 1, threshold: 1000 };
    let v = mandelbrot_pixels(&p).unwrap();
    assert_eq!(v.len(), 750 * 750);
    assert_eq!((v[750 * 750 - 1].x, v[750 * 750 - 1].y), (749, 749));
}

#[test]
fn counts_past_the_cap_are_black() {
    assert_eq!(escape_color_exec(300, 80), BLACK);
    assert_eq!(escape_color_exec(79, 80).r, 255);
}

#[test]
fn any_point_and_threshold_are_accepted() {
    assert_eq!(escape_iterations(i64::MIN, i64::MIN, 80, u32::MAX), 1);
    assert_eq!(escape_iterations(i64::MAX, 0, 80, 4), 1);
    assert_eq!(escape_iterations(0, 0, 80, u32::MAX), 80);
    // With threshold 0 every point escapes at count 1.
    assert_eq!(escape_iterations(0, 0, 80, 0), 1);
    // c = 1 with threshold 100: z runs 1, 2, 5, 26; |26|^2 >= 100 at count 4.
    assert_eq!(escape_iterations(FIX_ONE, 0, 80, 100), 4);
}

#[test]
fn zero_resolution_is_a_configuration_error() {
    let p = EscapeParams { zoom: FIX_ONE, resolution: 0, max_iterations: 80, threshold: 4 };
    assert_eq!(mandelbrot_pixels(&p), Err(EscapeError::ZeroResolution));
    let one = EscapeParams { resolution: 1, ..p };
    assert_eq!(mandelbrot_pixels(&one).unwrap().len(), 100 * 100);
}

#[test]
fn zero_resolution_clears_the_cache_and_records_the_error() {
    let mut m = Mandelbrot::default();
    m.set_params(EscapeParams { zoom: FIX_ONE, resolution: 100, max_iterations: 25, threshold: 4 });
    assert!(m.refresh());
    assert_eq!(m.error(), None);
    m.set_params(EscapeParams { resolution: 0, ..m.params() });
    assert!(m.refresh());
    assert!(m.shapes().is_empty());
    assert_eq!(m.error(), Some(EscapeError::ZeroResolution));
    assert!(!m.refresh());
}

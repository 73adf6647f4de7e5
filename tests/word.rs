use fractals::color::Rgb;
use fractals::fibonacci_word::{fibonacci_segments, fibonacci_word, word_path, FibonacciWord, Segment};

fn word_string(n: u32) -> String {
    fibonacci_word(n).into_iter().collect()
}

#[test]
fn word_lengths_follow_fibonacci() {
    let fib = [0usize, 1, 1, 2, 3, 5, 8, 13, 21, 34, 55, 89];
    for n in 2u32..=10 {
        assert_eq!(fibonacci_word(n).len(), fib[n as usize + 1]);
        assert_eq!(fibonacci_segments(n).len(), fib[n as usize + 1]);
    }
}

#[test]
fn short_lengths_give_the_seed() {
    assert_eq!(word_string(0), "01");
    assert_eq!(word_string(1), "01");
    assert_eq!(word_string(2), "01");
    assert_eq!(fibonacci_segments(0).len(), 2);
}

#[test]
fn words_by_substitution() {
    assert_eq!(word_string(3), "010");
    assert_eq!(word_string(4), "01001");
    assert_eq!(word_string(5), "01001010");
}

#[test]
fn path_turns_on_zero_by_parity() {
    let g = Rgb { r: 0, g: 255, b: 0 };
    let seg = |x0, y0, x1, y1| Segment { x0, y0, x1, y1, color: g };
    // "01001": i=0 '0' even swaps (0,1)->(1,0); i=2 '0' even swaps back to (0,1);
    // i=3 '0' odd swaps and negates to (-1,0).
    let path = fibonacci_segments(4);
    assert_eq!(
        path,
        vec![seg(0, 0, 0, 1), seg(0, 1, 1, 1), seg(1, 1, 2, 1), seg(2, 1, 2, 2), seg(2, 2, 1, 2)]
    );
}

#[test]
fn ones_keep_the_direction() {
    let path = word_path(&vec!['1', '1', '1']);
    assert_eq!(path.last().map(|s| (s.x1, s.y1)), Some((0, 3)));
}

#[test]
fn word_cache_is_kept_while_n_is_unchanged() {
    let mut w = FibonacciWord::new();
    assert!(w.refresh());
    assert_eq!(w.shapes().len(), 2);
    let first = w.shapes().as_ptr();
    assert!(!w.refresh());
    assert_eq!(first, w.shapes().as_ptr());
    w.set_n(6);
    assert!(w.refresh());
    assert_eq!(w.shapes().len(), 13);
    assert_eq!(w.n(), 6);
}

#[test]
fn empty_word_has_an_empty_path() {
    assert!(word_path(&Vec::new()).is_empty());
}

#[test]
fn longer_words_keep_the_fibonacci_length() {
    let w = fibonacci_word(25);
    assert_eq!(w.len(), 121393);
    assert_eq!(fibonacci_segments(25).len(), 121393);
}

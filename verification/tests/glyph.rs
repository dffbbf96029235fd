use armtemp::glyph::{glyph_degree_mark, glyph_digit_width, glyph_keeps_shrinking, glyph_start_height};

#[test]
fn digit_width_reserves_a_strip_for_the_degree_mark() {
    assert_eq!(glyph_digit_width(64, false), 64);
    assert_eq!(glyph_digit_width(64, true), 50);
    assert_eq!(glyph_digit_width(80, true), 63);
    assert_eq!(glyph_digit_width(0, true), 0);
}

#[test]
fn start_height_is_nine_tenths_with_a_floor() {
    assert_eq!(glyph_start_height(64, 24), 57);
    assert_eq!(glyph_start_height(20, 24), 24);
}

#[test]
fn shrinking_stops_when_the_text_fits_or_at_the_floor() {
    assert!(glyph_keeps_shrinking(64, 64, 40, 24));
    assert!(!glyph_keeps_shrinking(63, 64, 40, 24));
    assert!(!glyph_keeps_shrinking(90, 64, 24, 24));
}

#[test]
fn degree_mark_sits_top_aligned_in_the_reserved_strip() {
    let m = glyph_degree_mark(64, 46, 50, 16);
    assert_eq!((m.px_h, m.left, m.top, m.right, m.bottom), (23, 50, 9, 64, 32));
    let small = glyph_degree_mark(64, 20, 50, 16);
    assert_eq!((small.px_h, small.top, small.bottom), (16, 22, 38));
    let tall = glyph_degree_mark(20, 25, 15, 16);
    assert_eq!(tall.top, -2);
}

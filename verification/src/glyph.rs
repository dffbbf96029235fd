//! Layout of the temperature digits inside the tray icon: the width left to
//! the digits, the font height the shrink-to-fit search starts from and when
//! it stops, and the box of the small superscript degree mark.
use vstd::prelude::*;

verus! {

/// The width the digits may use: the whole icon, or, when a degree mark is
/// drawn, the icon less a strip of 22% of its width on the right.
pub open spec fn digit_width(size: u32, degree: bool) -> int {
    if degree {
        size - size * 22 / 100
    } else {
        size as int
    }
}

/// `digit_width` in exec code.
pub fn glyph_digit_width(size: u32, degree: bool) -> (w: u32)
    ensures
        w == digit_width(size, degree),
{
    if degree {
        let reserve: u64 = (size as u64) * 22 / 100;
        assert(reserve <= size) by (nonlinear_arith)
            requires
                reserve == size * 22 / 100,
        ;
        size - (reserve as u32)
    } else {
        size
    }
}

/// The font height the shrink-to-fit search starts from: nine tenths of the
/// icon, but never below `min_px_h`.
pub open spec fn start_height(size: u32, min_px_h: i32) -> int {
    let h = size * 9 / 10;
    if h >= min_px_h {
        h
    } else {
        min_px_h as int
    }
}

/// `start_height` in exec code.
pub fn glyph_start_height(size: u32, min_px_h: i32) -> (h: i32)
    requires
        size <= 0x1000_0000,
    ensures
        h == start_height(size, min_px_h),
{
    let h: u32 = size * 9 / 10;
    let hi: i32 = h as i32;
    if hi >= min_px_h {
        hi
    } else {
        min_px_h
    }
}

/// Whether the search shrinks the font once more: the text of width
/// `extent` does not fit the digits' width yet and the height is still
/// above the floor.
pub open spec fn keeps_shrinking(extent: i32, width: u32, px_h: i32, min_px_h: i32) -> bool {
    !(extent < width || px_h <= min_px_h)
}

/// `keeps_shrinking` in exec code.
pub fn glyph_keeps_shrinking(extent: i32, width: u32, px_h: i32, min_px_h: i32) -> (r: bool)
    ensures
        r == keeps_shrinking(extent, width, px_h, min_px_h),
{
    !((extent as i64) < (width as i64) || px_h <= min_px_h)
}

/// The degree mark's font height and box, in the icon's pixels.
pub struct DegreeMark {
    pub px_h: i32,
    pub left: i32,
    pub top: i32,
    pub right: i32,
    pub bottom: i32,
}

/// The degree mark for digits of height `px_h` in a `size` icon: half the
/// digit height (at least `min_mark_h`), in the reserved strip from `width`
/// to the right edge, top-aligned with the vertically centered digits.
pub open spec fn degree_mark(size: u32, px_h: i32, width: u32, min_mark_h: i32) -> (int, int, int, int, int) {
    let h = if px_h / 2 >= min_mark_h { px_h / 2 } else { min_mark_h as int };
    let top = half_toward_zero(size - px_h);
    (h, width as int, top, size as int, top + h)
}

/// `x / 2` rounded toward zero, as integer division does.
pub open spec fn half_toward_zero(x: int) -> int {
    if x >= 0 {
        x / 2
    } else {
        -((-x) / 2)
    }
}

/// `degree_mark` in exec code.
pub fn glyph_degree_mark(size: u32, px_h: i32, width: u32, min_mark_h: i32) -> (m: DegreeMark)
    requires
        0 <= px_h <= 0x4000_0000,
        width <= size,
        size <= 0x4000_0000,
        0 <= min_mark_h <= 0x4000_0000,
    ensures
        (m.px_h as int, m.left as int, m.top as int, m.right as int, m.bottom as int) == degree_mark(
            size,
            px_h,
            width,
            min_mark_h,
        ),
{
    let half: i32 = ((px_h as u32) / 2) as i32;
    let h: i32 = if half >= min_mark_h { half } else { min_mark_h };
    let p: u32 = px_h as u32;
    let top: i32 = if size >= p {
        ((size - p) / 2) as i32
    } else {
        -(((p - size) / 2) as i32)
    };
    DegreeMark { px_h: h, left: width as i32, top, right: size as i32, bottom: top + h }
}

} // verus!

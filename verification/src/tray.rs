//! Tray icon decisions: which reading the icon shows, its color, and the
//! geometry of the background plate drawn under the digits.
use vstd::prelude::*;

verus! {

/// Tray icon styles.
#[derive(Clone, Copy, Debug, PartialEq, Eq, Structural)]
pub enum TrayStyle {
    Rounded,
    Badge,
    Plain,
}

/// Tray icon data modes.
#[derive(Clone, Copy, Debug, PartialEq, Eq, Structural)]
pub enum TrayMode {
    All,
    Highest,
    Average,
    Package,
}

/// Which reading feeds the icon this tick, and its color.
pub struct TrayDecision {
    /// °C rounded, the number drawn on the icon.
    pub primary_value: Option<i32>,
    pub color_rgb: (u8, u8, u8),
}

/// Neutral gray used when there is no reading.
pub open spec fn gray() -> (u8, u8, u8) {
    (140u8, 140u8, 140u8)
}

/// The neutral gray drawn when there is no reading.
pub fn no_reading_gray() -> (r: (u8, u8, u8))
    ensures
        r == gray(),
{
    (140, 140, 140)
}

/// The reading a mode shows: the average for `Average`, the package
/// (hottest valid zone) for every other mode.
pub open spec fn shown_reading(
    package: Option<(i32, (u8, u8, u8))>,
    average: Option<(i32, (u8, u8, u8))>,
    mode: TrayMode,
) -> Option<(i32, (u8, u8, u8))> {
    match mode {
        TrayMode::Average => average,
        _ => package,
    }
}

/// Choose the value for the tray icon given the mode. Each reading is its
/// rounded °C value with its temperature color; a missing reading draws in
/// neutral gray.
pub fn decide(
    package: Option<(i32, (u8, u8, u8))>,
    average: Option<(i32, (u8, u8, u8))>,
    mode: TrayMode,
) -> (r: TrayDecision)
    ensures
        r.primary_value == match shown_reading(package, average, mode) {
            Some(v) => Some(v.0),
            None => None,
        },
        r.color_rgb == match shown_reading(package, average, mode) {
            Some(v) => v.1,
            None => gray(),
        },
{
    let shown = match mode {
        TrayMode::Average => average,
        _ => package,
    };
    match shown {
        Some((v, c)) => TrayDecision { primary_value: Some(v), color_rgb: c },
        None => TrayDecision { primary_value: None, color_rgb: no_reading_gray() },
    }
}

/// Whether pixel `(x, y)`'s center lies in the circle of `radius` centered
/// on a `size`-pixel square (all coordinates doubled to stay whole).
pub open spec fn in_circle(x: u32, y: u32, size: u32, radius: u32) -> bool {
    let dx = 2 * x + 1 - size;
    let dy = 2 * y + 1 - size;
    dx * dx + dy * dy <= 4 * radius * radius
}

/// Whether pixel `(x, y)` lies in a `size`-pixel square whose four corners
/// are cut by quarter circles inset `radius` pixels from each corner.
pub open spec fn in_rounded_square(x: u32, y: u32, size: u32, radius: u32) -> bool {
    let rad = radius as int;
    let s = size as int;
    let near_left = x < rad;
    let near_right = x >= s - rad;
    let near_top = y < rad;
    let near_bottom = y >= s - rad;
    if (near_left || near_right) && (near_top || near_bottom) {
        let ccx = if near_left { rad } else { s - 1 - rad };
        let ccy = if near_top { rad } else { s - 1 - rad };
        (x - ccx) * (x - ccx) + (y - ccy) * (y - ccy) <= rad * rad
    } else {
        true
    }
}

/// Whether `(x, y)` is on the plate: a circle when `2 * radius >= size`
/// (Badge), a rounded square otherwise (Rounded).
pub open spec fn on_plate(x: u32, y: u32, size: u32, radius: u32) -> bool {
    if radius * 2 >= size {
        in_circle(x, y, size, radius)
    } else {
        in_rounded_square(x, y, size, radius)
    }
}

/// Background-plate pixel for the Rounded/Badge tray styles: solid `color`
/// at `alpha` on the plate, `None` (transparent) outside it.
pub fn plate_pixel(x: u32, y: u32, size: u32, color: (u8, u8, u8), alpha: u8, radius: u32) -> (r: Option<[u8; 4]>)
    requires
        radius * 2 <= u32::MAX,
    ensures
        r == if on_plate(x, y, size, radius) {
            Some([color.0, color.1, color.2, alpha])
        } else {
            None
        },
{
    let (r, g, b) = color;
    let inside = if radius * 2 >= size {
        let dx: i128 = 2 * (x as i128) + 1 - (size as i128);
        let dy: i128 = 2 * (y as i128) + 1 - (size as i128);
        let rr: i128 = radius as i128;
        assert(0 <= dx * dx <= 0x4_0000_0000_0000_0000 && 0 <= dy * dy <= 0x4_0000_0000_0000_0000 && 0 <= 4 * rr * rr <= 0x4_0000_0000_0000_0000) by (nonlinear_arith)
            requires
                -0x2_0000_0000 <= dx <= 0x2_0000_0000,
                -0x2_0000_0000 <= dy <= 0x2_0000_0000,
                0 <= rr <= 0x1_0000_0000;
        dx * dx + dy * dy <= 4 * rr * rr
    } else {
        let rad: i128 = radius as i128;
        let s: i128 = size as i128;
        let px: i128 = x as i128;
        let py: i128 = y as i128;
        let near_left = px < rad;
        let near_right = px >= s - rad;
        let near_top = py < rad;
        let near_bottom = py >= s - rad;
        if (near_left || near_right) && (near_top || near_bottom) {
            let ccx = if near_left { rad } else { s - 1 - rad };
            let ccy = if near_top { rad } else { s - 1 - rad };
            let dx = px - ccx;
            let dy = py - ccy;
            assert(0 <= dx * dx <= 0x1_0000_0000_0000_0000 && 0 <= dy * dy <= 0x1_0000_0000_0000_0000 && 0 <= rad * rad <= 0x1_0000_0000_0000_0000) by (nonlinear_arith)
                requires
                    -0x1_0000_0000 <= dx <= 0x1_0000_0000,
                    -0x1_0000_0000 <= dy <= 0x1_0000_0000,
                    0 <= rad <= 0x1_0000_0000;
            dx * dx + dy * dy <= rad * rad
        } else {
            true
        }
    };
    if inside {
        Some([r, g, b, alpha])
    } else {
        None
    }
}

/// The plate pixel under the digits for an optional `(color, style)` plate:
/// Rounded draws the color at a third of its intensity, alpha 190, with
/// 6-pixel corners; Badge draws the full color, alpha 235, as a circle;
/// Plain draws none.
pub open spec fn plate_under(x: u32, y: u32, size: u32, plate: Option<((u8, u8, u8), TrayStyle)>) -> Option<
    [u8; 4],
> {
    match plate {
        Some((c, TrayStyle::Rounded)) => if on_plate(x, y, size, 6) {
            Some([(c.0 / 3) as u8, (c.1 / 3) as u8, (c.2 / 3) as u8, 190u8])
        } else {
            None
        },
        Some((c, TrayStyle::Badge)) => if on_plate(x, y, size, size / 2) {
            Some([c.0, c.1, c.2, 235u8])
        } else {
            None
        },
        _ => None,
    }
}

/// `plate_under` in exec code, as the icon renderer uses it per pixel.
pub fn plate_pixel_for(x: u32, y: u32, size: u32, plate: Option<((u8, u8, u8), TrayStyle)>) -> (r: Option<[u8; 4]>)
    ensures
        r == plate_under(x, y, size, plate),
{
    match plate {
        Some(((r, g, b), TrayStyle::Rounded)) => plate_pixel(x, y, size, (r / 3, g / 3, b / 3), 190, 6),
        Some(((r, g, b), TrayStyle::Badge)) => plate_pixel(x, y, size, (r, g, b), 235, size / 2),
        _ => None,
    }
}

/// The Badge circle is symmetric under mirroring across both axes of
/// the icon.
pub proof fn lemma_circle_mirror(x: u32, y: u32, size: u32, radius: u32)
    requires
        x < size,
        y < size,
    ensures
        in_circle(x, y, size, radius) == in_circle((size - 1 - x) as u32, y, size, radius),
        in_circle(x, y, size, radius) == in_circle(x, (size - 1 - y) as u32, size, radius),
{
    let dx = 2 * x + 1 - size;
    let mx = 2 * (size - 1 - x) + 1 - size;
    assert(mx == -dx);
    assert(mx * mx == dx * dx) by (nonlinear_arith) requires mx == -dx;
    let dy = 2 * y + 1 - size;
    let my = 2 * (size - 1 - y) + 1 - size;
    assert(my == -dy);
    assert(my * my == dy * dy) by (nonlinear_arith) requires my == -dy;
}

/// The Rounded plate covers every pixel away from the four corner
/// boxes (edges and center are always filled).
pub proof fn lemma_rounded_fills_edges(x: u32, y: u32, size: u32, radius: u32)
    requires
        radius <= x < size - radius || radius <= y < size - radius,
        radius * 2 < size,
    ensures
        on_plate(x, y, size, radius),
{
}

/// The Average mode shows the average reading; every other mode shows the
/// package (hottest valid zone) reading.
pub proof fn lemma_shown_reading_by_mode(
    package: Option<(i32, (u8, u8, u8))>,
    average: Option<(i32, (u8, u8, u8))>,
)
    ensures
        shown_reading(package, average, TrayMode::Average) == average,
        shown_reading(package, average, TrayMode::Package) == package,
        shown_reading(package, average, TrayMode::Highest) == package,
        shown_reading(package, average, TrayMode::All) == package,
{
}

} // verus!

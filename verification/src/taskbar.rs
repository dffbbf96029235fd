//! Colors of the tray icon and taskbar overlay, adapted to the Windows
//! taskbar theme.
use vstd::prelude::*;

use crate::tray::TrayStyle;

verus! {

/// Theme-adaptive monochrome for the Plain tray icon: white text on a dark
/// taskbar, near-black on a light one.
pub open spec fn mono(light_taskbar: bool) -> (u8, u8, u8) {
    if light_taskbar {
        (25u8, 25u8, 25u8)
    } else {
        (255u8, 255u8, 255u8)
    }
}

/// `mono` in exec code.
pub fn mono_color(light_taskbar: bool) -> (r: (u8, u8, u8))
    ensures
        r == mono(light_taskbar),
{
    if light_taskbar {
        (25, 25, 25)
    } else {
        (255, 255, 255)
    }
}

/// One channel darkened to 72%, rounded down.
pub open spec fn darken(c: u8) -> u8 {
    (c * 72 / 100) as u8
}

/// A temperature color darkened ~28% on a light taskbar so yellow/green
/// stay legible; unchanged on a dark taskbar.
pub open spec fn adapted(rgb: (u8, u8, u8), light_taskbar: bool) -> (u8, u8, u8) {
    if light_taskbar {
        (darken(rgb.0), darken(rgb.1), darken(rgb.2))
    } else {
        rgb
    }
}

fn darken_exec(c: u8) -> (r: u8)
    ensures
        r == darken(c),
{
    ((c as u32) * 72 / 100) as u8
}

/// Darken a temperature color on a light taskbar.
pub fn adapt_for_taskbar(rgb: (u8, u8, u8), light_taskbar: bool) -> (r: (u8, u8, u8))
    ensures
        r == adapted(rgb, light_taskbar),
{
    if light_taskbar {
        let (r, g, b) = rgb;
        (darken_exec(r), darken_exec(g), darken_exec(b))
    } else {
        rgb
    }
}

/// The tray icon's digit color and optional plate for a style: Plain draws
/// bare theme-colored digits; Rounded/Badge draw white digits on a plate of
/// the (taskbar-adapted) temperature color.
pub open spec fn tray_look(style: TrayStyle, light_taskbar: bool, temp_rgb: (u8, u8, u8)) -> (
    (u8, u8, u8),
    Option<((u8, u8, u8), TrayStyle)>,
) {
    match style {
        TrayStyle::Plain => (mono(light_taskbar), None),
        _ => ((255u8, 255u8, 255u8), Some((adapted(temp_rgb, light_taskbar), style))),
    }
}

/// `tray_look` in exec code.
pub fn tray_icon_look(style: TrayStyle, light_taskbar: bool, temp_rgb: (u8, u8, u8)) -> (r: (
    (u8, u8, u8),
    Option<((u8, u8, u8), TrayStyle)>,
))
    ensures
        r == tray_look(style, light_taskbar, temp_rgb),
{
    match style {
        TrayStyle::Plain => (mono_color(light_taskbar), None),
        _ => ((255, 255, 255), Some((adapt_for_taskbar(temp_rgb, light_taskbar), style))),
    }
}

/// Windows accent blue.
pub open spec fn accent() -> (u8, u8, u8) {
    (0u8, 120u8, 212u8)
}

/// The taskbar overlay badge's color: the accent blue when the user chose
/// it, else the temperature color, else neutral gray with no reading.
pub fn overlay_color(use_accent: bool, temp_rgb: Option<(u8, u8, u8)>) -> (r: (u8, u8, u8))
    ensures
        r == if use_accent {
            accent()
        } else {
            match temp_rgb {
                Some(c) => c,
                None => crate::tray::gray(),
            }
        },
{
    if use_accent {
        (0, 120, 212)
    } else {
        match temp_rgb {
            Some(c) => c,
            None => crate::tray::no_reading_gray(),
        }
    }
}

/// Darkening never brightens a channel, and leaves black black.
pub proof fn lemma_darken_never_brightens(c: u8)
    ensures
        darken(c) <= c,
        c == 0 ==> darken(c) == 0,
{
}

/// The Plain tray icon draws bare digits, near-black on a light taskbar
/// and white on a dark one; the Rounded and Badge icons draw white digits
/// on a plate of the temperature color, darkened to 72% on a light taskbar,
/// in their own style.
pub proof fn lemma_tray_look_by_style(style: TrayStyle, light: bool, c: (u8, u8, u8))
    ensures
        style == TrayStyle::Plain ==> tray_look(style, light, c) == (
            if light { (25u8, 25u8, 25u8) } else { (255u8, 255u8, 255u8) },
            None::<((u8, u8, u8), TrayStyle)>,
        ),
        style != TrayStyle::Plain ==> tray_look(style, light, c).0 == (255u8, 255u8, 255u8),
        style != TrayStyle::Plain && !light ==> tray_look(style, light, c).1 == Some((c, style)),
        style != TrayStyle::Plain && light ==> tray_look(style, light, c).1 == Some((
            (((c.0 * 72) / 100) as u8, ((c.1 * 72) / 100) as u8, ((c.2 * 72) / 100) as u8),
            style,
        )),
        style != TrayStyle::Plain && light ==> c.0 * 72 / 100 <= 255 && c.1 * 72 / 100 <= 255 && c.2 * 72 / 100
            <= 255,
{
    if light {
        assert(c.0 * 72 / 100 <= 255) by (nonlinear_arith);
        assert(c.1 * 72 / 100 <= 255) by (nonlinear_arith);
        assert(c.2 * 72 / 100 <= 255) by (nonlinear_arith);
    }
}

} // verus!

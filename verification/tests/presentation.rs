use armtemp::chips::{chip_by_id, MatchBasis};
use armtemp::render::downsample_box;
use armtemp::settings::{
    default_c, default_overheat_action, default_polling_ms, default_theme, default_tray_style,
    default_true, overheat_action_from, overheat_step, polling_interval_ms, tray_style_from,
    unit_is_f, OverheatAction, OverheatReading,
};
use armtemp::summary::{chip_summary, u32_to_string};
use armtemp::taskbar::{adapt_for_taskbar, mono_color, overlay_color, tray_icon_look};
use armtemp::tray::{decide, plate_pixel, plate_pixel_for, TrayMode, TrayStyle};

#[test]
fn summary_of_a_table_profile() {
    let p = chip_by_id("X1P64");
    let s = chip_summary(&p, MatchBasis::SkuToken, 10);
    assert_eq!(s.chip_name, "Snapdragon X Plus");
    assert_eq!(s.chip_model, "X1P-64-100");
    assert_eq!(s.core_thread, "10 / 10");
    assert_eq!(s.platform, "ARM64 \u{b7} Oryon");
    assert_eq!(s.lithography, "4 nm");
    assert_eq!(s.tdp_w, Some(28));
    assert_eq!(s.tjmax_c, 100);
    assert_eq!(s.base_clock_mhz, Some(3400));
    assert_eq!(s.max_clock_mhz, Some(3400));
    assert_eq!(s.bus_speed_mhz, Some(100));
    assert_eq!(s.detection_basis, "exact SKU token in CPU name");
}

#[test]
fn summary_shows_the_larger_core_count_and_hides_unpublished_specs() {
    let p = chip_by_id("BCM2711");
    let s = chip_summary(&p, MatchBasis::Generic, 6);
    assert_eq!(s.core_thread, "6 / 6");
    assert_eq!(s.tdp_w, None);
    assert_eq!(s.base_clock_mhz, None);
    assert_eq!(s.lithography, "");
    let mut q = chip_by_id("SQ1");
    q.uarch = String::new();
    assert_eq!(chip_summary(&q, MatchBasis::Generic, 2).platform, "ARM64");
    assert_eq!(chip_summary(&q, MatchBasis::Generic, 2).core_thread, "8 / 2");
}

#[test]
fn decimal_strings() {
    for n in [0u32, 7, 10, 99, 1500, 4294967295] {
        assert_eq!(u32_to_string(n), n.to_string());
    }
}

#[test]
fn decide_shows_average_only_in_average_mode() {
    let pkg = Some((80, (224, 71, 58)));
    let avg = Some((60, (216, 165, 26)));
    let d = decide(pkg, avg, TrayMode::Average);
    assert_eq!(d.primary_value, Some(60));
    assert_eq!(d.color_rgb, (216, 165, 26));
    for mode in [TrayMode::All, TrayMode::Highest, TrayMode::Package] {
        let d = decide(pkg, avg, mode);
        assert_eq!(d.primary_value, Some(80));
        assert_eq!(d.color_rgb, (224, 71, 58));
    }
    let none = decide(None, avg, TrayMode::Package);
    assert_eq!(none.primary_value, None);
    assert_eq!(none.color_rgb, (140, 140, 140));
}

fn float_inside(x: u32, y: u32, size: u32, radius: u32) -> bool {
    if radius * 2 >= size {
        let c = size as f64 / 2.0;
        let dx = x as f64 + 0.5 - c;
        let dy = y as f64 + 0.5 - c;
        dx * dx + dy * dy <= (radius as f64) * (radius as f64)
    } else {
        let rad = radius as i64;
        let s = size as i64;
        let px = x as i64;
        let py = y as i64;
        let near_left = px < rad;
        let near_right = px >= s - rad;
        let near_top = py < rad;
        let near_bottom = py >= s - rad;
        if (near_left || near_right) && (near_top || near_bottom) {
            let ccx = if near_left { rad } else { s - 1 - rad };
            let ccy = if near_top { rad } else { s - 1 - rad };
            let dx = px - ccx;
            let dy = py - ccy;
            dx * dx + dy * dy <= rad * rad
        } else {
            true
        }
    }
}

#[test]
fn plate_matches_the_geometry_for_icon_sizes() {
    for size in [16u32, 20, 24, 64, 80, 96] {
        for radius in [6u32, size / 2] {
            for y in 0..size {
                for x in 0..size {
                    let want = if float_inside(x, y, size, radius) { Some([1, 2, 3, 4]) } else { None };
                    assert_eq!(plate_pixel(x, y, size, (1, 2, 3), 4, radius), want, "{size} {radius} {x} {y}");
                }
            }
        }
    }
}

#[test]
fn plate_styles() {
    assert_eq!(plate_pixel_for(8, 8, 16, Some(((90, 60, 30), TrayStyle::Rounded))), Some([30, 20, 10, 190]));
    assert_eq!(plate_pixel_for(8, 8, 16, Some(((90, 60, 30), TrayStyle::Badge))), Some([90, 60, 30, 235]));
    assert_eq!(plate_pixel_for(0, 0, 16, Some(((90, 60, 30), TrayStyle::Badge))), None);
    assert_eq!(plate_pixel_for(8, 8, 16, Some(((90, 60, 30), TrayStyle::Plain))), None);
    assert_eq!(plate_pixel_for(8, 8, 16, None), None);
}

#[test]
fn downsample_averages_blocks() {
    // 4x4 source, factor 2.
    let src: Vec<u8> = vec![
        0, 4, 10, 10, //
        8, 4, 10, 11, //
        255, 255, 0, 0, //
        255, 255, 0, 3,
    ];
    assert_eq!(downsample_box(&src, 4, 2), vec![4, 10, 255, 0]);
    let uniform = vec![77u8; 64];
    assert_eq!(downsample_box(&uniform, 8, 2), vec![77; 4]);
    assert_eq!(downsample_box(&src, 4, 4), src);
}

#[test]
fn downsample_with_a_remainder_reads_only_whole_blocks() {
    // 5x5 source to 2x2: factor 2, the last row and column are never read.
    let src: Vec<u8> = (0..25).map(|i| i as u8).collect();
    assert_eq!(downsample_box(&src, 5, 2), vec![3, 5, 13, 15]);
}

#[test]
fn settings_defaults() {
    assert_eq!(default_theme(), "dark");
    assert_eq!(default_c(), "c");
    assert_eq!(default_tray_style(), "plain");
    assert_eq!(default_overheat_action(), "notify");
    assert!(default_true());
    assert_eq!(default_polling_ms(), 1500);
}

#[test]
fn settings_strings() {
    assert_eq!(tray_style_from("badge"), TrayStyle::Badge);
    assert_eq!(tray_style_from("plain"), TrayStyle::Plain);
    assert_eq!(tray_style_from("rounded"), TrayStyle::Rounded);
    assert_eq!(tray_style_from("Badge"), TrayStyle::Rounded);
    assert!(unit_is_f("f"));
    assert!(unit_is_f("F"));
    assert!(!unit_is_f("c"));
    assert!(!unit_is_f("ff"));
    assert_eq!(overheat_action_from("sleep"), OverheatAction::Sleep);
    assert_eq!(overheat_action_from("shutdown"), OverheatAction::Shutdown);
    assert_eq!(overheat_action_from("notify"), OverheatAction::Notify);
    assert_eq!(overheat_action_from("anything"), OverheatAction::Notify);
}

#[test]
fn polling_interval_is_clamped() {
    assert_eq!(polling_interval_ms(0), 500);
    assert_eq!(polling_interval_ms(1500), 1500);
    assert_eq!(polling_interval_ms(60_000), 10_000);
}

fn reading(t: f64, threshold: f64) -> Option<OverheatReading> {
    Some(OverheatReading { at_or_above_threshold: t >= threshold, at_or_below_rearm: t <= threshold - 5.0 })
}

#[test]
fn overheat_fires_once_per_excursion() {
    let thr = 95.0;
    let mut armed = true;
    let mut fired = Vec::new();
    for t in [90.0, 96.0, 97.0, 93.0, 91.0, 96.0, 89.0, 95.0] {
        let s = overheat_step(true, armed, reading(t, thr));
        armed = s.armed;
        fired.push(s.fire);
    }
    assert_eq!(fired, vec![false, true, false, false, false, false, false, true]);
    let off = overheat_step(false, true, reading(99.0, thr));
    assert!(!off.fire && off.armed);
    let none = overheat_step(true, false, None);
    assert!(!none.fire && !none.armed);
}

#[test]
fn taskbar_darkening_matches_the_float_scale() {
    for c in 0..=255u8 {
        let want = (c as f32 * 0.72) as u8;
        assert_eq!(adapt_for_taskbar((c, c, c), true), (want, want, want));
    }
    assert_eq!(adapt_for_taskbar((47, 164, 90), false), (47, 164, 90));
}

#[test]
fn taskbar_colors() {
    assert_eq!(mono_color(true), (25, 25, 25));
    assert_eq!(mono_color(false), (255, 255, 255));
    assert_eq!(overlay_color(true, Some((1, 2, 3))), (0, 120, 212));
    assert_eq!(overlay_color(false, Some((1, 2, 3))), (1, 2, 3));
    assert_eq!(overlay_color(false, None), (140, 140, 140));
    assert_eq!(tray_icon_look(TrayStyle::Plain, false, (224, 71, 58)), ((255, 255, 255), None));
    assert_eq!(
        tray_icon_look(TrayStyle::Badge, true, (100, 200, 50)),
        ((255, 255, 255), Some(((72, 144, 36), TrayStyle::Badge)))
    );
}

#[test]
fn overheat_run_refires_only_after_a_cool_reading() {
    let thr = 80.0;
    let mut armed = true;
    let mut fired = Vec::new();
    let temps = [Some(81.0), Some(85.0), None, Some(76.0), Some(90.0), Some(74.0), Some(82.0), Some(83.0)];
    for t in temps {
        let s = overheat_step(true, armed, t.and_then(|v| reading(v, thr)));
        armed = s.armed;
        fired.push(s.fire);
    }
    assert_eq!(fired, vec![true, false, false, false, false, false, true, false]);
}

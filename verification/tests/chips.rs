use armtemp::chips::{chip_by_id, match_profile, CoreNaming, MatchBasis};
use armtemp::identity::CpuIdentity;
use armtemp::types::CoreKind;

fn identity(name: &str, cores: u32, perf: Option<u32>, eff: Option<u32>, max_mhz: Option<u32>) -> CpuIdentity {
    CpuIdentity {
        name: Some(name.to_string()),
        identifier: None,
        vendor: Some("Qualcomm Technologies Inc".to_string()),
        per_core_mhz: max_mhz.map(|m| vec![m]).unwrap_or_default(),
        logical_cores: cores,
        perf_cores: perf,
        eff_cores: eff,
    }
}

fn identity_with_vendor(name: &str, vendor: &str, cores: u32) -> CpuIdentity {
    CpuIdentity {
        name: Some(name.to_string()),
        identifier: None,
        vendor: Some(vendor.to_string()),
        per_core_mhz: vec![],
        logical_cores: cores,
        perf_cores: None,
        eff_cores: None,
    }
}

fn identity_with_per_core_mhz(name: &str, cores: u32, perf: u32, eff: u32, per_core_mhz: Vec<u32>) -> CpuIdentity {
    CpuIdentity {
        name: Some(name.to_string()),
        identifier: Some("ARMv8 (64-bit) Family 8 Model 2 Revision 201".to_string()),
        vendor: Some("Qualcomm Technologies Inc".to_string()),
        per_core_mhz,
        logical_cores: cores,
        perf_cores: Some(perf),
        eff_cores: Some(eff),
    }
}

// --- Core-tier vocabulary ---------------------------------------------

#[test]
fn tier_badge_uniform_performance_is_p_for_both_kinds() {
    let p = chip_by_id("X126");
    assert_eq!(p.tier_badge(CoreKind::Performance), ("P", "Performance core"));
    assert_eq!(p.tier_badge(CoreKind::Efficiency), ("P", "Performance core"));
}

#[test]
fn tier_badge_prime_performance_is_p_and_p2() {
    let p = chip_by_id("X2E78");
    assert_eq!(p.tier_badge(CoreKind::Performance), ("P", "Prime core"));
    assert_eq!(p.tier_badge(CoreKind::Efficiency), ("P2", "Performance core"));
}

#[test]
fn tier_badge_performance_efficiency_is_p_and_e() {
    let p = chip_by_id("SDM850");
    assert_eq!(p.tier_badge(CoreKind::Performance), ("P", "Performance core"));
    assert_eq!(p.tier_badge(CoreKind::Efficiency), ("E", "Efficiency core"));
}

// --- Bare marketing names: inference from the rated clock -----------

#[test]
fn x2_elite_78_bare_marketing_name_infers_via_clock() {
    // Surface Laptop 8's real registry string: no SKU
    // token, just the marketing name. HWiNFO/CPU-Z read the same 4032
    // MHz rated clock via ~MHz that this app now also reads.
    let id = identity("Qualcomm Snapdragon X2 Elite", 12, Some(6), Some(6), Some(4032));
    let d = match_profile(&id);
    assert_eq!(d.profile.model, "X2E-78-100");
    assert_eq!(d.profile.name, "Snapdragon X2 Elite");
    assert_eq!(d.basis, MatchBasis::Inferred);
    assert_eq!(d.profile.total_cores(), 12);
    assert_eq!((d.profile.boost_mhz as f64 / 1000.0), 4.0);
    assert_ne!(d.profile.model, "Unknown X2 Elite SKU");
    assert_eq!(d.profile.core_naming, CoreNaming::PrimePerformance);
}

#[test]
fn x2_elite_80_or_84_ambiguous_gets_honest_combined_label() {
    let id = identity("Qualcomm Snapdragon X2 Elite", 12, Some(6), Some(6), Some(4700));
    let d = match_profile(&id);
    assert_eq!(d.profile.model, "X2E-80/84-100");
    assert_eq!(d.basis, MatchBasis::Inferred);
    assert_eq!((d.profile.boost_mhz as f64 / 1000.0), 4.7);
    assert_eq!((d.profile.base_mhz as f64 / 1000.0), 4.0);
}

// --- Boot-time cluster clocks in ~MHz mislead inference; the rated
//     clock embedded in ProcessorNameString rescues it. ----------------

#[test]
fn x2_elite_78_boot_clocks_in_mhz_infers_via_name_clock() {
    // A reported Surface Laptop 8 identity: the
    // per-core ~MHz values are boot-time cluster clocks (3072/3437), not
    // the rated boost, so max_mhz() alone misses every candidate. The
    // name's "@ 4.03 GHz" is the real rated clock and must resolve this.
    let id = identity_with_per_core_mhz(
        "Snapdragon X2 Elite @ 4.03 GHz",
        12,
        6,
        6,
        vec![3072, 3072, 3072, 3072, 3072, 3072, 3437, 3437, 3437, 3437, 3437, 3437],
    );
    let d = match_profile(&id);
    assert_eq!(d.profile.model, "X2E-78-100");
    assert_eq!(d.basis, MatchBasis::Inferred);
    assert_eq!((d.profile.boost_mhz as f64 / 1000.0), 4.0);
    assert_eq!(d.profile.clusters, &[(CoreKind::Performance, 6), (CoreKind::Efficiency, 6)]);
}

#[test]
fn x2_elite_80_84_boot_clocks_infers_via_name_clock() {
    let id = identity_with_per_core_mhz(
        "Snapdragon X2 Elite @ 4.70 GHz",
        12,
        6,
        6,
        vec![3072, 3072, 3072, 3072, 3072, 3072, 3437, 3437, 3437, 3437, 3437, 3437],
    );
    assert_eq!(match_profile(&id).profile.model, "X2E-80/84-100");
}

#[test]
fn x2_elite_90_18core_boot_clocks_infers_via_name_clock() {
    let id = identity_with_per_core_mhz("Snapdragon X2 Elite @ 5.00 GHz", 18, 12, 6, vec![3072; 18]);
    assert_eq!(match_profile(&id).profile.model, "X2E-90-100");
}

#[test]
fn no_name_clock_and_boot_clock_only_still_honestly_unknown() {
    // Regression: without the name-embedded clock, boot-time cluster
    // clocks correctly fail to infer a SKU — no change from today's
    // honest "Unknown" behavior.
    let id = identity_with_per_core_mhz(
        "Snapdragon X2 Elite",
        12,
        6,
        6,
        vec![3072, 3072, 3072, 3072, 3072, 3072, 3437, 3437, 3437, 3437, 3437, 3437],
    );
    let d = match_profile(&id);
    assert_eq!(d.profile.model, "Unknown X2 Elite SKU");
    assert_eq!(d.basis, MatchBasis::FamilyOnly);
}

#[test]
fn x1_token_match_unaffected_by_trailing_name_clock() {
    // Stage A (SKU token) must still win before any clock logic runs.
    let id = identity(
        "Snapdragon(R) X Elite - X1E-78-100 - Qualcomm(R) Oryon(TM) CPU @ 3.40 GHz",
        12,
        None,
        None,
        None,
    );
    let d = match_profile(&id);
    assert_eq!(d.profile.model, "X1E-78-100");
    assert_eq!(d.basis, MatchBasis::SkuToken);
}

#[test]
fn name_clock_miss_falls_back_to_measured_mhz() {
    // Name embeds a clock that misses every 12-core X2 Elite candidate
    // (4400 is >180 MHz from both 4000 and 4700); the measured ~MHz
    // rated boost still rescues it, proving the two-signal try-both
    // policy tries name first but doesn't give up when it misses.
    let id = identity("Snapdragon X2 Elite @ 4.40 GHz", 12, Some(6), Some(6), Some(4700));
    assert_eq!(match_profile(&id).profile.model, "X2E-80/84-100");
}

#[test]
fn x1_inference_ignores_name_clock_uses_measured_mhz_only() {
    // The X2-only constraint: X1 firmware reports the rated clock
    // accurately via ~MHz (verified on real X1P-64 hardware), so a
    // name-embedded clock must NOT be consulted for X1. Here the name
    // says "@ 4.00 GHz" (which would pick X1E-80-100 if read), but the
    // measured ~MHz is 3400 (X1E-78-100's rated clock) — the correct
    // result proves the name clock was ignored, not merely deprioritized.
    let id = identity("Snapdragon X1 Elite @ 4.00 GHz", 12, None, None, Some(3400));
    let d = match_profile(&id);
    assert_eq!(d.profile.model, "X1E-78-100");
    assert_ne!(d.profile.model, "X1E-80-100");
}

#[test]
fn token_matched_profile_still_honors_real_topology_over_static_table() {
    // A real X1P-64-100 machine:
    // the static table assumes a homogeneous 10-Performance-core cluster,
    // but the OS topology reports an asymmetric 6P/4E split (confirmed by
    // per-core ~MHz: 6 cores at 3418 MHz, 4 at 2976 MHz). The matched
    // profile's `clusters` must reflect that real split, not the stale
    // static one — otherwise a diagnostics dump's "Cores" line
    // contradicts its own OS-topology line.
    let id = identity(
        "Snapdragon(R) X 10-core X1P64100 @ 3.40 GHz",
        10,
        Some(6),
        Some(4),
        Some(3418),
    );
    let d = match_profile(&id);
    assert_eq!(d.profile.model, "X1P-64-100");
    assert_eq!(d.basis, MatchBasis::SkuToken);
    assert_eq!(d.profile.clusters, &[(CoreKind::Performance, 6), (CoreKind::Efficiency, 4)]);
    // X1 is uniform: even though topology reports a 6/4 split, the badge
    // vocabulary must still be all-"P" (no efficiency cores on X1).
    assert_eq!(d.profile.tier_badge(CoreKind::Efficiency), ("P", "Performance core"));
}

#[test]
fn x2_elite_extreme_bare_name_infers_18_core_skus() {
    let id96 = identity("Snapdragon X2 Elite Extreme", 18, Some(12), Some(6), Some(5000));
    assert_eq!(match_profile(&id96).profile.model, "X2E-96-100");
    let id94 = identity("Snapdragon X2 Elite Extreme", 18, Some(12), Some(6), Some(4700));
    assert_eq!(match_profile(&id94).profile.model, "X2E-94-100");
}

#[test]
fn x2_elite_bare_name_infers_18_core_skus() {
    let id90 = identity("Snapdragon X2 Elite", 18, Some(12), Some(6), Some(5000));
    assert_eq!(match_profile(&id90).profile.model, "X2E-90-100");
    let id88 = identity("Snapdragon X2 Elite", 18, Some(12), Some(6), Some(4700));
    assert_eq!(match_profile(&id88).profile.model, "X2E-88-100");
}

#[test]
fn name_independent_path_uses_identifier_and_vendor() {
    // Name totally unusable (empty/garbage); Identifier says Oryon V3
    // (Model 2) and vendor says Qualcomm — still infers correctly.
    let id = CpuIdentity {
        name: Some("Unknown CPU".to_string()),
        identifier: Some("ARMv8 (64-bit) Family 8 Model 2 Revision 201".to_string()),
        vendor: Some("Qualcomm Technologies Inc".to_string()),
        per_core_mhz: vec![4032],
        logical_cores: 12,
        perf_cores: Some(6),
        eff_cores: Some(6),
    };
    let d = match_profile(&id);
    assert_eq!(d.profile.model, "X2E-78-100");
}

#[test]
fn non_qualcomm_vendor_with_matching_model_number_is_not_mislabeled() {
    let id = CpuIdentity {
        name: Some("Unknown CPU".to_string()),
        identifier: Some("ARMv8 (64-bit) Family 8 Model 2 Revision 201".to_string()),
        vendor: Some("Some Other Vendor Inc".to_string()),
        per_core_mhz: vec![4032],
        logical_cores: 12,
        perf_cores: Some(6),
        eff_cores: Some(6),
    };
    let d = match_profile(&id);
    assert_eq!(d.profile.model, "Unknown");
    assert_eq!(d.basis, MatchBasis::Generic);
    assert_eq!(d.profile.name, "Some Other Vendor Inc CPU");
}

#[test]
fn unknown_future_x2_sku_gets_family_fallback_with_real_boost() {
    // A hypothetical future 24-core X2 Elite: no clock candidate fits.
    let id = identity("Snapdragon X2 Elite", 24, Some(18), Some(6), Some(5200));
    let d = match_profile(&id);
    assert_eq!(d.profile.name, "Snapdragon X2 Elite");
    assert_eq!(d.profile.model, "Unknown X2 Elite SKU");
    assert_eq!(d.basis, MatchBasis::FamilyOnly);
    assert_eq!((d.profile.boost_mhz as f64 / 1000.0), 5.2); // real measured clock, not 0.0/"—"
    assert_eq!(d.profile.total_cores(), 24);
    assert_eq!(d.profile.clusters, &[(CoreKind::Performance, 18), (CoreKind::Efficiency, 6)]);
}

// --- Token match (Stage A) regressions --------------------------------

#[test]
fn x2_elite_78_real_world_token_format_matches() {
    let id = identity(
        "Snapdragon(R) X2 Elite - X2E78100 - Qualcomm(R) Oryon(TM) CPU",
        12,
        None,
        None,
        None,
    );
    let d = match_profile(&id);
    assert_eq!(d.profile.model, "X2E-78-100");
    assert_eq!(d.basis, MatchBasis::SkuToken);
    assert_eq!(d.profile.clusters, &[(CoreKind::Performance, 6), (CoreKind::Efficiency, 6)]);
}

#[test]
fn x2_elite_88_18core_token_matches() {
    let id = identity("Snapdragon X2 Elite - X2E88100", 18, None, None, None);
    let d = match_profile(&id);
    assert_eq!(d.profile.model, "X2E-88-100");
    assert_eq!(d.profile.total_cores(), 18);
}

#[test]
fn x2_plus_64_10core_token_matches() {
    let id = identity("Snapdragon X2 Plus - X2P64100", 10, None, None, None);
    assert_eq!(match_profile(&id).profile.model, "X2P-64-100");
}

#[test]
fn x1e_token_matches_the_exact_sku_not_the_old_catch_all() {
    // A bare "x1e" token would match every X Elite SKU to X1E-80-100;
    // each SKU must resolve to its own model.
    let id78 = identity("Snapdragon(R) X Elite - X1E78100", 12, None, None, None);
    assert_eq!(match_profile(&id78).profile.model, "X1E-78-100");
    let id84 = identity("Snapdragon(R) X Elite - X1E84100", 12, None, None, None);
    assert_eq!(match_profile(&id84).profile.model, "X1E-84-100");
    let id80 = identity("Snapdragon(R) X Elite - X1E80100", 12, None, None, None);
    assert_eq!(match_profile(&id80).profile.model, "X1E-80-100");
}

#[test]
fn x1_plus_64_regression() {
    let id = identity("Snapdragon(R) X Plus - X1P64100", 10, None, None, None);
    let d = match_profile(&id);
    assert_eq!(d.profile.model, "X1P-64-100");
    assert_eq!(d.profile.name, "Snapdragon X Plus");
}

#[test]
fn x1_26_regression_guards_key_change() {
    let id = identity("Snapdragon X - X1-26-100", 8, None, None, None);
    let d = match_profile(&id);
    assert_eq!(d.profile.model, "X1-26-100");
    assert_eq!(d.profile.name, "Snapdragon X");
}

#[test]
fn non_snapdragon_falls_back_to_generic_honest_label() {
    let id = identity_with_vendor("Some Other CPU", "ACME Silicon", 8);
    let d = match_profile(&id);
    assert_eq!(d.profile.model, "Unknown");
    assert_eq!(d.profile.name, "ACME Silicon CPU");
    assert_eq!(d.profile.total_cores(), 8);
    assert_eq!(d.basis, MatchBasis::Generic);
}

#[test]
fn no_vendor_at_all_falls_back_to_bare_arm64_cpu() {
    let id = CpuIdentity {
        name: Some("Totally Unknown".to_string()),
        identifier: None,
        vendor: None,
        per_core_mhz: vec![],
        logical_cores: 4,
        perf_cores: None,
        eff_cores: None,
    };
    let d = match_profile(&id);
    assert_eq!(d.profile.name, "ARM64 CPU");
    assert_eq!(d.profile.model, "Unknown");
}

// --- Legacy Qualcomm Windows-on-ARM lineup (Stage A, verified strings) -

#[test]
fn legacy_8cx_family_ordering_resolves_the_exact_generation() {
    // Ordering hazard: "8cxgen3"/"8cxgen2" must win over bare "8cx",
    // which must win over "8c" — each a substring of the ones above it.
    let gen3 = identity_with_vendor("Snapdragon (TM) 8cx Gen 3 @ 2.69 GHz", "Qualcomm Technologies Inc", 8);
    assert_eq!(match_profile(&gen3).profile.model, "SC8280XP");
    let gen2 = identity_with_vendor("Snapdragon 8cx Gen 2 @ 3.15 GHz", "Qualcomm Technologies Inc", 8);
    assert_eq!(match_profile(&gen2).profile.model, "SC8180X+");
    let gen1 = identity_with_vendor("Snapdragon 8cx @ 2.84 GHz", "Qualcomm Technologies Inc", 8);
    assert_eq!(match_profile(&gen1).profile.model, "SC8180X");
    let plain8c = identity_with_vendor("Snapdragon 8c @ 2.45 GHz", "Qualcomm Technologies Inc", 8);
    assert_eq!(match_profile(&plain8c).profile.model, "SC8180");
}

#[test]
fn legacy_7c_family_ordering_resolves_the_exact_generation() {
    // Qualcomm's own marketing writes "7c+ Gen 3" with a literal plus
    // sign (mirrored verbatim by OEM firmware elsewhere, e.g. X2's
    // literal hyphens) — normalizes to "7cgen3", matching our token.
    // (PassMark's DB renders this chip as "7cPlus Gen 3" — its own
    // display sanitization of the "+", not necessarily the raw OS
    // string; if some firmware DOES spell out "Plus", it falls through
    // to the bare "7c" entry below rather than mismatching family.)
    let gen3 = identity_with_vendor("Snapdragon 7c+ Gen 3 @ 2.40 GHz", "Qualcomm Technologies Inc", 8);
    assert_eq!(match_profile(&gen3).profile.model, "SC7280");
    let gen2 = identity_with_vendor("Snapdragon 7c Gen 2 @ 2.55 GHz", "Qualcomm Technologies Inc", 8);
    assert_eq!(match_profile(&gen2).profile.model, "SC7180P");
    let plain7c = identity_with_vendor("Snapdragon 7c @ 2.40 GHz", "Qualcomm Technologies Inc", 8);
    assert_eq!(match_profile(&plain7c).profile.model, "SC7180");
}

#[test]
fn legacy_microsoft_sq_lineup_matches() {
    let sq1 = identity_with_vendor("Microsoft SQ1 @ 3.0 GHz", "Qualcomm Technologies Inc", 8);
    assert_eq!(match_profile(&sq1).profile.model, "SQ1");
    let sq2 = identity_with_vendor("Microsoft SQ2 @ 3.15 GHz", "Qualcomm Technologies Inc", 8);
    assert_eq!(match_profile(&sq2).profile.model, "SQ2");
    let sq3 = identity_with_vendor("Microsoft SQ3 @ 3.0 GHz", "Qualcomm Technologies Inc", 8);
    assert_eq!(match_profile(&sq3).profile.model, "SQ3");
}

#[test]
fn legacy_835_and_850_match_and_use_pe_vocabulary() {
    let s850 = identity_with_vendor("Snapdragon 850 @ 2.96 GHz", "Qualcomm Technologies Inc", 8);
    let d850 = match_profile(&s850);
    assert_eq!(d850.profile.model, "SDM850");
    assert_eq!(d850.basis, MatchBasis::SkuToken);
    assert_eq!(d850.profile.tier_badge(CoreKind::Efficiency), ("E", "Efficiency core"));
    let s835 = identity_with_vendor("Snapdragon 835 @ 2.45 GHz", "Qualcomm Technologies Inc", 8);
    assert_eq!(match_profile(&s835).profile.model, "MSM8998");
}

#[test]
fn unanticipated_legacy_format_is_guarded_from_x1_misfire() {
    // No Stage A token matches (an adjective splits "Snapdragon" from
    // "850"), but the guard tokens still catch it and route to the
    // honest legacy-Qualcomm fallback rather than misreading an 8-core
    // 2.96 GHz legacy chip as the Snapdragon X 8-core (3.0 GHz — only 40
    // MHz off, inside the clock-inference tolerance).
    let id = identity_with_vendor("Snapdragon Turbo 850 Special Edition", "Qualcomm Technologies Inc", 8);
    let d = match_profile(&id);
    assert_eq!(d.profile.name, "Snapdragon (legacy)");
    assert_ne!(d.profile.model, "X1-26-100");
    assert_eq!(d.basis, MatchBasis::FamilyOnly);
}

// --- Raspberry Pi ------------------------------------------------------

#[test]
fn raspberry_pi4_matches_and_is_uniform_performance() {
    let id = identity_with_vendor("BCM2711 (ARM Cortex-A72) 1.50 GHz", "Broadcom", 4);
    let d = match_profile(&id);
    assert_eq!(d.profile.model, "BCM2711");
    assert_eq!(d.profile.name, "Broadcom BCM2711");
    assert_eq!(d.basis, MatchBasis::SkuToken);
    assert_eq!(d.profile.core_naming, CoreNaming::UniformPerformance);
    assert_eq!(d.profile.tier_badge(CoreKind::Performance), ("P", "Performance core"));
}

#[test]
fn unknown_broadcom_board_gets_honest_vendor_fallback() {
    let id = identity_with_vendor("Unknown SoC", "Broadcom", 4);
    let d = match_profile(&id);
    assert_eq!(d.profile.name, "Broadcom");
    assert_eq!(d.profile.model, "Unknown Broadcom SKU");
    assert_eq!(d.basis, MatchBasis::FamilyOnly);
}

#[test]
fn unknown_mediatek_gets_honest_vendor_fallback() {
    let id = identity_with_vendor("MediaTek Kompanio Something", "MediaTek", 8);
    let d = match_profile(&id);
    assert_eq!(d.profile.name, "MediaTek");
    assert_eq!(d.profile.model, "Unknown MediaTek SKU");
    assert_eq!(d.basis, MatchBasis::FamilyOnly);
}

#[test]
fn unknown_nvidia_gets_honest_vendor_fallback() {
    let id = identity_with_vendor("NVIDIA N1X", "NVIDIA", 20);
    let d = match_profile(&id);
    assert_eq!(d.profile.name, "NVIDIA");
    assert_eq!(d.profile.model, "Unknown NVIDIA SKU");
    assert_eq!(d.basis, MatchBasis::FamilyOnly);
}


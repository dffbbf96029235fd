use armtemp::chips::{chip_by_id, heuristic_pe_clusters, match_profile, pick_by_clock, MatchBasis, CoreNaming};
use armtemp::identity::CpuIdentity;
use armtemp::types::CoreKind;

fn ident(name: &str, vendor: Option<&str>, cores: u32, topo: Option<(u32, u32)>, mhz: Vec<u32>) -> CpuIdentity {
    CpuIdentity {
        name: Some(name.to_string()),
        identifier: None,
        vendor: vendor.map(|v| v.to_string()),
        per_core_mhz: mhz,
        logical_cores: cores,
        perf_cores: topo.map(|t| t.0),
        eff_cores: topo.map(|t| t.1),
    }
}

#[test]
fn basis_labels() {
    assert_eq!(MatchBasis::SkuToken.label(), "exact SKU token in CPU name");
    assert_eq!(MatchBasis::Inferred.label(), "inferred from core count + rated clock");
    assert_eq!(MatchBasis::FamilyOnly.label(), "family recognized, SKU unconfirmed");
    assert_eq!(MatchBasis::Generic.label(), "unrecognized");
}

#[test]
fn chip_by_id_finds_table_rows() {
    let p = chip_by_id("X1P64");
    assert_eq!(p.model, "X1P-64-100");
    assert_eq!(p.tdp_w, 28);
    assert_eq!(p.total_cores(), 10);
    assert_eq!(chip_by_id("SC8180XG2").model, "SC8180X+");
}

#[test]
fn equally_close_candidates_pick_the_first() {
    // 4100 MHz is 100 MHz from both X1E-80-100 (4000) and X1E-84-100 (4200).
    let d = match_profile(&ident("Snapdragon X1 Elite", Some("Qualcomm"), 12, None, vec![4100]));
    assert_eq!(d.profile.model, "X1E-80-100");
    assert_eq!(d.basis, MatchBasis::Inferred);
}

#[test]
fn clock_just_outside_tolerance_falls_back_to_family() {
    let d = match_profile(&ident("Snapdragon X1 Elite", Some("Qualcomm"), 12, None, vec![3219]));
    assert_eq!(d.profile.model, "Unknown X Elite SKU");
    assert_eq!(d.basis, MatchBasis::FamilyOnly);
    assert_eq!(d.profile.boost_mhz, 3219);
    assert_eq!(d.profile.clusters, vec![(CoreKind::Performance, 12)]);
    let edge = match_profile(&ident("Snapdragon X1 Elite", Some("Qualcomm"), 12, None, vec![3220]));
    assert_eq!(edge.profile.model, "X1E-78-100");
}

#[test]
fn unlisted_core_count_uses_even_split() {
    let d = match_profile(&ident("Snapdragon X2 Elite", Some("Qualcomm"), 20, None, vec![]));
    assert_eq!(d.profile.model, "Unknown X2 Elite SKU");
    assert_eq!(d.profile.clusters, vec![(CoreKind::Performance, 10), (CoreKind::Efficiency, 10)]);
    assert_eq!(d.profile.boost_mhz, 0);
    assert_eq!(d.profile.core_naming, CoreNaming::PrimePerformance);
}

#[test]
fn generic_fallback_trims_vendor_and_splits_many_cores() {
    let d = match_profile(&ident("Mystery", Some("  ACME  "), 12, None, vec![]));
    assert_eq!(d.profile.name, "ACME CPU");
    assert_eq!(d.profile.tjmax_c, 105);
    assert_eq!(d.profile.clusters, vec![(CoreKind::Performance, 6), (CoreKind::Efficiency, 6)]);
    assert_eq!(d.basis, MatchBasis::Generic);
    let blank = match_profile(&ident("Mystery", Some("   "), 4, None, vec![]));
    assert_eq!(blank.profile.name, "ARM64 CPU");
    assert_eq!(blank.profile.tjmax_c, 100);
}

#[test]
fn topology_overrides_every_stage() {
    let token = match_profile(&ident("Snapdragon X2 Elite - X2E88100", Some("Qualcomm"), 18, Some((10, 8)), vec![]));
    assert_eq!(token.profile.clusters, vec![(CoreKind::Performance, 10), (CoreKind::Efficiency, 8)]);
    let vendor = match_profile(&ident("Some board", Some("MediaTek"), 8, Some((0, 8)), vec![]));
    assert_eq!(vendor.profile.clusters, vec![(CoreKind::Efficiency, 8)]);
    let mismatched = match_profile(&ident("Some board", Some("MediaTek"), 8, Some((4, 5)), vec![]));
    assert_eq!(mismatched.profile.clusters, vec![(CoreKind::Performance, 4), (CoreKind::Efficiency, 4)]);
}

#[test]
fn non_token_detections_cover_all_logical_cores() {
    for cores in [1u32, 6, 8, 9, 10, 12, 18, 20, 24] {
        let d = match_profile(&ident("Snapdragon X2 Plus", Some("Qualcomm"), cores, None, vec![4000]));
        assert_ne!(d.basis, MatchBasis::SkuToken);
        assert_eq!(d.profile.total_cores(), cores);
    }
}

#[test]
fn inferred_boost_is_near_a_measured_clock() {
    let d = match_profile(&ident("Snapdragon X2 Elite Extreme @ 4.85 GHz", Some("Qualcomm"), 18, None, vec![]));
    assert_eq!(d.basis, MatchBasis::Inferred);
    assert_eq!(d.profile.model, "X2E-94-100");
    assert!((d.profile.boost_mhz as i64 - 4850).abs() <= 180);
}

#[test]
fn legacy_guard_blocks_the_bare_snapdragon_branch() {
    let d = match_profile(&ident("Snapdragon sq2 Special", Some("Qualcomm"), 8, None, vec![3000]));
    assert_eq!(d.profile.name, "Snapdragon (legacy)");
    let x = match_profile(&ident("Snapdragon", Some("Qualcomm"), 8, None, vec![3000]));
    assert_eq!(x.profile.model, "X1-26-100");
}

#[test]
fn missing_name_uses_identifier_only_for_qualcomm() {
    let mut id = ident("", Some("QUALCOMM Technologies"), 8, None, vec![3000]);
    id.name = None;
    id.identifier = Some("ARMv8 (64-bit) Family 8 Model 1 Revision 201".to_string());
    let d = match_profile(&id);
    assert_eq!(d.profile.model, "X1-26-100");
    assert_eq!(d.basis, MatchBasis::Inferred);
}

#[test]
fn heuristic_split_listed_ratios_then_even() {
    assert_eq!(heuristic_pe_clusters(18), vec![(CoreKind::Performance, 12), (CoreKind::Efficiency, 6)]);
    assert_eq!(heuristic_pe_clusters(12), vec![(CoreKind::Performance, 6), (CoreKind::Efficiency, 6)]);
    assert_eq!(heuristic_pe_clusters(10), vec![(CoreKind::Performance, 6), (CoreKind::Efficiency, 4)]);
    assert_eq!(heuristic_pe_clusters(16), vec![(CoreKind::Performance, 8), (CoreKind::Efficiency, 8)]);
    assert_eq!(heuristic_pe_clusters(9), vec![(CoreKind::Performance, 5), (CoreKind::Efficiency, 4)]);
    assert_eq!(heuristic_pe_clusters(7), vec![(CoreKind::Performance, 7)]);
}

#[test]
fn non_snapdragon_x1_core_name_gets_no_snapdragon_family() {
    let id = ident("ARM Cortex-X1 @ 3.00 GHz", Some("ARM Limited"), 8, None, vec![3000]);
    let d = match_profile(&id);
    assert!(!d.profile.name.contains("Snapdragon"));
    assert_eq!(d.basis, MatchBasis::Generic);
    assert_eq!(d.profile.name, "ARM Limited CPU");
    let q = match_profile(&ident("Oryon X1 part", Some("Qualcomm"), 8, None, vec![3000]));
    assert_eq!(q.profile.model, "X1-26-100");
}

#[test]
fn unicode_whitespace_is_trimmed_from_the_vendor() {
    let d = match_profile(&ident("Mystery", Some("\u{3000}ACME\u{a0}\t"), 4, None, vec![]));
    assert_eq!(d.profile.name, "ACME CPU");
}

#[test]
fn pick_by_clock_takes_the_first_nearest_within_tolerance() {
    let c = vec![(4000u32, 1usize), (4200, 2), (3900, 3)];
    assert_eq!(pick_by_clock(4100, &c), Some(1));
    assert_eq!(pick_by_clock(3950, &c), Some(1));
    assert_eq!(pick_by_clock(3940, &c), Some(3));
    assert_eq!(pick_by_clock(4380, &c), Some(2));
    assert_eq!(pick_by_clock(4381, &c), None);
    assert_eq!(pick_by_clock(4000, &vec![]), None);
}

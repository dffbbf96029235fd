use armtemp::chips::chip_by_id;
use armtemp::topology::{classes_from_entries, count_kinds, kind_for_core, parse_core_index, CoreEntry};
use armtemp::types::CoreKind;

#[test]
fn core_index_parses_group_core_names() {
    assert_eq!(parse_core_index("0,3"), Some(3));
    assert_eq!(parse_core_index("1, 12 "), Some(12));
    assert_eq!(parse_core_index("7"), Some(7));
    assert_eq!(parse_core_index("0,+7"), Some(7));
}

#[test]
fn core_index_skips_totals_and_garbage() {
    assert_eq!(parse_core_index("0,_Total"), None);
    assert_eq!(parse_core_index("_TOTAL"), None);
    assert_eq!(parse_core_index("0,-1"), None);
    assert_eq!(parse_core_index("0,"), None);
    assert_eq!(parse_core_index("0,4294967296"), None);
}

#[test]
fn classes_are_keyed_by_mask_bit() {
    let entries = vec![
        CoreEntry { efficiency_class: 1, group_count: 1, mask: 0b0011 },
        CoreEntry { efficiency_class: 0, group_count: 1, mask: 0b1100 },
    ];
    assert_eq!(classes_from_entries(&entries, 4), Some(vec![1, 1, 0, 0]));
}

#[test]
fn classes_none_when_a_core_is_unaccounted_for() {
    let entries = vec![
        CoreEntry { efficiency_class: 1, group_count: 1, mask: 0b0001 },
        CoreEntry { efficiency_class: 0, group_count: 2, mask: 0b0010 },
    ];
    assert_eq!(classes_from_entries(&entries, 2), None);
    assert_eq!(classes_from_entries(&Vec::new(), 0), Some(vec![]));
}

#[test]
fn later_entries_win() {
    let entries = vec![
        CoreEntry { efficiency_class: 1, group_count: 1, mask: 0b1 },
        CoreEntry { efficiency_class: 2, group_count: 1, mask: 0b1 },
    ];
    assert_eq!(classes_from_entries(&entries, 1), Some(vec![2]));
}

#[test]
fn kind_for_core_prefers_os_topology_then_walks_clusters() {
    let p = chip_by_id("X2E78");
    let real = Some(vec![CoreKind::Efficiency, CoreKind::Performance]);
    assert_eq!(kind_for_core(&real, &p, 0), CoreKind::Efficiency);
    assert_eq!(kind_for_core(&real, &p, 1), CoreKind::Performance);
    assert_eq!(kind_for_core(&real, &p, 7), CoreKind::Efficiency);
    assert_eq!(kind_for_core(&None, &p, 5), CoreKind::Performance);
    assert_eq!(kind_for_core(&None, &p, 6), CoreKind::Efficiency);
    assert_eq!(kind_for_core(&None, &p, 12), CoreKind::Performance);
}

#[test]
fn counts_kinds() {
    let k = vec![CoreKind::Performance, CoreKind::Efficiency, CoreKind::Performance];
    assert_eq!(count_kinds(&k), (2, 1));
    assert_eq!(count_kinds(&Vec::new()), (0, 0));
}

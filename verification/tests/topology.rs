use armtemp::topology::classes_to_kinds;
use armtemp::types::CoreKind;

#[test]
fn classes_to_kinds_two_tier_highest_class_is_performance() {
    // X2E-78-100 real topology: 6 x Oryon P1 (efficiency
    // class 0) + 6 x Oryon P2 (efficiency class 1) — order in the raw
    // class list doesn't matter, only which class is highest.
    let classes = [0, 0, 0, 0, 0, 0, 1, 1, 1, 1, 1, 1];
    let kinds = classes_to_kinds(&classes);
    assert_eq!(kinds[..6], [CoreKind::Efficiency; 6]);
    assert_eq!(kinds[6..], [CoreKind::Performance; 6]);
}

#[test]
fn classes_to_kinds_homogeneous_is_all_performance() {
    // X1 Elite / X2P-42: a single Efficiency Class for every core.
    let classes = [0u8; 8];
    let kinds = classes_to_kinds(&classes);
    assert!(kinds.iter().all(|k| *k == CoreKind::Performance));
}

#[test]
fn classes_to_kinds_three_tier_only_top_class_is_performance() {
    // Hypothetical 3-tier topology: everything below the max class is
    // Efficiency, not just the immediately-lower tier.
    let classes = [0, 1, 2];
    let kinds = classes_to_kinds(&classes);
    assert_eq!(kinds, [CoreKind::Efficiency, CoreKind::Efficiency, CoreKind::Performance]);
}

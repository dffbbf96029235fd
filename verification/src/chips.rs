//! Chip profiles for ARM64 CPUs seen on Windows on ARM (the Snapdragon X /
//! X2 families, the legacy Qualcomm Windows-on-ARM lineup, Raspberry Pi) and
//! the layered detection that labels a `CpuIdentity` with one of them —
//! never fabricating a reading or a spec.
//!
//! Detection stages, cheapest and most certain evidence first:
//!   A. SKU token in the normalized name.
//!   B. Snapdragon X family/subfamily from the name, or the `Identifier`'s
//!      Oryon generation plus a Qualcomm vendor.
//!   C. Within that family, the SKU inferred from core count + rated clock.
//!   D. Family recognized, no SKU fits: honest family label.
//!   E. Known non-X vendor/family: honest vendor label.
//!   F. Nothing recognized: the vendor's name or bare "ARM64 CPU".
use vstd::prelude::*;

use crate::identity::{
    clock_of, generation_of, lowered_name, max_of, normalized, text_or_empty, CpuIdentity,
    IdentityView,
};
use crate::text::{
    chars_of, contains_str, has_sub, to_lowercase, trim, trim_end_index, trim_start_index,
    lowercase, string_of,
};
use crate::types::CoreKind;

verus! {

broadcast use vstd::string::group_string_axioms;

/// Vocabulary for the two core tiers a chip may expose.
#[derive(Clone, Copy, Debug, PartialEq, Eq, Structural)]
pub enum CoreNaming {
    /// Every core is a full performance core (Snapdragon X1 family).
    UniformPerformance,
    /// Qualcomm's X2 vocabulary: "Prime" and "Performance" clusters.
    PrimePerformance,
    /// A genuine Performance/Efficiency split (and anything unrecognized).
    PerformanceEfficiency,
}

/// How a `ChipProfile` was determined.
#[derive(Clone, Copy, Debug, PartialEq, Eq, Structural)]
pub enum MatchBasis {
    /// An exact SKU token was found in the CPU name.
    SkuToken,
    /// The SKU was inferred from core count + rated clock within a family.
    Inferred,
    /// Family (or vendor) known, no specific SKU matched.
    FamilyOnly,
    /// Nothing recognized at all.
    Generic,
}

/// The UI/diagnostics label of each `MatchBasis`.
pub open spec fn basis_label(b: MatchBasis) -> Seq<char> {
    match b {
        MatchBasis::SkuToken => "exact SKU token in CPU name"@,
        MatchBasis::Inferred => "inferred from core count + rated clock"@,
        MatchBasis::FamilyOnly => "family recognized, SKU unconfirmed"@,
        MatchBasis::Generic => "unrecognized"@,
    }
}

impl MatchBasis {
    /// Short human-readable label for the UI/diagnostics report.
    pub fn label(&self) -> (r: &'static str)
        ensures
            r@ == basis_label(*self),
    {
        match self {
            MatchBasis::SkuToken => "exact SKU token in CPU name",
            MatchBasis::Inferred => "inferred from core count + rated clock",
            MatchBasis::FamilyOnly => "family recognized, SKU unconfirmed",
            MatchBasis::Generic => "unrecognized",
        }
    }
}

/// Snapdragon X generation.
#[derive(Clone, Copy, Debug, PartialEq, Eq, Structural)]
pub enum Gen {
    X1,
    X2,
}

/// Snapdragon X subfamily.
#[derive(Clone, Copy, Debug, PartialEq, Eq, Structural)]
pub enum Sub {
    Elite,
    Plus,
    Extreme,
}

/// A known (or honestly labelled) ARM64 SoC profile. Clocks are in MHz;
/// 0 means unpublished and renders as "—".
#[derive(Clone, Debug)]
pub struct ChipProfile {
    /// Core clusters, higher tier first: `(kind, count)`.
    pub clusters: Vec<(CoreKind, u32)>,
    pub id: String,
    pub name: String,
    /// Lowercase alphanumeric token matched against the normalized CPU name;
    /// empty for profiles never reached by token matching.
    pub model_match: String,
    /// Marketing model string.
    pub model: String,
    /// Thermal junction max in °C.
    pub tjmax_c: u32,
    /// Base (all-core) clock in MHz, 0 when unpublished.
    pub base_mhz: u32,
    /// Boost clock in MHz, 0 when unknown.
    pub boost_mhz: u32,
    /// Nominal TDP in watts, 0 when unpublished.
    pub tdp_w: u32,
    /// Microarchitecture label, empty when unknown.
    pub uarch: String,
    /// Process node label, empty when unknown.
    pub lithography: String,
    /// Which core-tier vocabulary applies.
    pub core_naming: CoreNaming,
}

/// The mathematical content of a `ChipProfile`.
pub struct ChipView {
    pub clusters: Seq<(CoreKind, u32)>,
    pub id: Seq<char>,
    pub name: Seq<char>,
    pub model_match: Seq<char>,
    pub model: Seq<char>,
    pub tjmax_c: u32,
    pub base_mhz: u32,
    pub boost_mhz: u32,
    pub tdp_w: u32,
    pub uarch: Seq<char>,
    pub lithography: Seq<char>,
    pub core_naming: CoreNaming,
}

impl View for ChipProfile {
    type V = ChipView;

    open spec fn view(&self) -> ChipView {
        ChipView {
            clusters: self.clusters@,
            id: self.id@,
            name: self.name@,
            model_match: self.model_match@,
            model: self.model@,
            tjmax_c: self.tjmax_c,
            base_mhz: self.base_mhz,
            boost_mhz: self.boost_mhz,
            tdp_w: self.tdp_w,
            uarch: self.uarch@,
            lithography: self.lithography@,
            core_naming: self.core_naming,
        }
    }
}

/// Sum of the cluster core counts.
pub open spec fn cluster_total(c: Seq<(CoreKind, u32)>) -> nat
    decreases c.len(),
{
    if c.len() == 0 {
        0
    } else {
        cluster_total(c.drop_last()) + c.last().1 as nat
    }
}

/// The badge text and tooltip for a core of `kind` under `naming`.
pub open spec fn badge(naming: CoreNaming, kind: CoreKind) -> (Seq<char>, Seq<char>) {
    match (naming, kind) {
        (CoreNaming::UniformPerformance, _) => ("P"@, "Performance core"@),
        (CoreNaming::PrimePerformance, CoreKind::Performance) => ("P"@, "Prime core"@),
        (CoreNaming::PrimePerformance, CoreKind::Efficiency) => ("P2"@, "Performance core"@),
        (CoreNaming::PerformanceEfficiency, CoreKind::Performance) => ("P"@, "Performance core"@),
        (CoreNaming::PerformanceEfficiency, CoreKind::Efficiency) => ("E"@, "Efficiency core"@),
    }
}

impl ChipProfile {
    /// Total cores over all clusters.
    pub fn total_cores(&self) -> (r: u32)
        requires
            cluster_total(self.clusters@) <= u32::MAX,
        ensures
            r == cluster_total(self.clusters@),
    {
        let mut sum: u32 = 0;
        let mut i: usize = 0;
        while i < self.clusters.len()
            invariant
                i <= self.clusters.len(),
                cluster_total(self.clusters@) <= u32::MAX,
                sum == cluster_total(self.clusters@.take(i as int)),
            decreases self.clusters.len() - i,
        {
            assert(self.clusters@.take(i + 1).drop_last() =~= self.clusters@.take(i as int));
            proof {
                lemma_cluster_total_prefix(self.clusters@, i as int + 1);
            }
            sum = sum + self.clusters[i].1;
            i = i + 1;
        }
        assert(self.clusters@.take(i as int) =~= self.clusters@);
        sum
    }

    /// The badge text + tooltip to show for a core of the given kind on
    /// this chip, per its `core_naming`.
    pub fn tier_badge(&self, kind: CoreKind) -> (r: (&'static str, &'static str))
        ensures
            r.0@ == badge(self.core_naming, kind).0,
            r.1@ == badge(self.core_naming, kind).1,
    {
        match (self.core_naming, kind) {
            (CoreNaming::UniformPerformance, _) => ("P", "Performance core"),
            (CoreNaming::PrimePerformance, CoreKind::Performance) => ("P", "Prime core"),
            (CoreNaming::PrimePerformance, CoreKind::Efficiency) => ("P2", "Performance core"),
            (CoreNaming::PerformanceEfficiency, CoreKind::Performance) => ("P", "Performance core"),
            (CoreNaming::PerformanceEfficiency, CoreKind::Efficiency) => ("E", "Efficiency core"),
        }
    }
}

/// A prefix never sums to more than the whole.
pub proof fn lemma_cluster_total_prefix(c: Seq<(CoreKind, u32)>, n: int)
    requires
        0 <= n <= c.len(),
    ensures
        cluster_total(c.take(n)) <= cluster_total(c),
    decreases c.len(),
{
    if n < c.len() {
        assert(c.drop_last().take(n) =~= c.take(n));
        lemma_cluster_total_prefix(c.drop_last(), n);
    } else {
        assert(c.take(n) =~= c);
    }
}

/// The outcome of detection: a profile and how it was determined.
pub struct Detection {
    pub profile: ChipProfile,
    pub basis: MatchBasis,
}

// ---------------------------------------------------------------------------
// Cluster layouts
// ---------------------------------------------------------------------------

/// `p` higher-tier cores then, when `e > 0`, `e` lower-tier cores.
pub open spec fn two_tier(p: u32, e: u32) -> Seq<(CoreKind, u32)> {
    if e == 0 {
        seq![(CoreKind::Performance, p)]
    } else {
        seq![(CoreKind::Performance, p), (CoreKind::Efficiency, e)]
    }
}

fn two_tier_exec(p: u32, e: u32) -> (v: Vec<(CoreKind, u32)>)
    ensures
        v@ == two_tier(p, e),
{
    let mut v: Vec<(CoreKind, u32)> = Vec::new();
    v.push((CoreKind::Performance, p));
    if e != 0 {
        v.push((CoreKind::Efficiency, e));
    }
    assert(v@ =~= two_tier(p, e));
    v
}

// ---------------------------------------------------------------------------
// The profile table
// ---------------------------------------------------------------------------

/// Number of profiles in the table.
pub const CHIP_COUNT: usize = 31;

/// Table index of X126.
pub const IDX_X126: usize = 0;
/// Table index of X1P42.
pub const IDX_X1P42: usize = 1;
/// Table index of X1P46.
pub const IDX_X1P46: usize = 2;
/// Table index of X1P64.
pub const IDX_X1P64: usize = 3;
/// Table index of X1P66.
pub const IDX_X1P66: usize = 4;
/// Table index of X1E78.
pub const IDX_X1E78: usize = 5;
/// Table index of X1E80.
pub const IDX_X1E80: usize = 6;
/// Table index of X1E84.
pub const IDX_X1E84: usize = 7;
/// Table index of X2EX96.
pub const IDX_X2EX96: usize = 8;
/// Table index of X2EX94.
pub const IDX_X2EX94: usize = 9;
/// Table index of X2E90.
pub const IDX_X2E90: usize = 10;
/// Table index of X2E88.
pub const IDX_X2E88: usize = 11;
/// Table index of X2E84.
pub const IDX_X2E84: usize = 12;
/// Table index of X2E80.
pub const IDX_X2E80: usize = 13;
/// Table index of X2E78.
pub const IDX_X2E78: usize = 14;
/// Table index of X2P64.
pub const IDX_X2P64: usize = 15;
/// Table index of X2P42.
pub const IDX_X2P42: usize = 16;
/// Table index of SQ3.
pub const IDX_SQ3: usize = 17;
/// Table index of SQ2.
pub const IDX_SQ2: usize = 18;
/// Table index of SQ1.
pub const IDX_SQ1: usize = 19;
/// Table index of SC8180XP.
pub const IDX_SC8180XP: usize = 20;
/// Table index of SC8180XG2.
pub const IDX_SC8180XG2: usize = 21;
/// Table index of SC8180X.
pub const IDX_SC8180X: usize = 22;
/// Table index of SC8180.
pub const IDX_SC8180: usize = 23;
/// Table index of SC7280.
pub const IDX_SC7280: usize = 24;
/// Table index of SC7180P.
pub const IDX_SC7180P: usize = 25;
/// Table index of SC7180.
pub const IDX_SC7180: usize = 26;
/// Table index of SDM850.
pub const IDX_SDM850: usize = 27;
/// Table index of MSM8998.
pub const IDX_MSM8998: usize = 28;
/// Table index of BCM2711.
pub const IDX_BCM2711: usize = 29;
/// Table index of BCM2712.
pub const IDX_BCM2712: usize = 30;

/// One table row as a view.
pub open spec fn row(
    id: &str,
    name: &str,
    model_match: &str,
    model: &str,
    tjmax_c: u32,
    base_mhz: u32,
    boost_mhz: u32,
    tdp_w: u32,
    p: u32,
    e: u32,
    uarch: &str,
    lithography: &str,
    core_naming: CoreNaming,
) -> ChipView {
    ChipView {
        clusters: two_tier(p, e),
        id: id@,
        name: name@,
        model_match: model_match@,
        model: model@,
        tjmax_c,
        base_mhz,
        boost_mhz,
        tdp_w,
        uarch: uarch@,
        lithography: lithography@,
        core_naming,
    }
}

fn make_row(
    id: &str,
    name: &str,
    model_match: &str,
    model: &str,
    tjmax_c: u32,
    base_mhz: u32,
    boost_mhz: u32,
    tdp_w: u32,
    p: u32,
    e: u32,
    uarch: &str,
    lithography: &str,
    core_naming: CoreNaming,
) -> (c: ChipProfile)
    ensures
        c@ == row(id, name, model_match, model, tjmax_c, base_mhz, boost_mhz, tdp_w, p, e, uarch, lithography, core_naming),
{
    ChipProfile {
        clusters: two_tier_exec(p, e),
        id: id.to_owned(),
        name: name.to_owned(),
        model_match: model_match.to_owned(),
        model: model.to_owned(),
        tjmax_c,
        base_mhz,
        boost_mhz,
        tdp_w,
        uarch: uarch.to_owned(),
        lithography: lithography.to_owned(),
        core_naming,
    }
}

/// The real Snapdragon X / X2 lineup, the legacy Qualcomm Windows-on-ARM
/// lineup, and Raspberry Pi. Order is load-bearing: more specific tokens
/// ("8cxgen3") come before the tokens they contain ("8cx", "8c").
pub open spec fn chip(i: usize) -> ChipView {
    match i {
        0 => row("X126", "Snapdragon X", "x126", "X1-26-100", 100, 3000, 3000, 23, 8, 0, "Oryon", "4 nm", CoreNaming::UniformPerformance),
        1 => row("X1P42", "Snapdragon X Plus", "x1p42", "X1P-42-100", 100, 3200, 3400, 0, 8, 0, "Oryon", "4 nm", CoreNaming::UniformPerformance),
        2 => row("X1P46", "Snapdragon X Plus", "x1p46", "X1P-46-100", 100, 3400, 4000, 0, 8, 0, "Oryon", "4 nm", CoreNaming::UniformPerformance),
        3 => row("X1P64", "Snapdragon X Plus", "x1p64", "X1P-64-100", 100, 3400, 3400, 28, 10, 0, "Oryon", "4 nm", CoreNaming::UniformPerformance),
        4 => row("X1P66", "Snapdragon X Plus", "x1p66", "X1P-66-100", 100, 3400, 4000, 0, 10, 0, "Oryon", "4 nm", CoreNaming::UniformPerformance),
        5 => row("X1E78", "Snapdragon X Elite", "x1e78", "X1E-78-100", 100, 3400, 3400, 35, 12, 0, "Oryon", "4 nm", CoreNaming::UniformPerformance),
        6 => row("X1E80", "Snapdragon X Elite", "x1e80", "X1E-80-100", 100, 3400, 4000, 37, 12, 0, "Oryon", "4 nm", CoreNaming::UniformPerformance),
        7 => row("X1E84", "Snapdragon X Elite", "x1e84", "X1E-84-100", 100, 3800, 4200, 45, 12, 0, "Oryon", "4 nm", CoreNaming::UniformPerformance),
        8 => row("X2EX96", "Snapdragon X2 Elite Extreme", "x2e96", "X2E-96-100", 105, 4400, 5000, 0, 12, 6, "Oryon 3", "3 nm", CoreNaming::PrimePerformance),
        9 => row("X2EX94", "Snapdragon X2 Elite Extreme", "x2e94", "X2E-94-100", 105, 4400, 4700, 0, 12, 6, "Oryon 3", "3 nm", CoreNaming::PrimePerformance),
        10 => row("X2E90", "Snapdragon X2 Elite", "x2e90", "X2E-90-100", 105, 4000, 5000, 0, 12, 6, "Oryon 3", "3 nm", CoreNaming::PrimePerformance),
        11 => row("X2E88", "Snapdragon X2 Elite", "x2e88", "X2E-88-100", 105, 4000, 4700, 0, 12, 6, "Oryon 3", "3 nm", CoreNaming::PrimePerformance),
        12 => row("X2E84", "Snapdragon X2 Elite", "x2e84", "X2E-84-100", 105, 4000, 4700, 0, 6, 6, "Oryon 3", "3 nm", CoreNaming::PrimePerformance),
        13 => row("X2E80", "Snapdragon X2 Elite", "x2e80", "X2E-80-100", 105, 4000, 4700, 0, 6, 6, "Oryon 3", "3 nm", CoreNaming::PrimePerformance),
        14 => row("X2E78", "Snapdragon X2 Elite", "x2e78", "X2E-78-100", 105, 4000, 4000, 0, 6, 6, "Oryon 3", "3 nm", CoreNaming::PrimePerformance),
        15 => row("X2P64", "Snapdragon X2 Plus", "x2p64", "X2P-64-100", 105, 4000, 4000, 0, 6, 4, "Oryon 3", "3 nm", CoreNaming::PrimePerformance),
        16 => row("X2P42", "Snapdragon X2 Plus", "x2p42", "X2P-42-100", 105, 4000, 4000, 0, 6, 0, "Oryon 3", "3 nm", CoreNaming::PrimePerformance),
        17 => row("SQ3", "Microsoft SQ3", "microsoftsq3", "SQ3", 100, 0, 3000, 0, 4, 4, "Cortex-X1C + Cortex-A78C", "5 nm", CoreNaming::PerformanceEfficiency),
        18 => row("SQ2", "Microsoft SQ2", "microsoftsq2", "SQ2", 100, 0, 3150, 0, 4, 4, "Kryo 495", "7 nm", CoreNaming::PerformanceEfficiency),
        19 => row("SQ1", "Microsoft SQ1", "microsoftsq1", "SQ1", 100, 0, 3000, 0, 4, 4, "Kryo 495", "7 nm", CoreNaming::PerformanceEfficiency),
        20 => row("SC8180XP", "Snapdragon 8cx Gen 3", "8cxgen3", "SC8280XP", 100, 0, 3000, 0, 4, 4, "Cortex-X1C + Cortex-A78C", "5 nm", CoreNaming::PerformanceEfficiency),
        21 => row("SC8180XG2", "Snapdragon 8cx Gen 2", "8cxgen2", "SC8180X+", 100, 0, 3150, 0, 4, 4, "Kryo 495", "7 nm", CoreNaming::PerformanceEfficiency),
        22 => row("SC8180X", "Snapdragon 8cx", "8cx", "SC8180X", 100, 0, 2840, 0, 4, 4, "Kryo 495", "7 nm", CoreNaming::PerformanceEfficiency),
        23 => row("SC8180", "Snapdragon 8c", "8c", "SC8180", 100, 0, 2450, 0, 4, 4, "Kryo 490", "7 nm", CoreNaming::PerformanceEfficiency),
        24 => row("SC7280", "Snapdragon 7c+ Gen 3", "7cgen3", "SC7280", 100, 0, 2400, 0, 4, 4, "Kryo (7c+ Gen 3)", "6 nm", CoreNaming::PerformanceEfficiency),
        25 => row("SC7180P", "Snapdragon 7c Gen 2", "7cgen2", "SC7180P", 100, 0, 2550, 0, 2, 6, "Kryo 468", "8 nm", CoreNaming::PerformanceEfficiency),
        26 => row("SC7180", "Snapdragon 7c", "7c", "SC7180", 100, 0, 2400, 0, 2, 6, "Kryo 468", "8 nm", CoreNaming::PerformanceEfficiency),
        27 => row("SDM850", "Snapdragon 850", "snapdragon850", "SDM850", 100, 0, 2960, 0, 4, 4, "Kryo 385", "10 nm", CoreNaming::PerformanceEfficiency),
        28 => row("MSM8998", "Snapdragon 835", "snapdragon835", "MSM8998", 100, 0, 2450, 0, 4, 4, "Kryo 280", "10 nm", CoreNaming::PerformanceEfficiency),
        29 => row("BCM2711", "Broadcom BCM2711", "bcm2711", "BCM2711", 100, 0, 1500, 0, 4, 0, "Cortex-A72", "", CoreNaming::UniformPerformance),
        30 => row("BCM2712", "Broadcom BCM2712", "bcm2712", "BCM2712", 100, 0, 2400, 0, 4, 0, "Cortex-A76", "", CoreNaming::UniformPerformance),
        _ => row("", "", "", "", 0, 0, 0, 0, 0, 0, "", "", CoreNaming::PerformanceEfficiency),
    }
}

/// Row `i` of the table.
pub fn chip_at(i: usize) -> (c: ChipProfile)
    requires
        i < CHIP_COUNT,
    ensures
        c@ == chip(i),
{
    match i {
        0 => make_row("X126", "Snapdragon X", "x126", "X1-26-100", 100, 3000, 3000, 23, 8, 0, "Oryon", "4 nm", CoreNaming::UniformPerformance),
        1 => make_row("X1P42", "Snapdragon X Plus", "x1p42", "X1P-42-100", 100, 3200, 3400, 0, 8, 0, "Oryon", "4 nm", CoreNaming::UniformPerformance),
        2 => make_row("X1P46", "Snapdragon X Plus", "x1p46", "X1P-46-100", 100, 3400, 4000, 0, 8, 0, "Oryon", "4 nm", CoreNaming::UniformPerformance),
        3 => make_row("X1P64", "Snapdragon X Plus", "x1p64", "X1P-64-100", 100, 3400, 3400, 28, 10, 0, "Oryon", "4 nm", CoreNaming::UniformPerformance),
        4 => make_row("X1P66", "Snapdragon X Plus", "x1p66", "X1P-66-100", 100, 3400, 4000, 0, 10, 0, "Oryon", "4 nm", CoreNaming::UniformPerformance),
        5 => make_row("X1E78", "Snapdragon X Elite", "x1e78", "X1E-78-100", 100, 3400, 3400, 35, 12, 0, "Oryon", "4 nm", CoreNaming::UniformPerformance),
        6 => make_row("X1E80", "Snapdragon X Elite", "x1e80", "X1E-80-100", 100, 3400, 4000, 37, 12, 0, "Oryon", "4 nm", CoreNaming::UniformPerformance),
        7 => make_row("X1E84", "Snapdragon X Elite", "x1e84", "X1E-84-100", 100, 3800, 4200, 45, 12, 0, "Oryon", "4 nm", CoreNaming::UniformPerformance),
        8 => make_row("X2EX96", "Snapdragon X2 Elite Extreme", "x2e96", "X2E-96-100", 105, 4400, 5000, 0, 12, 6, "Oryon 3", "3 nm", CoreNaming::PrimePerformance),
        9 => make_row("X2EX94", "Snapdragon X2 Elite Extreme", "x2e94", "X2E-94-100", 105, 4400, 4700, 0, 12, 6, "Oryon 3", "3 nm", CoreNaming::PrimePerformance),
        10 => make_row("X2E90", "Snapdragon X2 Elite", "x2e90", "X2E-90-100", 105, 4000, 5000, 0, 12, 6, "Oryon 3", "3 nm", CoreNaming::PrimePerformance),
        11 => make_row("X2E88", "Snapdragon X2 Elite", "x2e88", "X2E-88-100", 105, 4000, 4700, 0, 12, 6, "Oryon 3", "3 nm", CoreNaming::PrimePerformance),
        12 => make_row("X2E84", "Snapdragon X2 Elite", "x2e84", "X2E-84-100", 105, 4000, 4700, 0, 6, 6, "Oryon 3", "3 nm", CoreNaming::PrimePerformance),
        13 => make_row("X2E80", "Snapdragon X2 Elite", "x2e80", "X2E-80-100", 105, 4000, 4700, 0, 6, 6, "Oryon 3", "3 nm", CoreNaming::PrimePerformance),
        14 => make_row("X2E78", "Snapdragon X2 Elite", "x2e78", "X2E-78-100", 105, 4000, 4000, 0, 6, 6, "Oryon 3", "3 nm", CoreNaming::PrimePerformance),
        15 => make_row("X2P64", "Snapdragon X2 Plus", "x2p64", "X2P-64-100", 105, 4000, 4000, 0, 6, 4, "Oryon 3", "3 nm", CoreNaming::PrimePerformance),
        16 => make_row("X2P42", "Snapdragon X2 Plus", "x2p42", "X2P-42-100", 105, 4000, 4000, 0, 6, 0, "Oryon 3", "3 nm", CoreNaming::PrimePerformance),
        17 => make_row("SQ3", "Microsoft SQ3", "microsoftsq3", "SQ3", 100, 0, 3000, 0, 4, 4, "Cortex-X1C + Cortex-A78C", "5 nm", CoreNaming::PerformanceEfficiency),
        18 => make_row("SQ2", "Microsoft SQ2", "microsoftsq2", "SQ2", 100, 0, 3150, 0, 4, 4, "Kryo 495", "7 nm", CoreNaming::PerformanceEfficiency),
        19 => make_row("SQ1", "Microsoft SQ1", "microsoftsq1", "SQ1", 100, 0, 3000, 0, 4, 4, "Kryo 495", "7 nm", CoreNaming::PerformanceEfficiency),
        20 => make_row("SC8180XP", "Snapdragon 8cx Gen 3", "8cxgen3", "SC8280XP", 100, 0, 3000, 0, 4, 4, "Cortex-X1C + Cortex-A78C", "5 nm", CoreNaming::PerformanceEfficiency),
        21 => make_row("SC8180XG2", "Snapdragon 8cx Gen 2", "8cxgen2", "SC8180X+", 100, 0, 3150, 0, 4, 4, "Kryo 495", "7 nm", CoreNaming::PerformanceEfficiency),
        22 => make_row("SC8180X", "Snapdragon 8cx", "8cx", "SC8180X", 100, 0, 2840, 0, 4, 4, "Kryo 495", "7 nm", CoreNaming::PerformanceEfficiency),
        23 => make_row("SC8180", "Snapdragon 8c", "8c", "SC8180", 100, 0, 2450, 0, 4, 4, "Kryo 490", "7 nm", CoreNaming::PerformanceEfficiency),
        24 => make_row("SC7280", "Snapdragon 7c+ Gen 3", "7cgen3", "SC7280", 100, 0, 2400, 0, 4, 4, "Kryo (7c+ Gen 3)", "6 nm", CoreNaming::PerformanceEfficiency),
        25 => make_row("SC7180P", "Snapdragon 7c Gen 2", "7cgen2", "SC7180P", 100, 0, 2550, 0, 2, 6, "Kryo 468", "8 nm", CoreNaming::PerformanceEfficiency),
        26 => make_row("SC7180", "Snapdragon 7c", "7c", "SC7180", 100, 0, 2400, 0, 2, 6, "Kryo 468", "8 nm", CoreNaming::PerformanceEfficiency),
        27 => make_row("SDM850", "Snapdragon 850", "snapdragon850", "SDM850", 100, 0, 2960, 0, 4, 4, "Kryo 385", "10 nm", CoreNaming::PerformanceEfficiency),
        28 => make_row("MSM8998", "Snapdragon 835", "snapdragon835", "MSM8998", 100, 0, 2450, 0, 4, 4, "Kryo 280", "10 nm", CoreNaming::PerformanceEfficiency),
        29 => make_row("BCM2711", "Broadcom BCM2711", "bcm2711", "BCM2711", 100, 0, 1500, 0, 4, 0, "Cortex-A72", "", CoreNaming::UniformPerformance),
        30 => make_row("BCM2712", "Broadcom BCM2712", "bcm2712", "BCM2712", 100, 0, 2400, 0, 4, 0, "Cortex-A76", "", CoreNaming::UniformPerformance),
        _ => make_row("", "", "", "", 0, 0, 0, 0, 0, 0, "", "", CoreNaming::PerformanceEfficiency),
    }
}


// ---------------------------------------------------------------------------
// Cluster resolution
// ---------------------------------------------------------------------------

/// Clusters straight from the OS topology: `p` higher-tier cores, then `e`
/// lower-tier ones, each only when nonzero.
pub open spec fn topology(p: u32, e: u32) -> Seq<(CoreKind, u32)> {
    (if p > 0 { seq![(CoreKind::Performance, p)] } else { Seq::empty() }) + (if e > 0 {
        seq![(CoreKind::Efficiency, e)]
    } else {
        Seq::empty()
    })
}

/// The OS's real per-core P/E topology when it is available and adds up to
/// `cores`; `fallback` otherwise.
pub open spec fn resolved(v: IdentityView, cores: u32, fallback: Seq<(CoreKind, u32)>) -> Seq<
    (CoreKind, u32),
> {
    match (v.perf_cores, v.eff_cores) {
        (Some(p), Some(e)) => if cores > 0 && p + e == cores {
            topology(p, e)
        } else {
            fallback
        },
        _ => fallback,
    }
}

/// Prefer the OS's real per-core P/E topology over any static table split.
pub fn resolve_clusters(id: &CpuIdentity, cores: u32, fallback: Vec<(CoreKind, u32)>) -> (r: Vec<
    (CoreKind, u32),
>)
    ensures
        r@ == resolved(id@, cores, fallback@),
{
    if let (Some(p), Some(e)) = (id.perf_cores, id.eff_cores) {
        if cores > 0 && (p as u64) + (e as u64) == cores as u64 {
            let mut v: Vec<(CoreKind, u32)> = Vec::new();
            if p > 0 {
                v.push((CoreKind::Performance, p));
            }
            if e > 0 {
                v.push((CoreKind::Efficiency, e));
            }
            assert(v@ =~= topology(p, e));
            return v;
        }
    }
    fallback
}

/// The split used for a chip with `n` cores and no table entry: the X2
/// lineup's real ratios (18 = 12+6, 12 = 6+6, 10 = 6+4), an even split
/// (the odd core to the higher tier) for any other count from 8 up, all
/// higher-tier below 8.
pub open spec fn heuristic_split(n: u32) -> (u32, u32) {
    if n == 18 {
        (12, 6)
    } else if n == 12 {
        (6, 6)
    } else if n == 10 {
        (6, 4)
    } else if n >= 8 {
        ((n - n / 2) as u32, n / 2)
    } else {
        (n, 0)
    }
}

/// For a core count of 8 or more other than 10, 12 and 18, the split is
/// even: the tiers add up to `n` and differ by at most the odd core, which
/// goes to the higher tier.
pub proof fn lemma_heuristic_split_even(n: u32)
    requires
        n >= 8,
        n != 10,
        n != 12,
        n != 18,
    ensures
        heuristic_split(n).0 + heuristic_split(n).1 == n,
        heuristic_split(n).0 == heuristic_split(n).1 || heuristic_split(n).0 == heuristic_split(n).1 + 1,
{
}

/// `heuristic_split` as clusters.
pub open spec fn heuristic(n: u32) -> Seq<(CoreKind, u32)> {
    two_tier(heuristic_split(n).0, heuristic_split(n).1)
}

/// All `n` cores in one higher-tier cluster.
pub open spec fn homogeneous(n: u32) -> Seq<(CoreKind, u32)> {
    seq![(CoreKind::Performance, n)]
}

/// The cluster split for an unlisted chip with `total` cores.
pub fn heuristic_pe_clusters(total: u32) -> (r: Vec<(CoreKind, u32)>)
    ensures
        r@ == heuristic(total),
{
    let (p, e): (u32, u32) = if total == 18 {
        (12, 6)
    } else if total == 12 {
        (6, 6)
    } else if total == 10 {
        (6, 4)
    } else if total >= 8 {
        (total - total / 2, total / 2)
    } else {
        (total, 0)
    };
    two_tier_exec(p, e)
}

/// One higher-tier cluster of `total` cores.
pub fn homogeneous_cluster(total: u32) -> (r: Vec<(CoreKind, u32)>)
    ensures
        r@ == homogeneous(total),
{
    let mut v: Vec<(CoreKind, u32)> = Vec::new();
    v.push((CoreKind::Performance, total));
    assert(v@ =~= homogeneous(total));
    v
}

/// `p` with its clusters replaced.
pub open spec fn with_clusters(p: ChipView, c: Seq<(CoreKind, u32)>) -> ChipView {
    ChipView { clusters: c, ..p }
}

// ---------------------------------------------------------------------------
// Clock inference within a family
// ---------------------------------------------------------------------------

/// The widest gap between a measured clock and a SKU's published clock that
/// still counts as that SKU.
pub const CLOCK_TOLERANCE_MHZ: u32 = 180;

/// Index standing for the honest combined X2E-80/84-100 profile among candidates.
pub const IDX_X2E80_OR_84: usize = 31;

/// The combined X2E-80-100 / X2E-84-100 profile: both publish identical
/// CPU-visible specs, so neither is guessed.
pub open spec fn ambiguous_x2e_80_84() -> ChipView {
    ChipView { id: "X2E80OR84"@, model_match: ""@, model: "X2E-80/84-100"@, ..chip(IDX_X2E80) }
}

/// The profile a candidate index stands for.
pub open spec fn candidate(k: usize) -> ChipView {
    if k == IDX_X2E80_OR_84 {
        ambiguous_x2e_80_84()
    } else {
        chip(k)
    }
}

fn candidate_exec(k: usize) -> (c: ChipProfile)
    requires
        k <= IDX_X2E80_OR_84,
    ensures
        c@ == candidate(k),
{
    if k == IDX_X2E80_OR_84 {
        let mut c = chip_at(IDX_X2E80);
        c.id = "X2E80OR84".to_owned();
        c.model_match = "".to_owned();
        c.model = "X2E-80/84-100".to_owned();
        c
    } else {
        chip_at(k)
    }
}

/// SKU candidates `(published clock MHz, candidate index)` for a family and
/// core count.
pub open spec fn candidates(g: Gen, s: Option<Sub>, cores: u32) -> Seq<(u32, usize)> {
    match (g, s) {
        (Gen::X2, Some(Sub::Extreme)) => if cores == 18 {
            seq![(4700u32, IDX_X2EX94), (5000u32, IDX_X2EX96)]
        } else {
            Seq::empty()
        },
        (Gen::X2, Some(Sub::Plus)) => if cores == 10 {
            seq![(4000u32, IDX_X2P64)]
        } else if cores == 6 {
            seq![(4000u32, IDX_X2P42)]
        } else {
            Seq::empty()
        },
        (Gen::X2, _) => if cores == 18 {
            seq![(4700u32, IDX_X2E88), (5000u32, IDX_X2E90)]
        } else if cores == 12 {
            seq![(4000u32, IDX_X2E78), (4700u32, IDX_X2E80_OR_84)]
        } else {
            Seq::empty()
        },
        (Gen::X1, Some(Sub::Elite)) => if cores == 12 {
            seq![(3400u32, IDX_X1E78), (4000u32, IDX_X1E80), (4200u32, IDX_X1E84)]
        } else {
            Seq::empty()
        },
        (Gen::X1, Some(Sub::Plus)) => if cores == 8 {
            seq![(3400u32, IDX_X1P42), (4000u32, IDX_X1P46)]
        } else if cores == 10 {
            seq![(3400u32, IDX_X1P64), (4000u32, IDX_X1P66)]
        } else {
            Seq::empty()
        },
        (Gen::X1, Some(Sub::Extreme)) => Seq::empty(),
        (Gen::X1, None) => if cores == 8 {
            seq![(3000u32, IDX_X126)]
        } else {
            Seq::empty()
        },
    }
}

fn candidates_exec(g: Gen, s: Option<Sub>, cores: u32) -> (r: Vec<(u32, usize)>)
    ensures
        r@ == candidates(g, s, cores),
        forall|i: int| 0 <= i < r@.len() ==> #[trigger] r@[i].1 <= IDX_X2E80_OR_84,
{
    let mut v: Vec<(u32, usize)> = Vec::new();
    match (g, s) {
        (Gen::X2, Some(Sub::Extreme)) => {
            if cores == 18 {
                v.push((4700, IDX_X2EX94));
                v.push((5000, IDX_X2EX96));
            }
        },
        (Gen::X2, Some(Sub::Plus)) => {
            if cores == 10 {
                v.push((4000, IDX_X2P64));
            } else if cores == 6 {
                v.push((4000, IDX_X2P42));
            }
        },
        (Gen::X2, _) => {
            if cores == 18 {
                v.push((4700, IDX_X2E88));
                v.push((5000, IDX_X2E90));
            } else if cores == 12 {
                v.push((4000, IDX_X2E78));
                v.push((4700, IDX_X2E80_OR_84));
            }
        },
        (Gen::X1, Some(Sub::Elite)) => {
            if cores == 12 {
                v.push((3400, IDX_X1E78));
                v.push((4000, IDX_X1E80));
                v.push((4200, IDX_X1E84));
            }
        },
        (Gen::X1, Some(Sub::Plus)) => {
            if cores == 8 {
                v.push((3400, IDX_X1P42));
                v.push((4000, IDX_X1P46));
            } else if cores == 10 {
                v.push((3400, IDX_X1P64));
                v.push((4000, IDX_X1P66));
            }
        },
        (Gen::X1, Some(Sub::Extreme)) => {},
        (Gen::X1, None) => {
            if cores == 8 {
                v.push((3000, IDX_X126));
            }
        },
    }
    assert(v@ =~= candidates(g, s, cores));
    v
}

/// Distance between two clocks.
pub open spec fn clock_dist(a: u32, b: u32) -> nat {
    if a >= b {
        (a - b) as nat
    } else {
        (b - a) as nat
    }
}

/// Whether candidate `i` is the first of those nearest to `m`: no
/// candidate is closer, and every candidate before it is further.
pub open spec fn first_nearest(c: Seq<(u32, usize)>, m: u32, i: int) -> bool {
    &&& 0 <= i < c.len()
    &&& forall|j: int| 0 <= j < c.len() ==> clock_dist(c[i].0, m) <= clock_dist(#[trigger] c[j].0, m)
    &&& forall|j: int| 0 <= j < i ==> clock_dist(#[trigger] c[j].0, m) > clock_dist(c[i].0, m)
}

/// Index of the first candidate whose clock is nearest to `m`.
pub open spec fn nearest(c: Seq<(u32, usize)>, m: u32) -> int {
    choose|i: int| first_nearest(c, m, i)
}

/// The candidate nearest to the measured clock `m`, unless even that one is
/// further than the tolerance away.
pub open spec fn pick(m: u32, c: Seq<(u32, usize)>) -> Option<usize> {
    if c.len() == 0 {
        None
    } else if clock_dist(c[nearest(c, m)].0, m) <= CLOCK_TOLERANCE_MHZ {
        Some(c[nearest(c, m)].1)
    } else {
        None
    }
}

/// At most one candidate is the first nearest.
proof fn lemma_first_nearest_unique(c: Seq<(u32, usize)>, m: u32, i: int, k: int)
    requires
        first_nearest(c, m, i),
        first_nearest(c, m, k),
    ensures
        i == k,
{
    if i < k {
        assert(clock_dist(c[i].0, m) > clock_dist(c[k].0, m));
        assert(clock_dist(c[k].0, m) <= clock_dist(c[i].0, m));
    } else if k < i {
        assert(clock_dist(c[k].0, m) > clock_dist(c[i].0, m));
        assert(clock_dist(c[i].0, m) <= clock_dist(c[k].0, m));
    }
}

/// A nonempty candidate list has a first nearest candidate.
proof fn lemma_first_nearest_exists(c: Seq<(u32, usize)>, m: u32)
    requires
        c.len() > 0,
    ensures
        first_nearest(c, m, nearest(c, m)),
    decreases c.len(),
{
    if c.len() == 1 {
        assert(first_nearest(c, m, 0));
    } else {
        let d = c.drop_last();
        lemma_first_nearest_exists(d, m);
        let b = nearest(d, m);
        let l = c.len() - 1;
        if clock_dist(c[l].0, m) < clock_dist(c[b].0, m) {
            assert forall|j: int| 0 <= j < c.len() implies clock_dist(c[l].0, m) <= clock_dist(
                #[trigger] c[j].0,
                m,
            ) by {
                if j < l {
                    assert(c[j] == d[j]);
                }
            }
            assert forall|j: int| 0 <= j < l implies clock_dist(#[trigger] c[j].0, m) > clock_dist(
                c[l].0,
                m,
            ) by {
                assert(c[j] == d[j]);
            }
            assert(first_nearest(c, m, l));
        } else {
            assert forall|j: int| 0 <= j < c.len() implies clock_dist(c[b].0, m) <= clock_dist(
                #[trigger] c[j].0,
                m,
            ) by {
                if j < l {
                    assert(c[j] == d[j]);
                }
            }
            assert forall|j: int| 0 <= j < b implies clock_dist(#[trigger] c[j].0, m) > clock_dist(
                c[b].0,
                m,
            ) by {
                assert(c[j] == d[j]);
            }
            assert(first_nearest(c, m, b));
        }
    }
}

proof fn lemma_nearest_bounds(c: Seq<(u32, usize)>, m: u32)
    requires
        c.len() > 0,
    ensures
        0 <= nearest(c, m) < c.len(),
{
    lemma_first_nearest_exists(c, m);
}

fn dist_exec(a: u32, b: u32) -> (d: u32)
    ensures
        d == clock_dist(a, b),
{
    if a >= b {
        a - b
    } else {
        b - a
    }
}

/// Pick the candidate whose published clock is closest to `measured`
/// (the first of equally close ones), rejecting the match entirely if even
/// the closest one is further than the tolerance away.
pub fn pick_by_clock(measured: u32, c: &Vec<(u32, usize)>) -> (r: Option<usize>)
    ensures
        r == pick(measured, c@),
{
    if c.len() == 0 {
        return None;
    }
    let mut best: usize = 0;
    let mut i: usize = 1;
    assert(first_nearest(c@.take(1), measured, 0));
    while i < c.len()
        invariant
            1 <= i <= c.len(),
            best < i,
            first_nearest(c@.take(i as int), measured, best as int),
        decreases c.len() - i,
    {
        let ghost old_pre = c@.take(i as int);
        let ghost pre = c@.take(i + 1);
        let ghost ob = best as int;
        if dist_exec(c[i].0, measured) < dist_exec(c[best].0, measured) {
            best = i;
            assert forall|j: int| 0 <= j < pre.len() implies clock_dist(pre[i as int].0, measured)
                <= clock_dist(#[trigger] pre[j].0, measured) by {
                if j < i {
                    assert(pre[j] == old_pre[j]);
                    assert(clock_dist(old_pre[ob].0, measured) <= clock_dist(old_pre[j].0, measured));
                }
            }
            assert forall|j: int| 0 <= j < i implies clock_dist(#[trigger] pre[j].0, measured) > clock_dist(
                pre[i as int].0,
                measured,
            ) by {
                assert(pre[j] == old_pre[j]);
                assert(clock_dist(old_pre[ob].0, measured) <= clock_dist(old_pre[j].0, measured));
            }
        } else {
            assert forall|j: int| 0 <= j < pre.len() implies clock_dist(pre[ob].0, measured)
                <= clock_dist(#[trigger] pre[j].0, measured) by {
                if j < i {
                    assert(pre[j] == old_pre[j]);
                }
            }
            assert forall|j: int| 0 <= j < ob implies clock_dist(#[trigger] pre[j].0, measured) > clock_dist(
                pre[ob].0,
                measured,
            ) by {
                assert(pre[j] == old_pre[j]);
            }
        }
        i = i + 1;
    }
    assert(c@.take(i as int) =~= c@);
    proof {
        lemma_first_nearest_exists(c@, measured);
        lemma_first_nearest_unique(c@, measured, best as int, nearest(c@, measured));
    }
    if dist_exec(c[best].0, measured) <= CLOCK_TOLERANCE_MHZ {
        Some(c[best].1)
    } else {
        None
    }
}

/// The measured clocks tried in order: X2 firmware may report boot-time
/// cluster clocks via `~MHz`, so X2 prefers the clock in the name and then
/// `~MHz`; X1 uses `~MHz` only.
pub open spec fn signals(g: Gen, v: IdentityView) -> (Option<u32>, Option<u32>) {
    match g {
        Gen::X2 => (clock_of(lowered_name(v)), max_of(v.per_core_mhz)),
        Gen::X1 => (max_of(v.per_core_mhz), None),
    }
}

/// `pick` on a signal that may be missing.
pub open spec fn try_pick(m: Option<u32>, c: Seq<(u32, usize)>) -> Option<usize> {
    match m {
        Some(x) => pick(x, c),
        None => None,
    }
}

/// Stage C: the SKU within a family inferred from core count + rated clock.
pub open spec fn inferred(g: Gen, s: Option<Sub>, v: IdentityView) -> Option<ChipView> {
    let c = candidates(g, s, v.logical_cores);
    let k = match try_pick(signals(g, v).0, c) {
        Some(k) => Some(k),
        None => try_pick(signals(g, v).1, c),
    };
    match k {
        Some(k) => Some(
            with_clusters(candidate(k), resolved(v, v.logical_cores, candidate(k).clusters)),
        ),
        None => None,
    }
}

fn try_pick_exec(m: Option<u32>, c: &Vec<(u32, usize)>) -> (r: Option<usize>)
    ensures
        r == try_pick(m, c@),
{
    match m {
        Some(x) => pick_by_clock(x, c),
        None => None,
    }
}

/// Stage C: within a known family, infer the exact SKU from real core count
/// + real rated clock.
pub fn infer_within_family(g: Gen, s: Option<Sub>, id: &CpuIdentity) -> (r: Option<ChipProfile>)
    ensures
        match r {
            Some(p) => inferred(g, s, id@) == Some(p@),
            None => inferred(g, s, id@) is None,
        },
{
    let cores = id.logical_cores;
    let c = candidates_exec(g, s, cores);
    let (first, second) = match g {
        Gen::X2 => (id.name_clock_mhz(), id.max_mhz()),
        Gen::X1 => (id.max_mhz(), None),
    };
    let k = match try_pick_exec(first, &c) {
        Some(k) => Some(k),
        None => try_pick_exec(second, &c),
    };
    match k {
        Some(k) => {
            assert(k <= IDX_X2E80_OR_84) by {
                let cs = c@;
                let m = if try_pick(signals(g, id@).0, cs) is Some { signals(g, id@).0->0 } else { signals(g, id@).1->0 };
                lemma_nearest_bounds(cs, m);
                assert(cs[nearest(cs, m)].1 <= IDX_X2E80_OR_84);
            }
            let mut p = candidate_exec(k);
            let mut fb: Vec<(CoreKind, u32)> = Vec::new();
            std::mem::swap(&mut fb, &mut p.clusters);
            p.clusters = resolve_clusters(id, cores, fb);
            Some(p)
        },
        None => None,
    }
}


// ---------------------------------------------------------------------------
// Family and vendor fallbacks
// ---------------------------------------------------------------------------

/// The boost clock shown for a recognized family with no SKU match: the
/// real measured clock (X2: name clock, else `~MHz`; X1: `~MHz`), 0 if none.
pub open spec fn fallback_boost(g: Gen, v: IdentityView) -> u32 {
    match g {
        Gen::X2 => match clock_of(lowered_name(v)) {
            Some(m) => m,
            None => match max_of(v.per_core_mhz) {
                Some(m) => m,
                None => 0,
            },
        },
        Gen::X1 => match max_of(v.per_core_mhz) {
            Some(m) => m,
            None => 0,
        },
    }
}

/// `(name, model)` labels for a recognized family with no SKU match.
pub open spec fn family_labels(g: Gen, s: Option<Sub>) -> (Seq<char>, Seq<char>) {
    match (g, s) {
        (Gen::X2, Some(Sub::Extreme)) => ("Snapdragon X2 Elite Extreme"@, "Unknown X2 Elite Extreme SKU"@),
        (Gen::X2, Some(Sub::Plus)) => ("Snapdragon X2 Plus"@, "Unknown X2 Plus SKU"@),
        (Gen::X2, _) => ("Snapdragon X2 Elite"@, "Unknown X2 Elite SKU"@),
        (Gen::X1, Some(Sub::Plus)) => ("Snapdragon X Plus"@, "Unknown X Plus SKU"@),
        (Gen::X1, Some(_)) => ("Snapdragon X Elite"@, "Unknown X Elite SKU"@),
        (Gen::X1, None) => ("Snapdragon X"@, "Unknown Snapdragon X SKU"@),
    }
}

/// Stage D: the honest family profile for a recognized family with no SKU
/// match.
pub open spec fn family_profile(g: Gen, s: Option<Sub>, v: IdentityView) -> ChipView {
    let cores = v.logical_cores;
    ChipView {
        clusters: resolved(v, cores, if g == Gen::X2 { heuristic(cores) } else { homogeneous(cores) }),
        id: "FAM"@,
        name: family_labels(g, s).0,
        model_match: ""@,
        model: family_labels(g, s).1,
        tjmax_c: if g == Gen::X2 { 105 } else { 100 },
        base_mhz: 0,
        boost_mhz: fallback_boost(g, v),
        tdp_w: 0,
        uarch: if g == Gen::X2 { "Oryon 3"@ } else { "Oryon"@ },
        lithography: if g == Gen::X2 { "3 nm"@ } else { "4 nm"@ },
        core_naming: if g == Gen::X2 { CoreNaming::PrimePerformance } else { CoreNaming::UniformPerformance },
    }
}

fn family_labels_exec(g: Gen, s: Option<Sub>) -> (r: (&'static str, &'static str))
    ensures
        r.0@ == family_labels(g, s).0,
        r.1@ == family_labels(g, s).1,
{
    match (g, s) {
        (Gen::X2, Some(Sub::Extreme)) => ("Snapdragon X2 Elite Extreme", "Unknown X2 Elite Extreme SKU"),
        (Gen::X2, Some(Sub::Plus)) => ("Snapdragon X2 Plus", "Unknown X2 Plus SKU"),
        (Gen::X2, _) => ("Snapdragon X2 Elite", "Unknown X2 Elite SKU"),
        (Gen::X1, Some(Sub::Plus)) => ("Snapdragon X Plus", "Unknown X Plus SKU"),
        (Gen::X1, Some(_)) => ("Snapdragon X Elite", "Unknown X Elite SKU"),
        (Gen::X1, None) => ("Snapdragon X", "Unknown Snapdragon X SKU"),
    }
}

/// Stage D: a recognized family with no SKU candidate: label the family
/// honestly, with the boost clock taken from the real measured clock.
pub fn family_fallback(g: Gen, s: Option<Sub>, id: &CpuIdentity) -> (r: ChipProfile)
    ensures
        r@ == family_profile(g, s, id@),
{
    let cores = id.logical_cores;
    let boost = match g {
        Gen::X2 => match id.name_clock_mhz() {
            Some(m) => m,
            None => match id.max_mhz() {
                Some(m) => m,
                None => 0,
            },
        },
        Gen::X1 => match id.max_mhz() {
            Some(m) => m,
            None => 0,
        },
    };
    let fallback = match g {
        Gen::X2 => heuristic_pe_clusters(cores),
        Gen::X1 => homogeneous_cluster(cores),
    };
    let (name, model) = family_labels_exec(g, s);
    let x2 = match g {
        Gen::X2 => true,
        Gen::X1 => false,
    };
    ChipProfile {
        clusters: resolve_clusters(id, cores, fallback),
        id: "FAM".to_owned(),
        name: name.to_owned(),
        model_match: "".to_owned(),
        model: model.to_owned(),
        tjmax_c: if x2 { 105 } else { 100 },
        base_mhz: 0,
        boost_mhz: boost,
        tdp_w: 0,
        uarch: if x2 { "Oryon 3".to_owned() } else { "Oryon".to_owned() },
        lithography: if x2 { "3 nm".to_owned() } else { "4 nm".to_owned() },
        core_naming: if x2 { CoreNaming::PrimePerformance } else { CoreNaming::UniformPerformance },
    }
}

/// The lowercased vendor string (empty vendor when absent).
pub open spec fn vendor_lower(v: IdentityView) -> Seq<char> {
    lowercase(text_or_empty(v.vendor))
}

/// Whether the name or the vendor mentions `word`.
pub open spec fn mentions(v: IdentityView, word: Seq<char>) -> bool {
    has_sub(normalized(v), word) || has_sub(vendor_lower(v), word)
}

/// `(name, model, naming)` for a recognized non-Snapdragon-X vendor or family.
pub open spec fn vendor_labels(v: IdentityView) -> Option<(Seq<char>, Seq<char>, CoreNaming)> {
    if mentions(v, "broadcom"@) {
        Some(("Broadcom"@, "Unknown Broadcom SKU"@, CoreNaming::UniformPerformance))
    } else if mentions(v, "mediatek"@) {
        Some(("MediaTek"@, "Unknown MediaTek SKU"@, CoreNaming::PerformanceEfficiency))
    } else if mentions(v, "nvidia"@) {
        Some(("NVIDIA"@, "Unknown NVIDIA SKU"@, CoreNaming::PerformanceEfficiency))
    } else if mentions(v, "qualcomm"@) {
        Some(("Snapdragon (legacy)"@, "Unknown Snapdragon SKU"@, CoreNaming::PerformanceEfficiency))
    } else {
        None
    }
}

/// Stage E: the honest vendor/family profile, never an invented SKU.
pub open spec fn vendor_profile(v: IdentityView) -> Option<ChipView> {
    match vendor_labels(v) {
        None => None,
        Some((name, model, naming)) => {
            let cores = v.logical_cores;
            Some(ChipView {
                clusters: resolved(v, cores, if naming == CoreNaming::UniformPerformance {
                    homogeneous(cores)
                } else {
                    heuristic(cores)
                }),
                id: "VEND"@,
                name,
                model_match: ""@,
                model,
                tjmax_c: 100,
                base_mhz: 0,
                boost_mhz: match max_of(v.per_core_mhz) {
                    Some(m) => m,
                    None => 0,
                },
                tdp_w: 0,
                uarch: ""@,
                lithography: ""@,
                core_naming: naming,
            })
        },
    }
}

/// The lowercased vendor's characters.
fn vendor_lower_chars(id: &CpuIdentity) -> (r: Vec<char>)
    ensures
        r@ == vendor_lower(id@),
{
    let l = match &id.vendor {
        Some(v) => to_lowercase(v.as_str()),
        None => {
            proof {
                reveal_strlit("");
            }
            assert(""@ =~= Seq::<char>::empty());
            to_lowercase("")
        },
    };
    chars_of(l.as_str())
}

fn mentions_exec(n: &Vec<char>, vl: &Vec<char>, word: &str) -> (r: bool)
    ensures
        r == (has_sub(n@, word@) || has_sub(vl@, word@)),
{
    contains_str(n, word) || contains_str(vl, word)
}

/// Stage E: a known non-Snapdragon-X vendor/family with no SKU token.
pub fn vendor_family_fallback(id: &CpuIdentity, n: &Vec<char>) -> (r: Option<Detection>)
    requires
        n@ == normalized(id@),
    ensures
        match r {
            Some(d) => vendor_profile(id@) == Some(d.profile@) && d.basis == MatchBasis::FamilyOnly,
            None => vendor_profile(id@) is None,
        },
{
    let vl = vendor_lower_chars(id);
    let cores = id.logical_cores;
    let (name, model, naming): (&'static str, &'static str, CoreNaming) = if mentions_exec(n, &vl, "broadcom") {
        ("Broadcom", "Unknown Broadcom SKU", CoreNaming::UniformPerformance)
    } else if mentions_exec(n, &vl, "mediatek") {
        ("MediaTek", "Unknown MediaTek SKU", CoreNaming::PerformanceEfficiency)
    } else if mentions_exec(n, &vl, "nvidia") {
        ("NVIDIA", "Unknown NVIDIA SKU", CoreNaming::PerformanceEfficiency)
    } else if mentions_exec(n, &vl, "qualcomm") {
        ("Snapdragon (legacy)", "Unknown Snapdragon SKU", CoreNaming::PerformanceEfficiency)
    } else {
        return None;
    };
    let fallback = match naming {
        CoreNaming::UniformPerformance => homogeneous_cluster(cores),
        _ => heuristic_pe_clusters(cores),
    };
    let boost = match id.max_mhz() {
        Some(m) => m,
        None => 0,
    };
    Some(Detection {
        profile: ChipProfile {
            clusters: resolve_clusters(id, cores, fallback),
            id: "VEND".to_owned(),
            name: name.to_owned(),
            model_match: "".to_owned(),
            model: model.to_owned(),
            tjmax_c: 100,
            base_mhz: 0,
            boost_mhz: boost,
            tdp_w: 0,
            uarch: "".to_owned(),
            lithography: "".to_owned(),
            core_naming: naming,
        },
        basis: MatchBasis::FamilyOnly,
    })
}

/// The name for an unrecognized chip: "<vendor> CPU" from the trimmed
/// vendor string, or "ARM64 CPU" when there is no non-blank vendor.
pub open spec fn generic_name(v: IdentityView) -> Seq<char> {
    match v.vendor {
        Some(s) => if trim(s).len() > 0 {
            trim(s) + " CPU"@
        } else {
            "ARM64 CPU"@
        },
        None => "ARM64 CPU"@,
    }
}

/// Stage F: nothing recognized at all.
pub open spec fn generic_profile(v: IdentityView) -> ChipView {
    let cores = v.logical_cores;
    ChipView {
        clusters: resolved(v, cores, if cores >= 12 { heuristic(cores) } else { homogeneous(cores) }),
        id: "GEN"@,
        name: generic_name(v),
        model_match: ""@,
        model: "Unknown"@,
        tjmax_c: if cores >= 12 { 105 } else { 100 },
        base_mhz: 0,
        boost_mhz: 0,
        tdp_w: 0,
        uarch: ""@,
        lithography: ""@,
        core_naming: CoreNaming::PerformanceEfficiency,
    }
}

/// Appends the characters of `t` to `s`.
fn append_str(s: &mut String, t: &str)
    ensures
        final(s)@ == old(s)@ + t@,
{
    let tv = chars_of(t);
    let ghost start = s@;
    let mut i: usize = 0;
    while i < tv.len()
        invariant
            i <= tv.len(),
            tv@ == t@,
            s@ == start + tv@.take(i as int),
        decreases tv.len() - i,
    {
        crate::text::push_char(s, tv[i]);
        assert(tv@.take(i + 1) =~= tv@.take(i as int).push(tv@[i as int]));
        i = i + 1;
    }
    assert(tv@.take(i as int) =~= tv@);
}

fn generic_name_exec(id: &CpuIdentity) -> (r: String)
    ensures
        r@ == generic_name(id@),
{
    match &id.vendor {
        Some(v) => {
            let cv = chars_of(v.as_str());
            let b = trim_start_index(&cv, 0, cv.len());
            let e = trim_end_index(&cv, b, cv.len());
            assert(cv@.subrange(0, cv@.len() as int) =~= cv@);
            if e > b {
                let mut s = string_of(&cv, b, e);
                append_str(&mut s, " CPU");
                s
            } else {
                "ARM64 CPU".to_owned()
            }
        },
        None => "ARM64 CPU".to_owned(),
    }
}

/// Stage F: nothing recognized; uses the real vendor string when present,
/// never claiming "Snapdragon" for a chip that isn't one.
pub fn generic_fallback(id: &CpuIdentity) -> (r: Detection)
    ensures
        r.profile@ == generic_profile(id@),
        r.basis == MatchBasis::Generic,
{
    let cores = id.logical_cores;
    let fallback = if cores >= 12 {
        heuristic_pe_clusters(cores)
    } else {
        homogeneous_cluster(cores)
    };
    Detection {
        profile: ChipProfile {
            clusters: resolve_clusters(id, cores, fallback),
            id: "GEN".to_owned(),
            name: generic_name_exec(id),
            model_match: "".to_owned(),
            model: "Unknown".to_owned(),
            tjmax_c: if cores >= 12 { 105 } else { 100 },
            base_mhz: 0,
            boost_mhz: 0,
            tdp_w: 0,
            uarch: "".to_owned(),
            lithography: "".to_owned(),
            core_naming: CoreNaming::PerformanceEfficiency,
        },
        basis: MatchBasis::Generic,
    }
}


// ---------------------------------------------------------------------------
// Family detection and the full match
// ---------------------------------------------------------------------------

/// Guards the bare-"snapdragon" branch of `family`: every legacy Qualcomm
/// chip's name also says "Snapdragon".
pub open spec fn legacy_guard(n: Seq<char>) -> bool {
    has_sub(n, "835"@) || has_sub(n, "850"@) || has_sub(n, "7c"@) || has_sub(n, "8c"@) || has_sub(
        n,
        "sq1"@,
    ) || has_sub(n, "sq2"@) || has_sub(n, "sq3"@)
}

/// X2 subfamily from the normalized name.
pub open spec fn x2_sub(n: Seq<char>) -> Option<Sub> {
    if has_sub(n, "extreme"@) {
        Some(Sub::Extreme)
    } else if has_sub(n, "plus"@) {
        Some(Sub::Plus)
    } else if has_sub(n, "elite"@) {
        Some(Sub::Elite)
    } else {
        None
    }
}

/// X1 subfamily from the normalized name.
pub open spec fn x1_sub(n: Seq<char>) -> Option<Sub> {
    if has_sub(n, "elite"@) {
        Some(Sub::Elite)
    } else if has_sub(n, "plus"@) {
        Some(Sub::Plus)
    } else {
        None
    }
}

/// Whether the vendor string (lowercased) mentions Qualcomm; false with no vendor.
pub open spec fn vendor_is_qualcomm(v: IdentityView) -> bool {
    match v.vendor {
        Some(s) => has_sub(lowercase(s), "qualcomm"@),
        None => false,
    }
}

/// The Oryon generation from the `Identifier`, if any.
pub open spec fn identifier_generation(v: IdentityView) -> Option<u32> {
    match v.identifier {
        Some(i) => generation_of(i),
        None => None,
    }
}

/// Whether the identity shows it is a Snapdragon at all: "snapdragon" in
/// the normalized name, or a Qualcomm vendor.
pub open spec fn snapdragon_evidence(v: IdentityView) -> bool {
    has_sub(normalized(v), "snapdragon"@) || vendor_is_qualcomm(v)
}

/// Stage B: Snapdragon X family + subfamily from the name, read only when
/// the identity shows Snapdragon evidence; with no usable name text, the
/// `Identifier`'s Oryon generation, but only for a Qualcomm vendor. `None`
/// for anything that is not Snapdragon-X-shaped.
pub open spec fn family(v: IdentityView) -> Option<(Gen, Option<Sub>)> {
    let n = normalized(v);
    if n.len() > 0 && snapdragon_evidence(v) && has_sub(n, "x2"@) {
        Some((Gen::X2, x2_sub(n)))
    } else if n.len() > 0 && snapdragon_evidence(v) && has_sub(n, "x1"@) {
        Some((Gen::X1, x1_sub(n)))
    } else if n.len() > 0 && has_sub(n, "snapdragon"@) && !legacy_guard(n) {
        Some((Gen::X1, None))
    } else if !vendor_is_qualcomm(v) {
        None
    } else {
        match identifier_generation(v) {
            Some(g) => if g == 2 {
                Some((Gen::X2, None))
            } else if g == 1 {
                Some((Gen::X1, None))
            } else {
                None
            },
            None => None,
        }
    }
}

/// Only an identity with Snapdragon evidence (the word in its name, or a
/// Qualcomm vendor) gets a Snapdragon X family: an ARM chip of another
/// vendor whose name holds "x1" or "x2" gets none.
pub proof fn lemma_family_needs_snapdragon_evidence(v: IdentityView)
    ensures
        family(v) is Some ==> snapdragon_evidence(v),
{
}

fn legacy_guard_exec(n: &Vec<char>) -> (r: bool)
    ensures
        r == legacy_guard(n@),
{
    contains_str(n, "835") || contains_str(n, "850") || contains_str(n, "7c") || contains_str(n, "8c")
        || contains_str(n, "sq1") || contains_str(n, "sq2") || contains_str(n, "sq3")
}

/// Stage B in exec code; `n` is the normalized name.
pub fn detect_family(id: &CpuIdentity, n: &Vec<char>) -> (r: Option<(Gen, Option<Sub>)>)
    requires
        n@ == normalized(id@),
    ensures
        r == family(id@),
{
    let vendor_is_qualcomm = match &id.vendor {
        Some(v) => {
            let l = to_lowercase(v.as_str());
            let lc = chars_of(l.as_str());
            contains_str(&lc, "qualcomm")
        },
        None => false,
    };
    let evidence = contains_str(n, "snapdragon") || vendor_is_qualcomm;
    if n.len() > 0 && evidence {
        if contains_str(n, "x2") {
            let sub = if contains_str(n, "extreme") {
                Some(Sub::Extreme)
            } else if contains_str(n, "plus") {
                Some(Sub::Plus)
            } else if contains_str(n, "elite") {
                Some(Sub::Elite)
            } else {
                None
            };
            return Some((Gen::X2, sub));
        }
        if contains_str(n, "x1") {
            let sub = if contains_str(n, "elite") {
                Some(Sub::Elite)
            } else if contains_str(n, "plus") {
                Some(Sub::Plus)
            } else {
                None
            };
            return Some((Gen::X1, sub));
        }
    }
    if n.len() > 0 && contains_str(n, "snapdragon") && !legacy_guard_exec(n) {
        return Some((Gen::X1, None));
    }
    if !vendor_is_qualcomm {
        return None;
    }
    match id.oryon_generation() {
        Some(2) => Some((Gen::X2, None)),
        Some(1) => Some((Gen::X1, None)),
        _ => None,
    }
}

/// The first table row at or after `i` whose token occurs in `n`.
pub open spec fn token_match_from(n: Seq<char>, i: usize) -> Option<usize>
    decreases CHIP_COUNT - i,
{
    if i >= CHIP_COUNT {
        None
    } else if has_sub(n, chip(i).model_match) {
        Some(i)
    } else {
        token_match_from(n, (i + 1) as usize)
    }
}

/// The whole detection: stages A to F in order, the first that applies.
pub open spec fn detect(v: IdentityView) -> (ChipView, MatchBasis) {
    let n = normalized(v);
    let token = if n.len() > 0 { token_match_from(n, 0) } else { None };
    match token {
        Some(i) => (with_clusters(chip(i), resolved(v, v.logical_cores, chip(i).clusters)), MatchBasis::SkuToken),
        None => match family(v) {
            Some((g, s)) => match inferred(g, s, v) {
                Some(p) => (p, MatchBasis::Inferred),
                None => (family_profile(g, s, v), MatchBasis::FamilyOnly),
            },
            None => match vendor_profile(v) {
                Some(p) => (p, MatchBasis::FamilyOnly),
                None => (generic_profile(v), MatchBasis::Generic),
            },
        },
    }
}

/// Stage A in exec code.
fn token_match(n: &Vec<char>) -> (r: Option<usize>)
    ensures
        r == token_match_from(n@, 0),
        r matches Some(i) ==> i < CHIP_COUNT,
{
    let mut i: usize = 0;
    while i < CHIP_COUNT
        invariant
            i <= CHIP_COUNT,
            token_match_from(n@, 0) == token_match_from(n@, i),
        decreases CHIP_COUNT - i,
    {
        let c = chip_at(i);
        let mm = chars_of(c.model_match.as_str());
        if crate::text::contains(n, &mm) {
            return Some(i);
        }
        i = i + 1;
    }
    None
}

/// Match the detected CPU identity against the profile table. Always
/// returns something usable; the real OS topology overrides every matched
/// profile's static clusters when it is consistent with the core count.
pub fn match_profile(id: &CpuIdentity) -> (d: Detection)
    ensures
        (d.profile@, d.basis) == detect(id@),
{
    let n = id.normalized_chars();
    if n.len() > 0 {
        if let Some(i) = token_match(&n) {
            let mut p = chip_at(i);
            let mut fb: Vec<(CoreKind, u32)> = Vec::new();
            std::mem::swap(&mut fb, &mut p.clusters);
            p.clusters = resolve_clusters(id, id.logical_cores, fb);
            return Detection { profile: p, basis: MatchBasis::SkuToken };
        }
    }
    if let Some((g, s)) = detect_family(id, &n) {
        if let Some(p) = infer_within_family(g, s, id) {
            return Detection { profile: p, basis: MatchBasis::Inferred };
        }
        return Detection { profile: family_fallback(g, s, id), basis: MatchBasis::FamilyOnly };
    }
    if let Some(d) = vendor_family_fallback(id, &n) {
        return d;
    }
    generic_fallback(id)
}


/// The first table row at or after `i` whose id is `id`.
pub open spec fn id_index_from(id: Seq<char>, i: usize) -> Option<usize>
    decreases CHIP_COUNT - i,
{
    if i >= CHIP_COUNT {
        None
    } else if chip(i).id == id {
        Some(i)
    } else {
        id_index_from(id, (i + 1) as usize)
    }
}

/// The table row with the given id (the first, ids being unique).
pub fn chip_by_id(id: &str) -> (c: ChipProfile)
    requires
        id_index_from(id@, 0) is Some,
    ensures
        c@ == chip(id_index_from(id@, 0)->0),
{
    let want: String = id.to_owned();
    let mut i: usize = 0;
    while i < CHIP_COUNT
        invariant
            i <= CHIP_COUNT,
            want@ == id@,
            id_index_from(id@, 0) == id_index_from(id@, i),
        decreases CHIP_COUNT - i,
    {
        let c = chip_at(i);
        if c.id == want {
            return c;
        }
        i = i + 1;
    }
    chip_at(0)
}

// ---------------------------------------------------------------------------
// Properties of detection
// ---------------------------------------------------------------------------

/// Clock inference picks a SKU exactly when some candidate's clock is within
/// the tolerance of the measured clock, and what it picks is the candidate
/// first in order among those at the least distance.
pub proof fn lemma_pick_law(m: u32, c: Seq<(u32, usize)>)
    ensures
        pick(m, c) is Some <==> exists|j: int|
            0 <= j < c.len() && clock_dist(#[trigger] c[j].0, m) <= CLOCK_TOLERANCE_MHZ,
        pick(m, c) matches Some(k) ==> exists|i: int| first_nearest(c, m, i) && #[trigger] c[i].1 == k,
{
    if c.len() > 0 {
        lemma_first_nearest_exists(c, m);
        let i = nearest(c, m);
        if exists|j: int| 0 <= j < c.len() && clock_dist(#[trigger] c[j].0, m) <= CLOCK_TOLERANCE_MHZ {
            let j = choose|j: int| 0 <= j < c.len() && clock_dist(#[trigger] c[j].0, m) <= CLOCK_TOLERANCE_MHZ;
            assert(clock_dist(c[i].0, m) <= clock_dist(c[j].0, m));
        }
        if pick(m, c) is Some {
            assert(clock_dist(c[i].0, m) <= CLOCK_TOLERANCE_MHZ);
            assert(first_nearest(c, m, i) && c[i].1 == pick(m, c)->0);
        }
    }
}

/// What `pick` returns is one of the candidates, and its clock is within
/// the tolerance of the measured clock.
pub proof fn lemma_pick_member(m: u32, c: Seq<(u32, usize)>)
    ensures
        pick(m, c) matches Some(k) ==> exists|i: int|
            0 <= i < c.len() && c[i].1 == k && clock_dist(#[trigger] c[i].0, m) <= CLOCK_TOLERANCE_MHZ,
{
    if c.len() > 0 {
        lemma_nearest_bounds(c, m);
        let i = nearest(c, m);
        if pick(m, c) is Some {
            assert(c[i].1 == pick(m, c)->0 && clock_dist(c[i].0, m) <= CLOCK_TOLERANCE_MHZ);
        }
    }
}

proof fn lemma_two_tier_total(p: u32, e: u32)
    ensures
        cluster_total(two_tier(p, e)) == p + e,
{
    reveal_with_fuel(cluster_total, 3);
    let t = two_tier(p, e);
    if e == 0 {
        assert(t.drop_last() =~= Seq::<(CoreKind, u32)>::empty());
    } else {
        assert(t.drop_last() =~= seq![(CoreKind::Performance, p)]);
        assert(t.drop_last().drop_last() =~= Seq::<(CoreKind, u32)>::empty());
    }
}

proof fn lemma_topology_total(p: u32, e: u32)
    ensures
        cluster_total(topology(p, e)) == p + e,
{
    reveal_with_fuel(cluster_total, 3);
    let t = topology(p, e);
    if p > 0 && e > 0 {
        assert(t =~= seq![(CoreKind::Performance, p), (CoreKind::Efficiency, e)]);
        assert(t.drop_last() =~= seq![(CoreKind::Performance, p)]);
        assert(t.drop_last().drop_last() =~= Seq::<(CoreKind, u32)>::empty());
    } else if p > 0 {
        assert(t =~= seq![(CoreKind::Performance, p)]);
        assert(t.drop_last() =~= Seq::<(CoreKind, u32)>::empty());
    } else if e > 0 {
        assert(t =~= seq![(CoreKind::Efficiency, e)]);
        assert(t.drop_last() =~= Seq::<(CoreKind, u32)>::empty());
    } else {
        assert(t =~= Seq::<(CoreKind, u32)>::empty());
    }
}

proof fn lemma_heuristic_total(n: u32)
    ensures
        cluster_total(heuristic(n)) == n,
        cluster_total(homogeneous(n)) == n,
{
    lemma_two_tier_total(heuristic_split(n).0, heuristic_split(n).1);
    lemma_two_tier_total(n, 0);
    assert(homogeneous(n) =~= two_tier(n, 0));
}

proof fn lemma_resolved_total(v: IdentityView, cores: u32, fallback: Seq<(CoreKind, u32)>)
    requires
        cluster_total(fallback) == cores,
    ensures
        cluster_total(resolved(v, cores, fallback)) == cores,
{
    if let (Some(p), Some(e)) = (v.perf_cores, v.eff_cores) {
        lemma_topology_total(p, e);
    }
}

/// Every SKU candidate's static clusters add up to the core count it is a
/// candidate for, and its published clock is its boost clock.
proof fn lemma_candidates_fit(g: Gen, s: Option<Sub>, cores: u32)
    ensures
        forall|i: int| 0 <= i < candidates(g, s, cores).len() ==> {
            let k = #[trigger] candidates(g, s, cores)[i];
            &&& cluster_total(candidate(k.1).clusters) == cores
            &&& candidate(k.1).boost_mhz == k.0
        },
{
    assert forall|i: int| 0 <= i < candidates(g, s, cores).len() implies {
        let k = #[trigger] candidates(g, s, cores)[i];
        &&& cluster_total(candidate(k.1).clusters) == cores
        &&& candidate(k.1).boost_mhz == k.0
    } by {
        let k = candidates(g, s, cores)[i];
        let c = candidate(k.1);
        lemma_two_tier_total(c.clusters[0].1, if c.clusters.len() > 1 { c.clusters[1].1 } else { 0 });
        assert(c.clusters =~= two_tier(c.clusters[0].1, if c.clusters.len() > 1 { c.clusters[1].1 } else { 0 }));
    }
}

/// Whenever the OS reports a P/E topology that adds up to the detected
/// (nonzero) core count, the detected profile's clusters are exactly that
/// topology, whatever stage produced the profile.
pub proof fn lemma_topology_overrides(v: IdentityView)
    requires
        v.perf_cores is Some,
        v.eff_cores is Some,
        v.logical_cores > 0,
        v.perf_cores->0 + v.eff_cores->0 == v.logical_cores,
    ensures
        detect(v).0.clusters == topology(v.perf_cores->0, v.eff_cores->0),
{
}

/// A profile that did not come from an exact SKU token accounts for
/// exactly the detected number of logical cores.
pub proof fn lemma_inferred_and_fallback_cover_all_cores(v: IdentityView)
    requires
        detect(v).1 != MatchBasis::SkuToken,
    ensures
        cluster_total(detect(v).0.clusters) == v.logical_cores,
{
    let cores = v.logical_cores;
    lemma_heuristic_total(cores);
    match family(v) {
        Some((g, s)) => {
            let c = candidates(g, s, cores);
            lemma_candidates_fit(g, s, cores);
            match inferred(g, s, v) {
                Some(p) => {
                    let k = match try_pick(signals(g, v).0, c) {
                        Some(k) => k,
                        None => try_pick(signals(g, v).1, c)->0,
                    };
                    if try_pick(signals(g, v).0, c) is Some {
                        lemma_pick_member(signals(g, v).0->0, c);
                    } else {
                        lemma_pick_member(signals(g, v).1->0, c);
                    }
                    let i = choose|i: int| 0 <= i < c.len() && c[i].1 == k && clock_dist(#[trigger] c[i].0, if try_pick(signals(g, v).0, c) is Some { signals(g, v).0->0 } else { signals(g, v).1->0 }) <= CLOCK_TOLERANCE_MHZ;
                    assert(cluster_total(candidate(c[i].1).clusters) == cores);
                    lemma_resolved_total(v, cores, candidate(k).clusters);
                },
                None => {
                    lemma_resolved_total(v, cores, if g == Gen::X2 { heuristic(cores) } else { homogeneous(cores) });
                },
            }
        },
        None => {
            match vendor_labels(v) {
                Some((name, model, naming)) => {
                    lemma_resolved_total(v, cores, if naming == CoreNaming::UniformPerformance { homogeneous(cores) } else { heuristic(cores) });
                },
                None => {
                    lemma_resolved_total(v, cores, if cores >= 12 { heuristic(cores) } else { homogeneous(cores) });
                },
            }
        },
    }
}

/// The generation of the recognized family (X1 when none is recognized).
pub open spec fn family_gen(v: IdentityView) -> Gen {
    match family(v) {
        Some((g, _)) => g,
        None => Gen::X1,
    }
}

/// An inferred SKU's boost clock lies within the clock tolerance of a
/// real measured clock of the identity (for X2 the clock in the name or the
/// highest `~MHz`, for X1 the highest `~MHz`).
pub proof fn lemma_inferred_clock_within_tolerance(v: IdentityView)
    requires
        detect(v).1 == MatchBasis::Inferred,
    ensures
        family(v) is Some,
        exists|m: u32|
            (signals(family_gen(v), v).0 == Some(m) || signals(family_gen(v), v).1 == Some(m))
                && #[trigger] clock_dist(detect(v).0.boost_mhz, m) <= CLOCK_TOLERANCE_MHZ,
{
    let (g, s) = family(v)->0;
    let cores = v.logical_cores;
    let c = candidates(g, s, cores);
    lemma_candidates_fit(g, s, cores);
    let m = if try_pick(signals(g, v).0, c) is Some { signals(g, v).0->0 } else { signals(g, v).1->0 };
    lemma_pick_member(m, c);
    let k = try_pick(if try_pick(signals(g, v).0, c) is Some { signals(g, v).0 } else { signals(g, v).1 }, c)->0;
    let i = choose|i: int| 0 <= i < c.len() && c[i].1 == k && clock_dist(#[trigger] c[i].0, m) <= CLOCK_TOLERANCE_MHZ;
    assert(candidate(c[i].1).boost_mhz == c[i].0);
    assert(clock_dist(detect(v).0.boost_mhz, m) <= CLOCK_TOLERANCE_MHZ);
}

/// An exact-SKU detection names a table row whose nonempty token
/// occurs in the normalized CPU name.
pub proof fn lemma_token_basis_has_token(v: IdentityView)
    requires
        detect(v).1 == MatchBasis::SkuToken,
    ensures
        has_sub(normalized(v), detect(v).0.model_match),
        exists|i: usize| i < CHIP_COUNT && detect(v).0.model == #[trigger] chip(i).model,
{
    let n = normalized(v);
    lemma_token_match_found(n, 0);
    let i = token_match_from(n, 0)->0;
    assert(detect(v).0.model == chip(i).model);
}

proof fn lemma_token_match_found(n: Seq<char>, i: usize)
    ensures
        token_match_from(n, i) matches Some(k) ==> k < CHIP_COUNT && has_sub(n, chip(k).model_match),
    decreases CHIP_COUNT - i,
{
    if i < CHIP_COUNT && !has_sub(n, chip(i).model_match) {
        lemma_token_match_found(n, (i + 1) as usize);
    }
}

/// On a chip with uniform naming (the X1 family, Raspberry Pi) every
/// core gets the same "P" / "Performance core" badge, whatever its tier.
pub proof fn lemma_uniform_badge(kind: CoreKind)
    ensures
        badge(CoreNaming::UniformPerformance, kind) == ("P"@, "Performance core"@),
{
}

/// The detected profile's clusters always add up to a count that fits
/// in a `u32`, so `ChipProfile::total_cores` can be called on it.
pub proof fn lemma_detected_total_fits(v: IdentityView)
    ensures
        cluster_total(detect(v).0.clusters) <= u32::MAX,
{
    if detect(v).1 != MatchBasis::SkuToken {
        lemma_inferred_and_fallback_cover_all_cores(v);
    } else {
        let n = normalized(v);
        lemma_token_match_found(n, 0);
        let i = token_match_from(n, 0)->0;
        let c = chip(i);
        lemma_two_tier_total(c.clusters[0].1, if c.clusters.len() > 1 { c.clusters[1].1 } else { 0 });
        assert(c.clusters =~= two_tier(c.clusters[0].1, if c.clusters.len() > 1 { c.clusters[1].1 } else { 0 }));
        if let (Some(p), Some(e)) = (v.perf_cores, v.eff_cores) {
            lemma_topology_total(p, e);
        }
    }
}

/// No SKU token of the table occurs in the normalized name.
pub open spec fn no_token(v: IdentityView) -> bool {
    normalized(v).len() == 0 || token_match_from(normalized(v), 0) is None
}

/// The subfamily read from a Snapdragon name: an "x2" name says "Elite
/// Extreme" when it holds "extreme", else "Plus" when it holds "plus", else
/// "Elite" when it holds "elite"; an "x1" name (without "x2") says "Elite"
/// when it holds "elite", else "Plus" when it holds "plus".
pub proof fn lemma_family_subfamily(v: IdentityView)
    ensures
        snapdragon_evidence(v) && has_sub(normalized(v), "x2"@) && has_sub(normalized(v), "extreme"@) ==> family(v)
            == Some((Gen::X2, Some(Sub::Extreme))),
        snapdragon_evidence(v) && has_sub(normalized(v), "x2"@) && !has_sub(normalized(v), "extreme"@) && has_sub(
            normalized(v),
            "plus"@,
        ) ==> family(v) == Some((Gen::X2, Some(Sub::Plus))),
        snapdragon_evidence(v) && has_sub(normalized(v), "x2"@) && !has_sub(normalized(v), "extreme"@) && !has_sub(
            normalized(v),
            "plus"@,
        ) && has_sub(normalized(v), "elite"@) ==> family(v) == Some((Gen::X2, Some(Sub::Elite))),
        snapdragon_evidence(v) && has_sub(normalized(v), "x2"@) && !has_sub(normalized(v), "extreme"@) && !has_sub(
            normalized(v),
            "plus"@,
        ) && !has_sub(normalized(v), "elite"@) ==> family(v) == Some((Gen::X2, None::<Sub>)),
        snapdragon_evidence(v) && !has_sub(normalized(v), "x2"@) && has_sub(normalized(v), "x1"@) && has_sub(
            normalized(v),
            "elite"@,
        ) ==> family(v) == Some((Gen::X1, Some(Sub::Elite))),
        snapdragon_evidence(v) && !has_sub(normalized(v), "x2"@) && has_sub(normalized(v), "x1"@) && !has_sub(
            normalized(v),
            "elite"@,
        ) && has_sub(normalized(v), "plus"@) ==> family(v) == Some((Gen::X1, Some(Sub::Plus))),
        snapdragon_evidence(v) && !has_sub(normalized(v), "x2"@) && has_sub(normalized(v), "x1"@) && !has_sub(
            normalized(v),
            "elite"@,
        ) && !has_sub(normalized(v), "plus"@) ==> family(v) == Some((Gen::X1, None::<Sub>)),
{
    let n = normalized(v);
    reveal_strlit("x2");
    reveal_strlit("x1");
    if has_sub(n, "x2"@) || has_sub(n, "x1"@) {
        assert(n.len() >= 2);
    }
}

/// Every clock-inference candidate of a family and core count is a profile
/// of that family, with exactly that many cores, whose boost clock is the
/// clock it is matched against.
pub proof fn lemma_candidates_belong_to_family(g: Gen, s: Option<Sub>, cores: u32)
    ensures
        forall|i: int|
            0 <= i < candidates(g, s, cores).len() ==> {
                let k = #[trigger] candidates(g, s, cores)[i];
                &&& candidate(k.1).name == family_labels(g, s).0
                &&& cluster_total(candidate(k.1).clusters) == cores
                &&& candidate(k.1).boost_mhz == k.0
            },
{
    lemma_candidates_fit(g, s, cores);
}

/// An X2 chip whose name carries a rated clock that some candidate lies
/// within the tolerance of is inferred from that clock, whatever the ~MHz
/// readings say: the SKU first nearest to the name's clock.
pub proof fn lemma_x2_name_clock_decides(v: IdentityView, s: Option<Sub>, m: u32, k: usize)
    requires
        no_token(v),
        family(v) == Some((Gen::X2, s)),
        clock_of(lowered_name(v)) == Some(m),
        pick(m, candidates(Gen::X2, s, v.logical_cores)) == Some(k),
    ensures
        detect(v).1 == MatchBasis::Inferred,
        detect(v).0.name == candidate(k).name,
        detect(v).0.model == candidate(k).model,
        detect(v).0.boost_mhz == candidate(k).boost_mhz,
{
}

/// The highest ~MHz reading decides the SKU when the name's clock does not:
/// always for X1, and for X2 when the name has no clock or no candidate
/// lies within the tolerance of it.
pub proof fn lemma_mhz_decides_otherwise(v: IdentityView, g: Gen, s: Option<Sub>, m: u32, k: usize)
    requires
        no_token(v),
        family(v) == Some((g, s)),
        g == Gen::X1 || clock_of(lowered_name(v)) is None || pick(
            clock_of(lowered_name(v))->0,
            candidates(g, s, v.logical_cores),
        ) is None,
        max_of(v.per_core_mhz) == Some(m),
        pick(m, candidates(g, s, v.logical_cores)) == Some(k),
    ensures
        detect(v).1 == MatchBasis::Inferred,
        detect(v).0.name == candidate(k).name,
        detect(v).0.model == candidate(k).model,
        detect(v).0.boost_mhz == candidate(k).boost_mhz,
{
}

/// When no measured clock picks a SKU, a recognized family is labelled as
/// the family only, and its boost clock is the real measured clock: for X2
/// the name's clock, else the highest ~MHz; for X1 the highest ~MHz; 0
/// when there is none.
pub proof fn lemma_family_only_when_no_clock_fits(v: IdentityView, g: Gen, s: Option<Sub>)
    requires
        no_token(v),
        family(v) == Some((g, s)),
        g == Gen::X1 || clock_of(lowered_name(v)) is None || pick(
            clock_of(lowered_name(v))->0,
            candidates(g, s, v.logical_cores),
        ) is None,
        max_of(v.per_core_mhz) is None || pick(max_of(v.per_core_mhz)->0, candidates(g, s, v.logical_cores)) is None,
    ensures
        detect(v).1 == MatchBasis::FamilyOnly,
        detect(v).0.name == family_labels(g, s).0,
        detect(v).0.model == family_labels(g, s).1,
        detect(v).0.base_mhz == 0,
        detect(v).0.tdp_w == 0,
        detect(v).0.tjmax_c == if g == Gen::X2 { 105u32 } else { 100u32 },
        g == Gen::X2 && clock_of(lowered_name(v)) is Some ==> detect(v).0.boost_mhz == clock_of(lowered_name(v))->0,
        (g == Gen::X1 || clock_of(lowered_name(v)) is None) && max_of(v.per_core_mhz) is Some ==> detect(v).0.boost_mhz
            == max_of(v.per_core_mhz)->0,
        (g == Gen::X1 || clock_of(lowered_name(v)) is None) && max_of(v.per_core_mhz) is None ==> detect(v).0.boost_mhz
            == 0,
{
}

/// A vendor-family detection (family label without a Snapdragon X family)
/// shows the highest measured ~MHz as its boost clock, 0 when nothing was
/// measured, and publishes no base clock or TDP.
pub proof fn lemma_vendor_family_boost_is_measured(v: IdentityView)
    requires
        detect(v).1 == MatchBasis::FamilyOnly,
        family(v) is None,
    ensures
        max_of(v.per_core_mhz) matches Some(m) ==> detect(v).0.boost_mhz == m,
        max_of(v.per_core_mhz) is None ==> detect(v).0.boost_mhz == 0,
        detect(v).0.base_mhz == 0,
        detect(v).0.tdp_w == 0,
{
}

/// An unrecognized chip gets no invented spec: model "Unknown", no clocks,
/// no TDP, and the name "<vendor> CPU" from the trimmed vendor, or "ARM64
/// CPU" when the vendor is missing or blank.
pub proof fn lemma_generic_invents_nothing(v: IdentityView)
    requires
        detect(v).1 == MatchBasis::Generic,
    ensures
        detect(v).0.model == "Unknown"@,
        detect(v).0.tjmax_c == if v.logical_cores >= 12 { 105u32 } else { 100u32 },
        detect(v).0.boost_mhz == 0,
        detect(v).0.base_mhz == 0,
        detect(v).0.tdp_w == 0,
        v.vendor is Some && trim(v.vendor->0).len() > 0 ==> detect(v).0.name == trim(v.vendor->0) + " CPU"@,
        (v.vendor is None || trim(v.vendor->0).len() == 0) ==> detect(v).0.name == "ARM64 CPU"@,
{
}

proof fn lemma_token_scan(n: Seq<char>, k: usize)
    requires
        k <= CHIP_COUNT,
    ensures
        token_match_from(n, k) matches Some(i) ==> k <= i < CHIP_COUNT && has_sub(n, chip(i).model_match) && (
        forall|j: usize| k <= j < i ==> !has_sub(n, #[trigger] chip(j).model_match)),
        token_match_from(n, k) is None ==> forall|j: usize|
            k <= j < CHIP_COUNT ==> !has_sub(n, #[trigger] chip(j).model_match),
    decreases CHIP_COUNT - k,
{
    if k < CHIP_COUNT {
        lemma_token_scan(n, (k + 1) as usize);
    }
}

/// Stage A scans the table in order: what it finds is the first row whose
/// token occurs in the normalized name, and it finds nothing exactly when
/// no row's token occurs there.
pub proof fn lemma_token_first_row(n: Seq<char>)
    ensures
        token_match_from(n, 0) matches Some(i) ==> i < CHIP_COUNT && has_sub(n, chip(i).model_match) && (forall|
            j: usize,
        | j < i ==> !has_sub(n, #[trigger] chip(j).model_match)),
        token_match_from(n, 0) is None ==> forall|j: usize|
            j < CHIP_COUNT ==> !has_sub(n, #[trigger] chip(j).model_match),
{
    lemma_token_scan(n, 0);
}

/// A SKU token found in the name decides the detection: the table row's
/// name, model and published clocks and TDP, matched by SKU token.
pub proof fn lemma_token_decides(v: IdentityView, i: usize)
    requires
        normalized(v).len() > 0,
        token_match_from(normalized(v), 0) == Some(i),
    ensures
        detect(v).1 == MatchBasis::SkuToken,
        detect(v).0.name == chip(i).name,
        detect(v).0.model == chip(i).model,
        detect(v).0.boost_mhz == chip(i).boost_mhz,
        detect(v).0.base_mhz == chip(i).base_mhz,
        detect(v).0.tdp_w == chip(i).tdp_w,
{
}

/// Without "x1" or "x2" in the name, a name saying "snapdragon" with no
/// legacy-chip token is the Snapdragon X family; otherwise only a Qualcomm
/// vendor with an Oryon generation in the `Identifier` gives a family
/// (generation 1 is X1, generation 2 is X2), and nothing else does.
pub proof fn lemma_family_without_x_token(v: IdentityView)
    requires
        !has_sub(normalized(v), "x2"@),
        !has_sub(normalized(v), "x1"@),
    ensures
        has_sub(normalized(v), "snapdragon"@) && !legacy_guard(normalized(v)) ==> family(v) == Some(
            (Gen::X1, None::<Sub>),
        ),
        !(has_sub(normalized(v), "snapdragon"@) && !legacy_guard(normalized(v))) && !vendor_is_qualcomm(v) ==> family(
            v,
        ) is None,
        !(has_sub(normalized(v), "snapdragon"@) && !legacy_guard(normalized(v))) && vendor_is_qualcomm(v)
            && identifier_generation(v) == Some(2u32) ==> family(v) == Some((Gen::X2, None::<Sub>)),
        !(has_sub(normalized(v), "snapdragon"@) && !legacy_guard(normalized(v))) && vendor_is_qualcomm(v)
            && identifier_generation(v) == Some(1u32) ==> family(v) == Some((Gen::X1, None::<Sub>)),
        !(has_sub(normalized(v), "snapdragon"@) && !legacy_guard(normalized(v))) && (identifier_generation(v) is None
            || (identifier_generation(v) != Some(1u32) && identifier_generation(v) != Some(2u32))) ==> family(v) is None,
{
    reveal_strlit("snapdragon");
    if has_sub(normalized(v), "snapdragon"@) {
        assert(normalized(v).len() > 0);
    }
}

/// The X2 vocabulary calls the higher tier "Prime" ("P") and the lower
/// tier "Performance" ("P2"); a genuine P/E split calls them "Performance"
/// ("P") and "Efficiency" ("E"). The two tiers are always told apart there.
pub proof fn lemma_tier_badges()
    ensures
        badge(CoreNaming::PrimePerformance, CoreKind::Performance) == ("P"@, "Prime core"@),
        badge(CoreNaming::PrimePerformance, CoreKind::Efficiency) == ("P2"@, "Performance core"@),
        badge(CoreNaming::PerformanceEfficiency, CoreKind::Performance) == ("P"@, "Performance core"@),
        badge(CoreNaming::PerformanceEfficiency, CoreKind::Efficiency) == ("E"@, "Efficiency core"@),
        badge(CoreNaming::PrimePerformance, CoreKind::Performance) != badge(
            CoreNaming::PrimePerformance,
            CoreKind::Efficiency,
        ),
        badge(CoreNaming::PerformanceEfficiency, CoreKind::Performance) != badge(
            CoreNaming::PerformanceEfficiency,
            CoreKind::Efficiency,
        ),
{
    reveal_strlit("P");
    reveal_strlit("P2");
    reveal_strlit("E");
    assert("P"@.len() == 1 && "P2"@.len() == 2);
    assert("P"@[0] == 'P' && "E"@[0] == 'E');
    assert("P"@ != "E"@);
    assert("P"@ != "P2"@);
}

/// The listed X2 split ratios (18 = 12 + 6, 12 = 6 + 6, 10 = 6 + 4), and
/// fewer than 8 cores all in the higher tier.
pub proof fn lemma_heuristic_split_listed(n: u32)
    ensures
        heuristic_split(18) == (12u32, 6u32),
        heuristic_split(12) == (6u32, 6u32),
        heuristic_split(10) == (6u32, 4u32),
        n < 8 ==> heuristic_split(n) == (n, 0u32),
{
}

/// A legacy Qualcomm chip's token ("835", "850", "7c", "8c", "sq1", "sq2",
/// "sq3") anywhere in the normalized name trips the legacy guard, and only
/// those do.
pub proof fn lemma_legacy_guard_tokens(n: Seq<char>)
    ensures
        legacy_guard(n) == (has_sub(n, "835"@) || has_sub(n, "850"@) || has_sub(n, "7c"@) || has_sub(n, "8c"@)
            || has_sub(n, "sq1"@) || has_sub(n, "sq2"@) || has_sub(n, "sq3"@)),
{
}

} // verus!

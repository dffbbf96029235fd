//! Per-core topology and counter-instance logic: which logical cores are
//! Performance or Efficiency cores, and which core a performance-counter
//! instance name refers to.
use vstd::prelude::*;

use crate::chips::{cluster_total, ChipProfile};
use crate::text::{
    chars_of, occurs_at, eq_ignore_ascii_case, eq_ignore_ascii_case_exec, last_occurrence, parse_u32,
    parse_u32_exec, rfind, trim, trim_end_index, trim_start_index,
};
use crate::types::CoreKind;

verus! {

broadcast use vstd::string::group_string_axioms;

// ---------------------------------------------------------------------------
// Counter instance names
// ---------------------------------------------------------------------------

/// The text after the last ',' of `s` (all of `s` when it has none).
pub open spec fn after_last_comma(s: Seq<char>) -> Seq<char> {
    match last_occurrence(s, seq![',']) {
        Some(i) => s.skip(i + 1),
        None => s,
    }
}

/// The core index a `Processor Information` instance name (`group,core`)
/// refers to: the text after the last ',', trimmed, as a `u32`; `None` for
/// the `_Total` roll-ups (any ASCII case) and for anything else that is no
/// number.
pub open spec fn core_index_of(name: Seq<char>) -> Option<u32> {
    let tail = after_last_comma(name);
    if eq_ignore_ascii_case(tail, "_total"@) {
        None
    } else {
        parse_u32(trim(tail), 10)
    }
}

/// Parse the trailing core index of a `Processor Information` instance
/// name, skipping totals.
pub fn parse_core_index(instance_name: &str) -> (r: Option<u32>)
    ensures
        r == core_index_of(instance_name@),
{
    let s = chars_of(instance_name);
    let mut comma: Vec<char> = Vec::new();
    comma.push(',');
    assert(comma@ =~= seq![',']);
    assert(comma@.len() == 1);
    let start = match rfind(&s, &comma) {
        Some(i) => {
            assert(occurs_at(s@, comma@, i as int));
            let len = s.len();
            assert(i < len);
            i + 1
        },
        None => 0,
    };
    assert(s@.subrange(start as int, s@.len() as int) =~= after_last_comma(s@));
    let total = chars_of("_total");
    if eq_ignore_ascii_case_exec(&s, start, s.len(), &total) {
        return None;
    }
    let b = trim_start_index(&s, start, s.len());
    let e = trim_end_index(&s, b, s.len());
    parse_u32_exec(&s, b, e, 10)
}

// ---------------------------------------------------------------------------
// Efficiency classes
// ---------------------------------------------------------------------------

/// One `RelationProcessorCore` entry of the OS topology: the core's
/// efficiency class, its processor-group count, and the affinity mask of
/// its first group.
pub struct CoreEntry {
    pub efficiency_class: u8,
    pub group_count: u16,
    pub mask: u64,
}

/// Whether `e` covers logical core `bit`: single-group entries only, and
/// only bits of the 64-bit mask.
pub open spec fn covers(e: CoreEntry, bit: u64) -> bool {
    e.group_count == 1 && bit < 64 && (e.mask >> bit) & 1 == 1
}

/// The class the entries give logical core `bit` (the last covering entry
/// wins), `None` when no entry covers it.
pub open spec fn class_of(entries: Seq<CoreEntry>, bit: u64) -> Option<u8>
    decreases entries.len(),
{
    if entries.len() == 0 {
        None
    } else if covers(entries.last(), bit) {
        Some(entries.last().efficiency_class)
    } else {
        class_of(entries.drop_last(), bit)
    }
}

/// Each logical core's efficiency class in core-index order, when every
/// index in `0..logical_cores` is covered by some entry.
pub open spec fn core_classes(entries: Seq<CoreEntry>, logical_cores: u32) -> Option<Seq<u8>> {
    if forall|b: u64| b < logical_cores ==> (#[trigger] class_of(entries, b)) is Some {
        Some(Seq::new(logical_cores as nat, |b: int| class_of(entries, b as u64)->0))
    } else {
        None
    }
}

/// Keyed by logical core index (bit position in the group affinity mask),
/// the efficiency class of every core; `None` if any index in
/// `0..logical_cores` is left unaccounted for.
pub fn classes_from_entries(entries: &Vec<CoreEntry>, logical_cores: u32) -> (r: Option<Vec<u8>>)
    ensures
        match r {
            Some(v) => core_classes(entries@, logical_cores) == Some(v@),
            None => core_classes(entries@, logical_cores) is None,
        },
{
    let n = logical_cores as usize;
    let mut classes: Vec<u8> = Vec::new();
    let mut seen: Vec<bool> = Vec::new();
    let mut k: usize = 0;
    while k < n
        invariant
            n == logical_cores,
            k <= n,
            classes.len() == k,
            seen.len() == k,
            forall|b: int| 0 <= b < k ==> classes@[b] == 0 && !seen@[b],
        decreases n - k,
    {
        classes.push(0);
        seen.push(false);
        k = k + 1;
    }
    let mut j: usize = 0;
    while j < entries.len()
        invariant
            n == logical_cores,
            j <= entries.len(),
            classes.len() == n,
            seen.len() == n,
            forall|b: int| 0 <= b < n ==> #[trigger] seen@[b] == (class_of(entries@.take(j as int), b as u64) is Some),
            forall|b: int| 0 <= b < n && seen@[b] ==> #[trigger] classes@[b] == class_of(entries@.take(j as int), b as u64)->0,
        decreases entries.len() - j,
    {
        let ghost pre = entries@.take(j as int);
        let ghost next = entries@.take(j + 1);
        assert(next.drop_last() =~= pre);
        let e = &entries[j];
        assert(next.last() == entries@[j as int]);
        if e.group_count == 1 {
            let limit: usize = if n < 64 { n } else { 64 };
            let mut bit: usize = 0;
            while bit < limit
                invariant
                    n == logical_cores,
                    limit <= n,
                    limit <= 64,
                    bit <= limit,
                    j < entries.len(),
                    next == entries@.take(j + 1),
                    next.len() == j + 1,
                    e == entries@[j as int],
                    e.group_count == 1,
                    classes.len() == n,
                    seen.len() == n,
                    forall|b: int| 0 <= b < bit ==> #[trigger] seen@[b] == (class_of(next, b as u64) is Some),
                    forall|b: int| 0 <= b < bit && seen@[b] ==> #[trigger] classes@[b] == class_of(next, b as u64)->0,
                    forall|b: int| bit <= b < n ==> #[trigger] seen@[b] == (class_of(pre, b as u64) is Some),
                    forall|b: int| bit <= b < n && seen@[b] ==> #[trigger] classes@[b] == class_of(pre, b as u64)->0,
                    next.drop_last() == pre,
                    next.last() == *e,
                decreases limit - bit,
            {
                let b64 = bit as u64;
                assert(class_of(next, b64) == if covers(*e, b64) {
                    Some(e.efficiency_class)
                } else {
                    class_of(pre, b64)
                });
                if (e.mask >> b64) & 1 == 1 {
                    classes.set(bit, e.efficiency_class);
                    seen.set(bit, true);
                }
                assert(seen@[bit as int] == (class_of(next, b64) is Some));
                bit = bit + 1;
            }
            assert forall|b: int| limit <= b < n implies #[trigger] seen@[b] == (class_of(next, b as u64) is Some) by {
                assert(!covers(next.last(), b as u64));
            }
            assert forall|b: int| limit <= b < n && seen@[b] implies #[trigger] classes@[b] == class_of(next, b as u64)->0 by {
                assert(!covers(next.last(), b as u64));
            }
        } else {
            assert forall|b: int| 0 <= b < n implies #[trigger] seen@[b] == (class_of(next, b as u64) is Some) by {
                assert(!covers(next.last(), b as u64));
            }
            assert forall|b: int| 0 <= b < n && seen@[b] implies #[trigger] classes@[b] == class_of(next, b as u64)->0 by {
                assert(!covers(next.last(), b as u64));
            }
        }
        j = j + 1;
    }
    assert(entries@.take(j as int) =~= entries@);
    let mut i: usize = 0;
    while i < n
        invariant
            n == logical_cores,
            i <= n,
            seen.len() == n,
            classes.len() == n,
            forall|b: int| 0 <= b < n ==> #[trigger] seen@[b] == (class_of(entries@, b as u64) is Some),
            forall|b: int| 0 <= b < n && seen@[b] ==> #[trigger] classes@[b] == class_of(entries@, b as u64)->0,
            forall|b: int| 0 <= b < i ==> seen@[b],
        decreases n - i,
    {
        if !seen[i] {
            assert(class_of(entries@, i as u64) is None);
            return None;
        }
        i = i + 1;
    }
    assert forall|b: u64| b < logical_cores implies (#[trigger] class_of(entries@, b)) is Some by {
        assert(seen@[b as int]);
    }
    assert(classes@ =~= Seq::new(logical_cores as nat, |b: int| class_of(entries@, b as u64)->0));
    Some(classes)
}


/// The largest class in `c`, 0 when `c` is empty.
pub open spec fn max_class(c: Seq<u8>) -> u8
    decreases c.len(),
{
    if c.len() == 0 {
        0
    } else {
        let m = max_class(c.drop_last());
        if c.last() > m {
            c.last()
        } else {
            m
        }
    }
}

/// Cores at the highest class present are `Performance`, every lower class
/// is `Efficiency`.
pub open spec fn kinds_of(c: Seq<u8>) -> Seq<CoreKind> {
    Seq::new(c.len(), |i: int| if c[i] == max_class(c) { CoreKind::Performance } else { CoreKind::Efficiency })
}

/// Maps each core's raw efficiency class (in core-index order) to a P/E
/// kind: the highest class present is `Performance`, every lower one
/// `Efficiency`.
pub fn classes_to_kinds(classes: &[u8]) -> (r: Vec<CoreKind>)
    ensures
        r@ == kinds_of(classes@),
{
    let mut max: u8 = 0;
    let mut i: usize = 0;
    while i < classes.len()
        invariant
            i <= classes.len(),
            max == max_class(classes@.take(i as int)),
        decreases classes.len() - i,
    {
        assert(classes@.take(i + 1).drop_last() =~= classes@.take(i as int));
        if classes[i] > max {
            max = classes[i];
        }
        i = i + 1;
    }
    assert(classes@.take(i as int) =~= classes@);
    let mut out: Vec<CoreKind> = Vec::new();
    let mut j: usize = 0;
    while j < classes.len()
        invariant
            j <= classes.len(),
            max == max_class(classes@),
            out@ =~= kinds_of(classes@).take(j as int),
        decreases classes.len() - j,
    {
        out.push(if classes[j] == max { CoreKind::Performance } else { CoreKind::Efficiency });
        j = j + 1;
    }
    out
}

/// Every class is at most the largest one, and a nonempty sequence holds it.
pub proof fn lemma_max_class(c: Seq<u8>)
    ensures
        forall|i: int| 0 <= i < c.len() ==> c[i] <= max_class(c),
        c.len() > 0 ==> exists|i: int| 0 <= i < c.len() && c[i] == max_class(c),
    decreases c.len(),
{
    if c.len() > 0 {
        lemma_max_class(c.drop_last());
        if c.len() > 1 && c.last() <= max_class(c.drop_last()) {
            let i = choose|i: int| 0 <= i < c.drop_last().len() && c.drop_last()[i] == max_class(c.drop_last());
            assert(c[i] == max_class(c));
        } else {
            assert(c[c.len() - 1] == max_class(c));
        }
        assert forall|i: int| 0 <= i < c.len() implies c[i] <= max_class(c) by {
            if i < c.len() - 1 {
                assert(c[i] == c.drop_last()[i]);
            }
        }
    }
}

/// Classifying cores keeps one kind per core, makes at least one core
/// `Performance` when there is any core, and makes every core `Performance`
/// when all cores share one class (a homogeneous chip).
pub proof fn lemma_kinds_shape(c: Seq<u8>)
    ensures
        kinds_of(c).len() == c.len(),
        c.len() > 0 ==> exists|i: int| 0 <= i < c.len() && kinds_of(c)[i] == CoreKind::Performance,
        (forall|i: int, j: int| 0 <= i < c.len() && 0 <= j < c.len() ==> c[i] == c[j]) ==> forall|i: int|
            0 <= i < c.len() ==> kinds_of(c)[i] == CoreKind::Performance,
{
    lemma_max_class(c);
    if c.len() > 0 {
        let k = choose|i: int| 0 <= i < c.len() && c[i] == max_class(c);
        assert(kinds_of(c)[k] == CoreKind::Performance);
    }
}

// ---------------------------------------------------------------------------
// Core kinds
// ---------------------------------------------------------------------------

/// The kind of core `idx` by walking the profile's clusters in order;
/// `Performance` past the last cluster.
pub open spec fn cluster_kind_at(c: Seq<(CoreKind, u32)>, idx: int) -> CoreKind
    decreases c.len(),
{
    if c.len() == 0 {
        CoreKind::Performance
    } else if idx < c[0].1 {
        c[0].0
    } else {
        cluster_kind_at(c.drop_first(), idx - c[0].1)
    }
}

/// The kind of core `idx`: the OS topology's answer when it has one for
/// that core, else the profile's cluster layout.
pub open spec fn core_kind(os_kinds: Option<Seq<CoreKind>>, c: Seq<(CoreKind, u32)>, idx: u32) -> CoreKind {
    match os_kinds {
        Some(k) => if idx < k.len() {
            k[idx as int]
        } else {
            cluster_kind_at(c, idx as int)
        },
        None => cluster_kind_at(c, idx as int),
    }
}

/// The P/E kind of logical core `idx`.
pub fn kind_for_core(real_kinds: &Option<Vec<CoreKind>>, profile: &ChipProfile, idx: u32) -> (r: CoreKind)
    ensures
        r == core_kind(
            match real_kinds {
                Some(k) => Some(k@),
                None => None,
            },
            profile.clusters@,
            idx,
        ),
{
    if let Some(kinds) = real_kinds {
        if (idx as usize) < kinds.len() {
            return kinds[idx as usize];
        }
    }
    let c = &profile.clusters;
    let mut cursor: u64 = 0;
    let mut i: usize = 0;
    assert(c@.skip(0) =~= c@);
    let ghost os = match real_kinds {
        Some(k) => Some(k@),
        None => None,
    };
    assert(core_kind(os, c@, idx) == cluster_kind_at(c@, idx as int));
    while i < c.len()
        invariant
            i <= c.len(),
            cursor == cluster_total(c@.take(i as int)),
            cursor <= idx,
            cluster_kind_at(c@, idx as int) == cluster_kind_at(c@.skip(i as int), idx - cursor),
            core_kind(os, c@, idx) == cluster_kind_at(c@, idx as int),
            os == match real_kinds {
                Some(k) => Some(k@),
                None => None,
            },
            c@ == profile.clusters@,
        decreases c.len() - i,
    {
        let (kind, n) = c[i];
        let ghost before = cursor;
        proof {
            assert(c@.take(i + 1).drop_last() =~= c@.take(i as int));
            assert(c@.skip(i as int)[0] == c@[i as int]);
            assert(c@.skip(i as int).drop_first() =~= c@.skip(i + 1));
        }
        cursor = cursor + n as u64;
        if (idx as u64) < cursor {
            assert(cluster_kind_at(c@.skip(i as int), idx - before) == kind);
            return kind;
        }
        i = i + 1;
    }
    assert(c@.skip(i as int) =~= Seq::<(CoreKind, u32)>::empty());
    CoreKind::Performance
}

/// Number of `Performance` and of `Efficiency` entries of `k`.
pub open spec fn count_kind(k: Seq<CoreKind>, kind: CoreKind) -> nat
    decreases k.len(),
{
    if k.len() == 0 {
        0
    } else {
        count_kind(k.drop_last(), kind) + if k.last() == kind { 1nat } else { 0nat }
    }
}

/// The real P/E core counts from a per-core classification, each as a `u32`
/// (wrapping like an `as u32` cast).
pub fn count_kinds(kinds: &Vec<CoreKind>) -> (r: (u32, u32))
    ensures
        r.0 == count_kind(kinds@, CoreKind::Performance) as u32,
        r.1 == count_kind(kinds@, CoreKind::Efficiency) as u32,
{
    let mut p: usize = 0;
    let mut e: usize = 0;
    let mut i: usize = 0;
    while i < kinds.len()
        invariant
            i <= kinds.len(),
            p == count_kind(kinds@.take(i as int), CoreKind::Performance),
            e == count_kind(kinds@.take(i as int), CoreKind::Efficiency),
            p + e == i,
        decreases kinds.len() - i,
    {
        assert(kinds@.take(i + 1).drop_last() =~= kinds@.take(i as int));
        match kinds[i] {
            CoreKind::Performance => p = p + 1,
            CoreKind::Efficiency => e = e + 1,
        }
        i = i + 1;
    }
    assert(kinds@.take(i as int) =~= kinds@);
    (p as u32, e as u32)
}

/// A core is classified `Performance` exactly when no core has a higher
/// efficiency class than it.
pub proof fn lemma_kind_is_top_class(c: Seq<u8>, i: int)
    requires
        0 <= i < c.len(),
    ensures
        (kinds_of(c)[i] == CoreKind::Performance) == (forall|j: int| 0 <= j < c.len() ==> c[j] <= c[i]),
{
    lemma_max_class(c);
    if forall|j: int| 0 <= j < c.len() ==> c[j] <= c[i] {
        let w = choose|w: int| 0 <= w < c.len() && c[w] == max_class(c);
        assert(c[w] <= c[i]);
    }
}

/// Walking a layout of a higher-tier cluster of `a` cores followed by a
/// cluster of `b` cores: cores below `a` are of the first kind, the next `b`
/// of the second, and any core past the layout counts as `Performance`.
/// The OS topology, when it covers the core, decides instead.
pub proof fn lemma_cluster_walk(k1: CoreKind, a: u32, k2: CoreKind, b: u32, idx: u32, os: Option<Seq<CoreKind>>)
    ensures
        idx < a ==> cluster_kind_at(seq![(k1, a), (k2, b)], idx as int) == k1,
        a <= idx < a + b ==> cluster_kind_at(seq![(k1, a), (k2, b)], idx as int) == k2,
        a + b <= idx ==> cluster_kind_at(seq![(k1, a), (k2, b)], idx as int) == CoreKind::Performance,
        os matches Some(k) && idx < k.len() ==> core_kind(os, seq![(k1, a), (k2, b)], idx) == os->0[idx as int],
        (os is None || idx >= os->0.len()) ==> core_kind(os, seq![(k1, a), (k2, b)], idx) == cluster_kind_at(
            seq![(k1, a), (k2, b)],
            idx as int,
        ),
{
    let c = seq![(k1, a), (k2, b)];
    assert(c.drop_first() =~= seq![(k2, b)]);
    assert(seq![(k2, b)].drop_first() =~= Seq::<(CoreKind, u32)>::empty());
    reveal_with_fuel(cluster_kind_at, 3);
}

} // verus!

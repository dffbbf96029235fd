//! The spec-label part of a sensor snapshot: everything shown about the
//! detected chip that is not a live reading.
use vstd::prelude::*;

use crate::chips::{basis_label, cluster_total, ChipProfile, MatchBasis};
use crate::text::{all_digits, chars_of, digit_of, digits_value, push_char, string_of};

verus! {

broadcast use vstd::string::group_string_axioms;

/// The character of decimal digit `d`.
pub open spec fn digit_char(d: nat) -> char {
    if d == 0 {
        '0'
    } else if d == 1 {
        '1'
    } else if d == 2 {
        '2'
    } else if d == 3 {
        '3'
    } else if d == 4 {
        '4'
    } else if d == 5 {
        '5'
    } else if d == 6 {
        '6'
    } else if d == 7 {
        '7'
    } else if d == 8 {
        '8'
    } else {
        '9'
    }
}

/// The decimal representation of `n` (as `u32`'s `Display` writes it).
pub open spec fn decimal(n: nat) -> Seq<char>
    decreases n,
{
    if n < 10 {
        seq![digit_char(n)]
    } else {
        decimal(n / 10).push(digit_char(n % 10))
    }
}

fn digit_char_exec(d: u32) -> (c: char)
    requires
        d < 10,
    ensures
        c == digit_char(d as nat),
{
    match d {
        0 => '0',
        1 => '1',
        2 => '2',
        3 => '3',
        4 => '4',
        5 => '5',
        6 => '6',
        7 => '7',
        8 => '8',
        _ => '9',
    }
}

fn decimal_chars(n: u32) -> (v: Vec<char>)
    ensures
        v@ == decimal(n as nat),
    decreases n,
{
    if n < 10 {
        let mut v: Vec<char> = Vec::new();
        v.push(digit_char_exec(n));
        assert(v@ =~= seq![digit_char(n as nat)]);
        v
    } else {
        let mut v = decimal_chars(n / 10);
        v.push(digit_char_exec(n % 10));
        v
    }
}

/// Appends the characters of `v` to `s`.
fn append_chars(s: &mut String, v: &Vec<char>)
    ensures
        final(s)@ == old(s)@ + v@,
{
    let ghost start = s@;
    let mut i: usize = 0;
    while i < v.len()
        invariant
            i <= v.len(),
            s@ == start + v@.take(i as int),
        decreases v.len() - i,
    {
        push_char(s, v[i]);
        assert(v@.take(i + 1) =~= v@.take(i as int).push(v@[i as int]));
        i = i + 1;
    }
    assert(v@.take(i as int) =~= v@);
}

/// `n` written in decimal.
pub fn u32_to_string(n: u32) -> (s: String)
    ensures
        s@ == decimal(n as nat),
{
    let v = decimal_chars(n);
    string_of(&v, 0, v.len())
}

/// The chip labels a snapshot carries.
pub struct ChipSummary {
    /// Detected SoC marketing name, e.g. "Snapdragon X Plus".
    pub chip_name: String,
    /// Detected model string.
    pub chip_model: String,
    /// "<cores> / <logical threads>".
    pub core_thread: String,
    /// "ARM64 · <uarch>", or "ARM64" when the microarchitecture is unknown.
    pub platform: String,
    /// Process node from the profile.
    pub lithography: String,
    /// Nominal TDP in watts, `None` when unpublished.
    pub tdp_w: Option<u32>,
    /// Thermal junction max in °C.
    pub tjmax_c: u32,
    /// Base clock in MHz from the profile, `None` when unpublished.
    pub base_clock_mhz: Option<u32>,
    /// Boost clock in MHz from the profile, `None` when unknown.
    pub max_clock_mhz: Option<u32>,
    /// Nominal bus/reference clock in MHz.
    pub bus_speed_mhz: Option<u32>,
    /// How the chip was matched (see `MatchBasis::label`).
    pub detection_basis: String,
}

/// A nonzero value, `None` for zero (an unpublished spec).
pub open spec fn published(v: u32) -> Option<u32> {
    if v > 0 {
        Some(v)
    } else {
        None
    }
}

/// The platform label for a microarchitecture.
pub open spec fn platform_label(uarch: Seq<char>) -> Seq<char> {
    if uarch.len() == 0 {
        "ARM64"@
    } else {
        "ARM64 \u{b7} "@ + uarch
    }
}

/// The labels shown for `profile` on a machine with `logical` logical
/// processors: the physical core count shown is the larger of the profile's
/// and the machine's.
pub fn chip_summary(profile: &ChipProfile, basis: MatchBasis, logical: u32) -> (r: ChipSummary)
    requires
        cluster_total(profile.clusters@) <= u32::MAX,
    ensures
        r.chip_name@ == profile.name@,
        r.chip_model@ == profile.model@,
        r.core_thread@ == decimal(
            if cluster_total(profile.clusters@) >= logical { cluster_total(profile.clusters@) } else { logical as nat },
        ) + " / "@ + decimal(logical as nat),
        r.platform@ == platform_label(profile.uarch@),
        r.lithography@ == profile.lithography@,
        r.tdp_w == published(profile.tdp_w),
        r.tjmax_c == profile.tjmax_c,
        r.base_clock_mhz == published(profile.base_mhz),
        r.max_clock_mhz == published(profile.boost_mhz),
        r.bus_speed_mhz == Some(100u32),
        r.detection_basis@ == basis_label(basis),
{
    let total = profile.total_cores();
    let cores = if total >= logical { total } else { logical };
    let mut core_thread = u32_to_string(cores);
    let sep = chars_of(" / ");
    append_chars(&mut core_thread, &sep);
    let lv = decimal_chars(logical);
    append_chars(&mut core_thread, &lv);
    let u = chars_of(profile.uarch.as_str());
    let platform = if u.len() == 0 {
        "ARM64".to_owned()
    } else {
        let mut p = "ARM64 \u{b7} ".to_owned();
        append_chars(&mut p, &u);
        p
    };
    ChipSummary {
        chip_name: profile.name.clone(),
        chip_model: profile.model.clone(),
        core_thread,
        platform,
        lithography: profile.lithography.clone(),
        tdp_w: if profile.tdp_w > 0 { Some(profile.tdp_w) } else { None },
        tjmax_c: profile.tjmax_c,
        base_clock_mhz: if profile.base_mhz > 0 { Some(profile.base_mhz) } else { None },
        max_clock_mhz: if profile.boost_mhz > 0 { Some(profile.boost_mhz) } else { None },
        bus_speed_mhz: Some(100),
        detection_basis: basis.label().to_owned(),
    }
}

/// The decimal text of `n` is made of decimal digits, reads back as `n`,
/// and has no leading zero (only 0 itself starts with '0').
pub proof fn lemma_decimal_reads_back(n: nat)
    ensures
        decimal(n).len() > 0,
        all_digits(decimal(n), 10),
        digits_value(decimal(n), 10) == n,
        n > 0 ==> decimal(n)[0] != '0',
    decreases n,
{
    if n < 10 {
        assert(digit_of(digit_char(n)) == n);
        assert(decimal(n).drop_last() =~= Seq::<char>::empty());
        assert(digits_value(Seq::<char>::empty(), 10) == 0);
        assert(decimal(n).last() == digit_char(n));
        assert(digits_value(decimal(n), 10) == digits_value(decimal(n).drop_last(), 10) * 10 + digit_of(decimal(n).last()));
    } else {
        lemma_decimal_reads_back(n / 10);
        let d = (n % 10) as nat;
        assert(digit_of(digit_char(d)) == d);
        let t = decimal(n / 10);
        assert(decimal(n).drop_last() =~= t);
        assert(decimal(n)[0] == t[0]);
        assert(decimal(n).last() == digit_char(d));
        assert(digits_value(decimal(n), 10) == digits_value(t, 10) * 10 + d);
        assert((n / 10) * 10 + n % 10 == n) by (nonlinear_arith);
        assert forall|i: int| 0 <= i < decimal(n).len() implies crate::text::is_digit(#[trigger] decimal(n)[i], 10) by {
            if i < t.len() {
                assert(decimal(n)[i] == t[i]);
            }
        }
    }
}

} // verus!

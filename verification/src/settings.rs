//! User settings: their defaults, how the stored strings are read, the
//! polling interval bounds, and the overheat-protection trigger.
use vstd::prelude::*;

use crate::text::{chars_of, eq_ignore_ascii_case, eq_ignore_ascii_case_exec, str_eq};
use crate::tray::TrayStyle;

verus! {

broadcast use vstd::string::group_string_axioms;

/// Default UI theme.
pub fn default_theme() -> (r: String)
    ensures
        r@ == "dark"@,
{
    "dark".to_owned()
}

/// Default temperature unit.
pub fn default_c() -> (r: String)
    ensures
        r@ == "c"@,
{
    "c".to_owned()
}

/// Default tray icon style.
pub fn default_tray_style() -> (r: String)
    ensures
        r@ == "plain"@,
{
    "plain".to_owned()
}

/// Default overheat action.
pub fn default_overheat_action() -> (r: String)
    ensures
        r@ == "notify"@,
{
    "notify".to_owned()
}

/// Default for the settings that are on unless turned off.
pub fn default_true() -> (r: bool)
    ensures
        r,
{
    true
}

/// Default polling interval in milliseconds.
pub fn default_polling_ms() -> (r: u64)
    ensures
        r == 1500,
{
    1500
}

/// Shortest polling interval: never busy-loop the counter query.
pub const MIN_POLL_MS: u64 = 500;

/// Longest polling interval: never sleep so long the UI feels dead.
pub const MAX_POLL_MS: u64 = 10_000;

/// The polling interval actually used for a requested one.
pub open spec fn clamped_poll(ms: u64) -> u64 {
    if ms < MIN_POLL_MS {
        MIN_POLL_MS
    } else if ms > MAX_POLL_MS {
        MAX_POLL_MS
    } else {
        ms
    }
}

/// The user's polling interval clamped to `MIN_POLL_MS..=MAX_POLL_MS`.
pub fn polling_interval_ms(ms: u64) -> (r: u64)
    ensures
        r == clamped_poll(ms),
        MIN_POLL_MS <= r <= MAX_POLL_MS,
{
    if ms < MIN_POLL_MS {
        MIN_POLL_MS
    } else if ms > MAX_POLL_MS {
        MAX_POLL_MS
    } else {
        ms
    }
}

/// The tray style a stored setting names: "badge", "plain", anything else Rounded.
pub open spec fn tray_style_named(s: Seq<char>) -> TrayStyle {
    if s == "badge"@ {
        TrayStyle::Badge
    } else if s == "plain"@ {
        TrayStyle::Plain
    } else {
        TrayStyle::Rounded
    }
}

/// Read the stored tray-style setting.
pub fn tray_style_from(s: &str) -> (r: TrayStyle)
    ensures
        r == tray_style_named(s@),
{
    if str_eq(s, "badge") {
        TrayStyle::Badge
    } else if str_eq(s, "plain") {
        TrayStyle::Plain
    } else {
        TrayStyle::Rounded
    }
}

/// Whether the stored unit setting is Fahrenheit ("f" in any ASCII case).
pub fn unit_is_f(unit: &str) -> (r: bool)
    ensures
        r == eq_ignore_ascii_case(unit@, "f"@),
{
    let u = chars_of(unit);
    let f = chars_of("f");
    assert(u@.subrange(0, u@.len() as int) =~= u@);
    eq_ignore_ascii_case_exec(&u, 0, u.len(), &f)
}

/// What to do when the package crosses the overheat threshold.
#[derive(Clone, Copy, Debug, PartialEq, Eq, Structural)]
pub enum OverheatAction {
    Notify,
    Sleep,
    Shutdown,
}

/// The action a stored setting names: "sleep", "shutdown", anything else Notify.
pub open spec fn overheat_action_named(s: Seq<char>) -> OverheatAction {
    if s == "sleep"@ {
        OverheatAction::Sleep
    } else if s == "shutdown"@ {
        OverheatAction::Shutdown
    } else {
        OverheatAction::Notify
    }
}

/// Read the stored overheat-action setting.
pub fn overheat_action_from(s: &str) -> (r: OverheatAction)
    ensures
        r == overheat_action_named(s@),
{
    if str_eq(s, "sleep") {
        OverheatAction::Sleep
    } else if str_eq(s, "shutdown") {
        OverheatAction::Shutdown
    } else {
        OverheatAction::Notify
    }
}

/// One reading against the overheat threshold: whether the package is at or
/// above the threshold, and whether it is at or below the re-arm point
/// (the threshold minus the re-arm margin).
pub struct OverheatReading {
    pub at_or_above_threshold: bool,
    pub at_or_below_rearm: bool,
}

/// The trigger's next state and whether the action fires now.
pub struct OverheatStep {
    pub armed: bool,
    pub fire: bool,
}

/// Edge-triggered overheat protection with hysteresis: with protection on
/// and a reading, a hot reading fires once if armed and disarms; a reading
/// at or below the re-arm point re-arms; anything else leaves it as it was.
pub open spec fn overheat_next(enabled: bool, armed: bool, reading: Option<OverheatReading>) -> (bool, bool) {
    match reading {
        Some(r) => if !enabled {
            (armed, false)
        } else if r.at_or_above_threshold {
            (false, armed)
        } else if r.at_or_below_rearm {
            (true, false)
        } else {
            (armed, false)
        },
        None => (armed, false),
    }
}

/// One poll tick of overheat protection.
pub fn overheat_step(enabled: bool, armed: bool, reading: Option<OverheatReading>) -> (r: OverheatStep)
    ensures
        (r.armed, r.fire) == overheat_next(enabled, armed, reading),
{
    if !enabled {
        return OverheatStep { armed, fire: false };
    }
    match reading {
        Some(rd) => {
            if rd.at_or_above_threshold {
                OverheatStep { armed: false, fire: armed }
            } else if rd.at_or_below_rearm {
                OverheatStep { armed: true, fire: false }
            } else {
                OverheatStep { armed, fire: false }
            }
        },
        None => OverheatStep { armed, fire: false },
    }
}

/// A sustained overheat fires at most once: after a tick that fired,
/// the next tick fires only if a re-arming reading came in between, which a
/// single further hot reading is not.
pub proof fn lemma_overheat_fires_once(armed: bool, first: OverheatReading, second: OverheatReading)
    requires
        overheat_next(true, armed, Some(first)).1,
        second.at_or_above_threshold,
    ensures
        !overheat_next(true, overheat_next(true, armed, Some(first)).0, Some(second)).1,
{
}

/// Once disarmed, the trigger stays disarmed (and silent) until a
/// reading at or below the re-arm point.
pub proof fn lemma_overheat_rearm_needs_cool_reading(enabled: bool, reading: Option<OverheatReading>)
    requires
        reading matches Some(r) ==> !r.at_or_below_rearm,
    ensures
        overheat_next(enabled, false, reading) == (false, false),
{
}

/// Whether a reading is at or above the threshold.
pub open spec fn hot(r: Option<OverheatReading>) -> bool {
    r matches Some(x) && x.at_or_above_threshold
}

/// Whether a reading re-arms the trigger: at or below the re-arm point and
/// not at or above the threshold (which a threshold above its re-arm point
/// never allows together).
pub open spec fn rearms(r: Option<OverheatReading>) -> bool {
    r matches Some(x) && !x.at_or_above_threshold && x.at_or_below_rearm
}

/// The trigger's armed state after a run of ticks with protection on,
/// starting armed.
pub open spec fn armed_after(rs: Seq<Option<OverheatReading>>) -> bool
    decreases rs.len(),
{
    if rs.len() == 0 {
        true
    } else {
        overheat_next(true, armed_after(rs.drop_last()), rs.last()).0
    }
}

/// Whether tick `k` of a run with protection on fires the action.
pub open spec fn fires_at(rs: Seq<Option<OverheatReading>>, k: int) -> bool {
    overheat_next(true, armed_after(rs.take(k)), rs[k]).1
}

/// Whether every tick before `k` that fired was followed, still before `k`,
/// by a re-arming reading.
pub open spec fn every_fire_rearmed(rs: Seq<Option<OverheatReading>>, k: int) -> bool {
    forall|i: int|
        0 <= i < k && #[trigger] fires_at(rs, i) ==> exists|m: int| i < m < k && #[trigger] rearms(rs[m])
}

proof fn lemma_armed_iff_rearmed(rs: Seq<Option<OverheatReading>>, k: int)
    requires
        0 <= k <= rs.len(),
    ensures
        armed_after(rs.take(k)) == every_fire_rearmed(rs, k),
    decreases k,
{
    if k > 0 {
        let j = k - 1;
        lemma_armed_iff_rearmed(rs, j);
        assert(rs.take(k).drop_last() =~= rs.take(j));
        assert(rs.take(k).last() == rs[j]);
        let a = armed_after(rs.take(j));
        assert(armed_after(rs.take(k)) == overheat_next(true, a, rs[j]).0);
        assert(fires_at(rs, j) == overheat_next(true, a, rs[j]).1);
        if hot(rs[j]) {
            assert(!armed_after(rs.take(k)));
            assert(!rearms(rs[j]));
            if a {
                assert(fires_at(rs, j));
                assert(!(exists|m: int| j < m < k && #[trigger] rearms(rs[m])));
            } else {
                assert(!every_fire_rearmed(rs, j));
                let i = choose|i: int|
                    0 <= i < j && #[trigger] fires_at(rs, i) && !(exists|m: int| i < m < j && #[trigger] rearms(rs[m]));
                assert forall|m: int| i < m < k implies !#[trigger] rearms(rs[m]) by {
                    if m < j {
                        assert(!(i < m < j && rearms(rs[m])));
                    }
                }
                assert(fires_at(rs, i));
            }
            assert(!every_fire_rearmed(rs, k));
        } else if rearms(rs[j]) {
            assert(armed_after(rs.take(k)));
            assert(!fires_at(rs, j));
            assert forall|i: int| 0 <= i < k && #[trigger] fires_at(rs, i) implies exists|m: int|
                i < m < k && #[trigger] rearms(rs[m]) by {
                assert(i < j);
                assert(i < j < k && rearms(rs[j]));
            }
        } else {
            assert(armed_after(rs.take(k)) == a);
            assert(!fires_at(rs, j));
            if a {
                assert forall|i: int| 0 <= i < k && #[trigger] fires_at(rs, i) implies exists|m: int|
                    i < m < k && #[trigger] rearms(rs[m]) by {
                    assert(i < j);
                    let m = choose|m: int| i < m < j && #[trigger] rearms(rs[m]);
                    assert(i < m < k && rearms(rs[m]));
                }
            } else {
                let i = choose|i: int|
                    0 <= i < j && #[trigger] fires_at(rs, i) && !(exists|m: int| i < m < j && #[trigger] rearms(rs[m]));
                assert forall|m: int| i < m < k implies !#[trigger] rearms(rs[m]) by {
                    if m < j {
                        assert(!(i < m < j && rearms(rs[m])));
                    }
                }
                assert(fires_at(rs, i));
                assert(!every_fire_rearmed(rs, k));
            }
        }
    } else {
        assert(rs.take(0) =~= Seq::<Option<OverheatReading>>::empty());
    }
}

/// Over any run of ticks with protection on, starting armed: tick `k` fires
/// exactly when its reading is at or above the threshold and every earlier
/// firing was followed by a re-arming reading before `k`. So a sustained
/// overheat fires once, and two firings are always separated by a reading
/// at or below the re-arm point.
pub proof fn lemma_overheat_run(rs: Seq<Option<OverheatReading>>, k: int)
    requires
        0 <= k < rs.len(),
    ensures
        fires_at(rs, k) == (hot(rs[k]) && every_fire_rearmed(rs, k)),
{
    lemma_armed_iff_rearmed(rs, k);
}

/// Two firings in a run are separated by a re-arming reading.
pub proof fn lemma_overheat_fires_separated(rs: Seq<Option<OverheatReading>>, i: int, j: int)
    requires
        0 <= i < j < rs.len(),
        fires_at(rs, i),
        fires_at(rs, j),
    ensures
        exists|m: int| i < m < j && #[trigger] rearms(rs[m]),
{
    lemma_overheat_run(rs, j);
}

/// One tick of overheat protection: the action fires only with protection
/// on, while armed, on a reading at or above the threshold, and then the
/// trigger disarms; with protection off, or without a reading, nothing
/// changes and nothing fires; a reading at or below the re-arm point and
/// under the threshold re-arms without firing; any other reading changes
/// nothing.
pub proof fn lemma_overheat_step_rules(enabled: bool, armed: bool, r: Option<OverheatReading>)
    ensures
        overheat_next(enabled, armed, r).1 ==> enabled && armed && (r matches Some(x) && x.at_or_above_threshold),
        !enabled ==> overheat_next(enabled, armed, r) == (armed, false),
        r is None ==> overheat_next(enabled, armed, r) == (armed, false),
        enabled && (r matches Some(x) && x.at_or_above_threshold) ==> overheat_next(enabled, armed, r) == (false, armed),
        enabled && (r matches Some(x) && !x.at_or_above_threshold && x.at_or_below_rearm) ==> overheat_next(
            enabled,
            armed,
            r,
        ) == (true, false),
        (r matches Some(x) && !x.at_or_above_threshold && !x.at_or_below_rearm) ==> overheat_next(
            enabled,
            armed,
            r,
        ) == (armed, false),
{
}

/// The polling interval used is the requested one when it lies within
/// 500..=10000 ms, and the nearer bound otherwise.
pub proof fn lemma_poll_clamp(ms: u64)
    ensures
        500 <= clamped_poll(ms) <= 10_000,
        500 <= ms <= 10_000 ==> clamped_poll(ms) == ms,
        ms < 500 ==> clamped_poll(ms) == 500,
        ms > 10_000 ==> clamped_poll(ms) == 10_000,
{
}

/// The stored unit means Fahrenheit exactly when it is the single letter
/// "f" or "F".
pub proof fn lemma_unit_f(u: Seq<char>)
    ensures
        eq_ignore_ascii_case(u, "f"@) == (u.len() == 1 && (u[0] == 'f' || u[0] == 'F')),
{
    reveal_strlit("f");
    let f = "f"@;
    assert(f.len() == 1 && f[0] == 'f');
    if eq_ignore_ascii_case(u, f) {
        assert(u.len() == 1);
        let c = u[0];
        assert(crate::text::ascii_lower_code(c) == crate::text::ascii_lower_code(f[0]));
        assert(crate::text::ascii_lower_code(c) == 102);
        if 'A' <= c && c <= 'Z' {
            assert(c as u32 == 70);
            assert(c == 'F');
        } else {
            assert(c as u32 == 102);
            vstd::utf8::char_u32_cast(c, 102);
            vstd::utf8::char_u32_cast('f', 102);
            assert(c == 'f');
        }
    }
    if u.len() == 1 && (u[0] == 'f' || u[0] == 'F') {
        assert forall|i: int| 0 <= i < u.len() implies crate::text::ascii_lower_code(#[trigger] u[i])
            == crate::text::ascii_lower_code(f[i]) by {
            assert(i == 0);
        }
    }
}

/// "badge" and "plain" name their styles, any other setting is Rounded;
/// "sleep" and "shutdown" name their actions, any other setting is Notify.
pub proof fn lemma_setting_names(s: Seq<char>)
    ensures
        s == "badge"@ ==> tray_style_named(s) == TrayStyle::Badge,
        s == "plain"@ ==> tray_style_named(s) == TrayStyle::Plain,
        s != "badge"@ && s != "plain"@ ==> tray_style_named(s) == TrayStyle::Rounded,
        s == "sleep"@ ==> overheat_action_named(s) == OverheatAction::Sleep,
        s == "shutdown"@ ==> overheat_action_named(s) == OverheatAction::Shutdown,
        s != "sleep"@ && s != "shutdown"@ ==> overheat_action_named(s) == OverheatAction::Notify,
{
    reveal_strlit("badge");
    reveal_strlit("plain");
    reveal_strlit("sleep");
    reveal_strlit("shutdown");
    assert("badge"@[0] == 'b' && "plain"@[0] == 'p');
    assert("badge"@ != "plain"@);
    assert("sleep"@.len() == 5 && "shutdown"@.len() == 8);
    assert("sleep"@ != "shutdown"@);
}

} // verus!

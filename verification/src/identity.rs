//! The raw CPU identity signals (registry strings, per-core rated clocks,
//! core counts) and the parsers that read a clock and an Oryon generation
//! out of them.
use vstd::prelude::*;

use crate::text::{
    capped_value, chars_of, find_from_exec, first_token,
    matches_at, occurs_at, parse_u32, parse_u32_exec, push_char, rfind, token_end,
    to_lowercase, trim_end, trim_end_index, trim_start_index, lowercase, digits_value, no_ascii_upper, all_ascii, is_ascii_char,
    ascii_lower_char,
    digit_of, digit_exec, find_from, last_occurrence, all_digits, is_digit, lemma_find_from,
};

verus! {

broadcast use vstd::string::group_string_axioms;

/// Every identity signal gathered for the detected CPU.
#[derive(Clone, Debug)]
pub struct CpuIdentity {
    /// `ProcessorNameString`, e.g. "Snapdragon(R) X 10-core X1P64100 @ 3.40 GHz".
    pub name: Option<String>,
    /// `Identifier`, e.g. "ARMv8 (64-bit) Family 8 Model 2 Revision 201".
    pub identifier: Option<String>,
    /// `VendorIdentifier`, e.g. "Qualcomm Technologies Inc".
    pub vendor: Option<String>,
    /// Per-logical-core `~MHz` value (each core's cluster rated clock).
    pub per_core_mhz: Vec<u32>,
    /// Logical processor count.
    pub logical_cores: u32,
    /// Performance-core count from the OS topology, when available.
    pub perf_cores: Option<u32>,
    /// Efficiency-core count from the OS topology, when available.
    pub eff_cores: Option<u32>,
}

/// The mathematical content of a `CpuIdentity`.
pub struct IdentityView {
    pub name: Option<Seq<char>>,
    pub identifier: Option<Seq<char>>,
    pub vendor: Option<Seq<char>>,
    pub per_core_mhz: Seq<u32>,
    pub logical_cores: u32,
    pub perf_cores: Option<u32>,
    pub eff_cores: Option<u32>,
}

impl View for CpuIdentity {
    type V = IdentityView;

    open spec fn view(&self) -> IdentityView {
        IdentityView {
            name: self.name.deep_view(),
            identifier: self.identifier.deep_view(),
            vendor: self.vendor.deep_view(),
            per_core_mhz: self.per_core_mhz@,
            logical_cores: self.logical_cores,
            perf_cores: self.perf_cores,
            eff_cores: self.eff_cores,
        }
    }
}

impl Default for CpuIdentity {
    fn default() -> (r: Self)
        ensures
            r@.name is None,
            r@.identifier is None,
            r@.vendor is None,
            r@.per_core_mhz.len() == 0,
            r@.logical_cores == 0,
            r@.perf_cores is None,
            r@.eff_cores is None,
    {
        CpuIdentity {
            name: None,
            identifier: None,
            vendor: None,
            per_core_mhz: Vec::new(),
            logical_cores: 0,
            perf_cores: None,
            eff_cores: None,
        }
    }
}

/// The text of an optional string, empty when absent.
pub open spec fn text_or_empty(o: Option<Seq<char>>) -> Seq<char> {
    match o {
        Some(s) => s,
        None => Seq::empty(),
    }
}

/// The largest value of `s`, `None` when `s` is empty.
pub open spec fn max_of(s: Seq<u32>) -> Option<u32>
    decreases s.len(),
{
    if s.len() == 0 {
        None
    } else {
        match max_of(s.drop_last()) {
            None => Some(s.last()),
            Some(m) => Some(if s.last() > m { s.last() } else { m }),
        }
    }
}

/// The lowercased name (empty name when absent).
pub open spec fn lowered_name(v: IdentityView) -> Seq<char> {
    lowercase(text_or_empty(v.name))
}

/// Whether `c` is an ASCII letter or digit.
pub open spec fn is_ascii_alnum(c: char) -> bool {
    ('0' <= c && c <= '9') || ('a' <= c && c <= 'z') || ('A' <= c && c <= 'Z')
}

/// The ASCII letters and digits of `s`, in order.
pub open spec fn keep_alnum(s: Seq<char>) -> Seq<char>
    decreases s.len(),
{
    if s.len() == 0 {
        Seq::empty()
    } else if is_ascii_alnum(s.last()) {
        keep_alnum(s.drop_last()).push(s.last())
    } else {
        keep_alnum(s.drop_last())
    }
}

/// The name reduced to its lowercased ASCII letters and digits.
pub open spec fn normalized(v: IdentityView) -> Seq<char> {
    keep_alnum(lowered_name(v))
}

/// Whether every character of `s` is an ASCII digit or lowercase letter.
pub open spec fn lower_alnum(s: Seq<char>) -> bool {
    forall|i: int| 0 <= i < s.len() ==> ('0' <= #[trigger] s[i] && s[i] <= '9') || ('a' <= s[i] && s[i] <= 'z')
}

/// Text made only of ASCII letters and digits is kept whole.
proof fn lemma_keep_alnum_whole(s: Seq<char>)
    requires
        forall|i: int| 0 <= i < s.len() ==> is_ascii_alnum(#[trigger] s[i]),
    ensures
        keep_alnum(s) == s,
    decreases s.len(),
{
    if s.len() > 0 {
        lemma_keep_alnum_whole(s.drop_last());
        assert(s.drop_last().push(s.last()) =~= s);
    }
}

/// Normalizing a name that is already normalized changes nothing: digits
/// and lowercase letters are ASCII, lowercase and alphanumeric.
pub proof fn lemma_normalized_idempotent(v: IdentityView, t: Seq<char>)
    requires
        lower_alnum(t),
    ensures
        normalized(IdentityView { name: Some(t), ..v }) == t,
{
    let w = IdentityView { name: Some(t), ..v };
    assert(all_ascii(t)) by {
        assert forall|i: int| 0 <= i < t.len() implies is_ascii_char(#[trigger] t[i]) by {
            assert(('0' <= t[i] && t[i] <= '9') || ('a' <= t[i] && t[i] <= 'z'));
        }
    }
    assert(t.map_values(|c: char| ascii_lower_char(c)) =~= t);
    assert(lowered_name(w) == t);
    lemma_keep_alnum_whole(t);
}


/// Characters that can make up the number before a clock unit.
pub open spec fn is_clock_char(c: char) -> bool {
    ('0' <= c && c <= '9') || c == '.'
}

/// Length of the run of clock characters at the end of `t`.
pub open spec fn clock_run(t: Seq<char>) -> nat
    decreases t.len(),
{
    if t.len() > 0 && is_clock_char(t.last()) {
        clock_run(t.drop_last()) + 1
    } else {
        0
    }
}

/// Position of the clock unit: the later of the last "ghz" and the last "mhz".
pub open spec fn unit_position(lower: Seq<char>) -> Option<int> {
    match (last_occurrence(lower, "ghz"@), last_occurrence(lower, "mhz"@)) {
        (Some(a), Some(b)) => Some(if a > b { a } else { b }),
        (Some(a), None) => Some(a),
        (None, Some(b)) => Some(b),
        (None, None) => None,
    }
}

/// Index of the first '.' in `s` (its length if none).
pub open spec fn first_dot(s: Seq<char>) -> nat
    decreases s.len(),
{
    if s.len() == 0 {
        0
    } else if s.first() == '.' {
        0
    } else {
        1 + first_dot(s.drop_first())
    }
}

/// Whether `s` holds a '.'.
pub open spec fn has_dot(s: Seq<char>) -> bool {
    exists|i: int| 0 <= i < s.len() && s[i] == '.'
}

/// `frac` cut or padded with '0' to exactly `k` characters.
pub open spec fn padded(frac: Seq<char>, k: nat) -> Seq<char> {
    if frac.len() >= k {
        frac.take(k as int)
    } else {
        frac + Seq::new((k - frac.len()) as nat, |i: int| '0')
    }
}

/// The decimal number `digits` (digits with at most one '.', as `f64`
/// parsing accepts them: `D+`, `D+.D*` or `D*.D+`) times `10^k`, rounded
/// half up to a whole number. `None` when the text is no such number.
pub open spec fn decimal_scaled(digits: Seq<char>, k: nat) -> Option<nat> {
    let d = first_dot(digits) as int;
    let ip = digits.take(d);
    let fp = if d < digits.len() { digits.skip(d + 1) } else { Seq::<char>::empty() };
    if has_dot(fp) || ip.len() + fp.len() == 0 {
        None
    } else {
        Some(digits_value(ip + padded(fp, k), 10) + if fp.len() > k && digit_of(fp[k as int]) >= 5 {
            1nat
        } else {
            0nat
        })
    }
}

/// The rated clock written in a lowercased CPU name: the number before the
/// last "ghz"/"mhz" unit (whitespace allowed in between), in MHz, when it
/// lies in 500..=8000.
pub open spec fn clock_of(lower: Seq<char>) -> Option<u32> {
    match unit_position(lower) {
        None => None,
        Some(pos) => {
            let t = trim_end(lower.take(pos));
            let run = clock_run(t);
            let digits = t.skip(t.len() - run);
            let k: nat = if occurs_at(lower, "ghz"@, pos) { 3 } else { 0 };
            if run == 0 {
                None
            } else {
                match decimal_scaled(digits, k) {
                    Some(n) => if 500 <= n && n <= 8000 { Some(n as u32) } else { None },
                    None => None,
                }
            }
        },
    }
}

/// The Oryon generation written in an `Identifier` string: the first
/// whitespace-separated token after the first "Model " (and before any
/// later one), read as hexadecimal.
pub open spec fn generation_of(ident: Seq<char>) -> Option<u32> {
    match find_from(ident, "Model "@, 0) {
        None => None,
        Some(f) => {
            let a = f + "Model "@.len();
            let end = match find_from(ident, "Model "@, a) {
                Some(j) => j,
                None => ident.len() as int,
            };
            parse_u32(first_token(ident.subrange(a, end)), 16)
        },
    }
}

/// Start of the run of clock characters that ends at `e`.
fn clock_run_start(s: &Vec<char>, e: usize) -> (b: usize)
    requires
        e <= s.len(),
    ensures
        b <= e,
        clock_run(s@.subrange(0, e as int)) == e - b,
        forall|q: int| b <= q < e ==> is_clock_char(#[trigger] s@[q]),
{
    let mut b = e;
    while b > 0 && (('0' <= s[b - 1] && s[b - 1] <= '9') || s[b - 1] == '.')
        invariant
            b <= e <= s.len(),
            clock_run(s@.subrange(0, e as int)) == clock_run(s@.subrange(0, b as int)) + (e - b),
            forall|q: int| b <= q < e ==> is_clock_char(#[trigger] s@[q]),
        decreases b,
    {
        assert(s@.subrange(0, b as int).drop_last() =~= s@.subrange(0, b - 1));
        b = b - 1;
    }
    if b > 0 {
        assert(!is_clock_char(s@.subrange(0, b as int).last()));
    }
    b
}

/// Index of the first '.' in `s@.subrange(b, e)`, as an absolute index.
fn first_dot_exec(s: &Vec<char>, b: usize, e: usize) -> (d: usize)
    requires
        b <= e <= s.len(),
    ensures
        b <= d <= e,
        d - b == first_dot(s@.subrange(b as int, e as int)),
        forall|q: int| b <= q < d ==> s@[q] != '.',
        d < e ==> s@[d as int] == '.',
{
    let mut d = b;
    while d < e && s[d] != '.'
        invariant
            b <= d <= e <= s.len(),
            first_dot(s@.subrange(b as int, e as int)) == (d - b) + first_dot(s@.subrange(d as int, e as int)),
            forall|q: int| b <= q < d ==> s@[q] != '.',
        decreases e - d,
    {
        assert(s@.subrange(d as int, e as int).drop_first() =~= s@.subrange(d + 1, e as int));
        d = d + 1;
    }
    d
}

/// `s@.subrange(b, d)` followed by `s@.subrange(f, e)` cut or padded to `k` characters.
fn int_and_padded_frac(s: &Vec<char>, b: usize, d: usize, f: usize, e: usize, k: usize) -> (comb: Vec<char>)
    requires
        b <= d <= e <= s.len(),
        f <= e,
        k <= 3,
    ensures
        comb@ == s@.subrange(b as int, d as int) + padded(s@.subrange(f as int, e as int), k as nat),
{
    let ghost ip = s@.subrange(b as int, d as int);
    let ghost fp = s@.subrange(f as int, e as int);
    let mut comb: Vec<char> = Vec::new();
    let mut q = b;
    while q < d
        invariant
            b <= q <= d <= e <= s.len(),
            comb@ == s@.subrange(b as int, q as int),
        decreases d - q,
    {
        comb.push(s[q]);
        assert(s@.subrange(b as int, q + 1) =~= s@.subrange(b as int, q as int).push(s@[q as int]));
        q = q + 1;
    }
    let mut r: usize = 0;
    while r < k
        invariant
            k <= 3,
            r <= k,
            b <= d <= e <= s.len(),
            f <= e,
            ip == s@.subrange(b as int, d as int),
            fp == s@.subrange(f as int, e as int),
            comb@ == ip + padded(fp, k as nat).take(r as int),
        decreases k - r,
    {
        let c = if r < e - f { s[f + r] } else { '0' };
        assert(padded(fp, k as nat)[r as int] == c);
        comb.push(c);
        assert(padded(fp, k as nat).take(r + 1) =~= padded(fp, k as nat).take(r as int).push(c));
        r = r + 1;
    }
    assert(padded(fp, k as nat).take(k as int) =~= padded(fp, k as nat));
    comb
}

/// `decimal_scaled(s@.subrange(b, e), k)`, capped at 10000.
fn scaled_decimal(s: &Vec<char>, b: usize, e: usize, k: usize) -> (r: Option<u64>)
    requires
        b <= e <= s.len(),
        k <= 3,
        forall|q: int| b <= q < e ==> is_clock_char(#[trigger] s@[q]),
    ensures
        r is None <==> decimal_scaled(s@.subrange(b as int, e as int), k as nat) is None,
        r matches Some(v) ==> v == (if decimal_scaled(s@.subrange(b as int, e as int), k as nat)->0 >= 10000 {
            10000
        } else {
            decimal_scaled(s@.subrange(b as int, e as int), k as nat)->0
        }),
{
    let ghost digits = s@.subrange(b as int, e as int);
    let d = first_dot_exec(s, b, e);
    let f = if d < e { d + 1 } else { e };
    let ghost ip = digits.take(d - b);
    let ghost fp = if (d - b) < digits.len() { digits.skip(d - b + 1) } else { Seq::<char>::empty() };
    assert(ip =~= s@.subrange(b as int, d as int));
    assert(fp =~= s@.subrange(f as int, e as int));
    assert(decimal_scaled(digits, k as nat) is None <==> (has_dot(fp) || ip.len() + fp.len() == 0));
    let mut j = f;
    while j < e
        invariant
            f <= j <= e <= s.len(),
            fp == s@.subrange(f as int, e as int),
            digits == s@.subrange(b as int, e as int),
            decimal_scaled(digits, k as nat) is None <==> (has_dot(fp) || ip.len() + fp.len() == 0),
            forall|q: int| f <= q < j ==> s@[q] != '.',
        decreases e - j,
    {
        if s[j] == '.' {
            assert(0 <= j - f < fp.len() && fp[j - f] == '.');
            return None;
        }
        j = j + 1;
    }
    assert(!has_dot(fp));
    if (d - b) + (e - f) == 0 {
        return None;
    }
    let comb = int_and_padded_frac(s, b, d, f, e, k);
    assert(all_digits(comb@, 10)) by {
        assert forall|i: int| 0 <= i < comb@.len() implies is_digit(#[trigger] comb@[i], 10) by {
            if i < ip.len() {
                assert(comb@[i] == s@[b + i]);
                assert(is_clock_char(s@[b + i]));
            } else {
                let w = i - ip.len();
                if w < fp.len() {
                    assert(comb@[i] == s@[f + w]);
                    assert(is_clock_char(s@[f + w]));
                    assert(s@[f + w] != '.');
                } else {
                    assert(comb@[i] == '0');
                }
            }
        }
    }
    let cap: u64 = 10000;
    let (v, ok) = capped_value(&comb, 0, comb.len(), 10, cap);
    assert(comb@.subrange(0, comb@.len() as int) =~= comb@);
    let up: u64 = if (e - f) > k && digit_exec(s[f + k]) >= 5 { 1 } else { 0 };
    assert(up == (if fp.len() > k && digit_of(fp[k as int]) >= 5 { 1nat } else { 0nat }));
    if v >= cap {
        Some(cap)
    } else {
        let n = v + up;
        Some(if n >= cap { cap } else { n })
    }
}

impl CpuIdentity {
    /// The highest per-core `~MHz` seen.
    pub fn max_mhz(&self) -> (r: Option<u32>)
        ensures
            r == max_of(self@.per_core_mhz),
    {
        let mut best: Option<u32> = None;
        let mut i: usize = 0;
        while i < self.per_core_mhz.len()
            invariant
                i <= self.per_core_mhz.len(),
                best == max_of(self.per_core_mhz@.take(i as int)),
            decreases self.per_core_mhz.len() - i,
        {
            let v = self.per_core_mhz[i];
            assert(self.per_core_mhz@.take(i + 1).drop_last() =~= self.per_core_mhz@.take(i as int));
            best = match best {
                None => Some(v),
                Some(m) => Some(if v > m { v } else { m }),
            };
            i = i + 1;
        }
        assert(self.per_core_mhz@.take(i as int) =~= self.per_core_mhz@);
        best
    }

    /// The name, lowercased (`str::to_lowercase`); empty when there is no name.
    pub fn name_lower(&self) -> (r: String)
        ensures
            r@ == lowered_name(self@),
            no_ascii_upper(r@),
    {
        match &self.name {
            Some(n) => to_lowercase(n.as_str()),
            None => {
                proof {
                    reveal_strlit("");
                }
                assert(""@ =~= Seq::<char>::empty());
                to_lowercase("")
            },
        }
    }

    /// The lowercased name's characters.
    fn lowered_chars(&self) -> (v: Vec<char>)
        ensures
            v@ == lowered_name(self@),
            no_ascii_upper(v@),
    {
        let l = self.name_lower();
        chars_of(l.as_str())
    }

    /// Only the ASCII letters and digits of the lowercased name, as characters.
    pub fn normalized_chars(&self) -> (v: Vec<char>)
        ensures
            v@ == normalized(self@),
            lower_alnum(v@),
    {
        let l = self.lowered_chars();
        let mut v: Vec<char> = Vec::new();
        let mut i: usize = 0;
        while i < l.len()
            invariant
                i <= l.len(),
                v@ == keep_alnum(l@.take(i as int)),
                no_ascii_upper(l@),
                lower_alnum(v@),
            decreases l.len() - i,
        {
            let c = l[i];
            assert(l@.take(i + 1).drop_last() =~= l@.take(i as int));
            if ('0' <= c && c <= '9') || ('a' <= c && c <= 'z') || ('A' <= c && c <= 'Z') {
                v.push(c);
            }
            i = i + 1;
        }
        assert(l@.take(i as int) =~= l@);
        v
    }

    /// Keep only ASCII alphanumerics of the lowercased name — immune to
    /// hyphens, spaces and "(R)"/"(TM)" marks.
    pub fn normalized_name(&self) -> (r: String)
        ensures
            r@ == normalized(self@),
            lower_alnum(r@),
            normalized(IdentityView { name: Some(r@), ..self@ }) == r@,
    {
        let v = self.normalized_chars();
        let mut s = String::new();
        let mut i: usize = 0;
        while i < v.len()
            invariant
                i <= v.len(),
                s@ == v@.take(i as int),
            decreases v.len() - i,
        {
            push_char(&mut s, v[i]);
            assert(v@.take(i + 1) =~= v@.take(i as int).push(v@[i as int]));
            i = i + 1;
        }
        assert(v@.take(i as int) =~= v@);
        proof {
            lemma_normalized_idempotent(self@, s@);
        }
        s
    }

    /// Rated clock embedded in the name, e.g. "@ 4.03 GHz" -> Some(4030);
    /// read from the raw lowercased name (the normalized name lacks the '.').
    pub fn name_clock_mhz(&self) -> (r: Option<u32>)
        ensures
            r == clock_of(lowered_name(self@)),
    {
        let lower = self.lowered_chars();
        let ghz = chars_of("ghz");
        let mhz = chars_of("mhz");
        let g = rfind(&lower, &ghz);
        let m = rfind(&lower, &mhz);
        let pos = match (g, m) {
            (Some(a), Some(b)) => if a > b { a } else { b },
            (Some(a), None) => a,
            (None, Some(b)) => b,
            (None, None) => { return None; },
        };
        assert(unit_position(lower@) == Some(pos as int));
        let is_ghz = matches_at(&lower, &ghz, pos);
        let e = trim_end_index(&lower, 0, pos);
        assert(lower@.take(pos as int) =~= lower@.subrange(0, pos as int));
        let b = clock_run_start(&lower, e);
        let ghost t = lower@.subrange(0, e as int);
        assert(t.skip(t.len() - (e - b)) =~= lower@.subrange(b as int, e as int));
        if b == e {
            return None;
        }
        let k: usize = if is_ghz { 3 } else { 0 };
        match scaled_decimal(&lower, b, e, k) {
            None => None,
            Some(v) => {
                if v >= 10000 {
                    None
                } else if 500 <= v && v <= 8000 {
                    Some(v as u32)
                } else {
                    None
                }
            },
        }
    }

    /// MIDR part number decoded from `Identifier`'s "Model <hex>" token:
    /// `1` = Oryon (X1 family), `2` = Oryon V3 (X2 family).
    pub fn oryon_generation(&self) -> (r: Option<u32>)
        ensures
            r == match self@.identifier {
                None => None,
                Some(id) => generation_of(id),
            },
    {
        let id = match &self.identifier {
            Some(s) => chars_of(s.as_str()),
            None => { return None; },
        };
        let p = chars_of("Model ");
        let f = match find_from_exec(&id, &p, 0) {
            Some(f) => f,
            None => { return None; },
        };
        proof {
            lemma_find_from(id@, p@, 0);
        }
        let a = f + p.len();
        let end = match find_from_exec(&id, &p, a) {
            Some(j) => {
                proof {
                    lemma_find_from(id@, p@, a as int);
                }
                j
            },
            None => id.len(),
        };
        let ts = trim_start_index(&id, a, end);
        let te = token_end(&id, ts, end);
        assert(id@.subrange(ts as int, end as int).take(te - ts) =~= id@.subrange(ts as int, te as int));
        parse_u32_exec(&id, ts, te, 16)
    }
}

/// The highest ~MHz reading is one of the readings and no reading exceeds
/// it; there is none exactly when nothing was read.
pub proof fn lemma_max_of(s: Seq<u32>)
    ensures
        max_of(s) is None <==> s.len() == 0,
        max_of(s) matches Some(m) ==> (exists|i: int| 0 <= i < s.len() && s[i] == m) && (forall|i: int|
            0 <= i < s.len() ==> s[i] <= m),
    decreases s.len(),
{
    if s.len() > 0 {
        lemma_max_of(s.drop_last());
        let m = max_of(s).unwrap();
        assert forall|i: int| 0 <= i < s.len() implies s[i] <= m by {
            if i < s.len() - 1 {
                assert(s[i] == s.drop_last()[i]);
            }
        }
        if max_of(s.drop_last()) is Some && m == max_of(s.drop_last())->0 {
            let w = choose|w: int| 0 <= w < s.drop_last().len() && s.drop_last()[w] == m;
            assert(s[w] == m);
        } else {
            assert(s[s.len() - 1] == m);
        }
    }
}

/// A clock read from a name is always a plausible CPU clock: between 500
/// and 8000 MHz.
pub proof fn lemma_clock_in_range(lower: Seq<char>)
    ensures
        clock_of(lower) matches Some(m) ==> 500 <= m <= 8000,
{
}

} // verus!

//! Character-sequence helpers shared by the identity parsers: substring
//! search, whitespace trimming, and unsigned integer parsing, each stated
//! over `Seq<char>`.
use vstd::prelude::*;

verus! {

broadcast use vstd::string::group_string_axioms;

// ---------------------------------------------------------------------------
// Trusted std items
// ---------------------------------------------------------------------------

/// What `str::to_lowercase` returns for text that holds a non-ASCII
/// character: the Unicode lowercase mapping, which may change the length.
pub uninterp spec fn unicode_lowercase(s: Seq<char>) -> Seq<char>;

/// Whether `c` is an ASCII character.
pub open spec fn is_ascii_char(c: char) -> bool {
    (c as u32) < 128
}

/// Whether every character of `s` is ASCII.
pub open spec fn all_ascii(s: Seq<char>) -> bool {
    forall|i: int| 0 <= i < s.len() ==> is_ascii_char(#[trigger] s[i])
}

/// Whether `c` is an ASCII uppercase letter.
pub open spec fn is_ascii_upper(c: char) -> bool {
    'A' <= c && c <= 'Z'
}

/// `c` with an ASCII uppercase letter mapped to its lowercase letter.
pub open spec fn ascii_lower_char(c: char) -> char {
    if is_ascii_upper(c) {
        ((c as u32) + 32) as char
    } else {
        c
    }
}

/// Whether `s` holds no ASCII uppercase letter.
pub open spec fn no_ascii_upper(s: Seq<char>) -> bool {
    forall|i: int| 0 <= i < s.len() ==> !is_ascii_upper(#[trigger] s[i])
}

/// `str::to_lowercase`: on ASCII text, A-Z become a-z and every other
/// character stays; text with a non-ASCII character gets the Unicode mapping.
pub open spec fn lowercase(s: Seq<char>) -> Seq<char> {
    if all_ascii(s) {
        s.map_values(|c: char| ascii_lower_char(c))
    } else {
        unicode_lowercase(s)
    }
}

/// Calls `str::to_lowercase`. On ASCII text the result is stated exactly
/// (A-Z to a-z, every other character unchanged); on other text it is the
/// named Unicode lowercase mapping, of which only this is stated: no ASCII
/// uppercase letter is left in it (a Unicode lowercase mapping never yields
/// one).
#[verifier::external_body]
pub(crate) fn to_lowercase(s: &str) -> (r: String)
    ensures
        r@ == lowercase(s@),
        !all_ascii(s@) ==> r@ == unicode_lowercase(s@),
        no_ascii_upper(r@),
{
    s.to_lowercase()
}

/// `char::is_whitespace`: the Unicode `White_Space` property, which holds of
/// U+0009..U+000D, U+0020, U+0085, U+00A0, U+1680, U+2000..U+200A, U+2028,
/// U+2029, U+202F, U+205F and U+3000.
pub open spec fn unicode_whitespace(c: char) -> bool {
    ('\u{9}' <= c && c <= '\u{d}') || c == ' ' || c == '\u{85}' || c == '\u{a0}' || c == '\u{1680}'
        || ('\u{2000}' <= c && c <= '\u{200a}') || c == '\u{2028}' || c == '\u{2029}' || c == '\u{202f}'
        || c == '\u{205f}' || c == '\u{3000}'
}

/// Whether `c` is whitespace in the sense of `char::is_whitespace`.
pub fn is_whitespace(c: char) -> (r: bool)
    ensures
        r == unicode_whitespace(c),
{
    ('\u{9}' <= c && c <= '\u{d}') || c == ' ' || c == '\u{85}' || c == '\u{a0}' || c == '\u{1680}'
        || ('\u{2000}' <= c && c <= '\u{200a}') || c == '\u{2028}' || c == '\u{2029}' || c == '\u{202f}'
        || c == '\u{205f}' || c == '\u{3000}'
}

/// Calls `String::push`, which appends one character to the string.
#[verifier::external_body]
pub(crate) fn push_char(s: &mut String, c: char)
    ensures
        final(s)@ == old(s)@.push(c),
{
    s.push(c)
}

// ---------------------------------------------------------------------------
// Conversions
// ---------------------------------------------------------------------------

/// The characters of `s`, in order.
pub fn chars_of(s: &str) -> (v: Vec<char>)
    ensures
        v@ == s@,
{
    let mut v: Vec<char> = Vec::new();
    for c in it: s.chars()
        invariant
            v@ == it.seq().take(it.index() as int),
            it.seq() == s@,
    {
        v.push(c);
    }
    v
}

/// A `String` holding exactly the characters of `v@.subrange(from, to)`.
pub fn string_of(v: &Vec<char>, from: usize, to: usize) -> (s: String)
    requires
        from <= to <= v.len(),
    ensures
        s@ == v@.subrange(from as int, to as int),
{
    let mut s = String::new();
    let mut i = from;
    while i < to
        invariant
            from <= i <= to <= v.len(),
            s@ == v@.subrange(from as int, i as int),
        decreases to - i,
    {
        push_char(&mut s, v[i]);
        assert(v@.subrange(from as int, i + 1) =~= v@.subrange(from as int, i as int).push(v@[i as int]));
        i = i + 1;
    }
    s
}

// ---------------------------------------------------------------------------
// Substring search
// ---------------------------------------------------------------------------

/// True when `p` occurs as a contiguous run of `s`.
pub open spec fn has_sub(s: Seq<char>, p: Seq<char>) -> bool {
    exists|i: int| 0 <= i <= s.len() - p.len() && #[trigger] s.subrange(i, i + p.len()) == p
}

/// True when `p` occurs in `s` starting at position `i`.
pub open spec fn occurs_at(s: Seq<char>, p: Seq<char>, i: int) -> bool {
    0 <= i <= s.len() - p.len() && s.subrange(i, i + p.len()) == p
}

/// Whether `p` occurs in `s` at index `at`.
pub fn matches_at(s: &Vec<char>, p: &Vec<char>, at: usize) -> (r: bool)
    requires
        at <= s.len(),
    ensures
        r == occurs_at(s@, p@, at as int),
{
    if p.len() > s.len() - at {
        return false;
    }
    let mut k: usize = 0;
    while k < p.len()
        invariant
            at + p.len() <= s.len(),
            k <= p.len(),
            forall|j: int| 0 <= j < k ==> s@[at + j] == p@[j],
        decreases p.len() - k,
    {
        if s[at + k] != p[k] {
            assert(s@.subrange(at as int, at + p.len())[k as int] != p@[k as int]);
            return false;
        }
        k = k + 1;
    }
    assert(s@.subrange(at as int, at + p.len()) =~= p@);
    true
}

/// `str::contains` over character vectors: whether `p` occurs in `s`.
pub fn contains(s: &Vec<char>, p: &Vec<char>) -> (r: bool)
    ensures
        r == has_sub(s@, p@),
{
    if p.len() > s.len() {
        return false;
    }
    if p.len() == 0 {
        assert(s@.subrange(0, 0 + p@.len() as int) =~= p@);
        return true;
    }
    let mut i: usize = 0;
    while i <= s.len() - p.len()
        invariant
            1 <= p.len() <= s.len(),
            i <= s.len() - p.len() + 1,
            forall|j: int| 0 <= j < i ==> !occurs_at(s@, p@, j),
        decreases s.len() - p.len() + 1 - i,
    {
        if matches_at(s, p, i) {
            return true;
        }
        i = i + 1;
    }
    assert forall|j: int| 0 <= j <= s@.len() - p@.len() implies #[trigger] s@.subrange(j, j + p@.len()) != p@ by {
        assert(!occurs_at(s@, p@, j));
    }
    false
}

/// `str::contains` with a string pattern.
pub fn contains_str(s: &Vec<char>, p: &str) -> (r: bool)
    ensures
        r == has_sub(s@, p@),
{
    let pv = chars_of(p);
    contains(s, &pv)
}

/// Index of the last occurrence of `p` in `s`, if any.
pub open spec fn last_occurrence(s: Seq<char>, p: Seq<char>) -> Option<int> {
    if has_sub(s, p) {
        Some(choose|i: int| occurs_at(s, p, i) && forall|j: int| occurs_at(s, p, j) ==> j <= i)
    } else {
        None
    }
}

/// `str::rfind`, counted in characters: the start of the last occurrence of `p`.
pub fn rfind(s: &Vec<char>, p: &Vec<char>) -> (r: Option<usize>)
    ensures
        match r {
            Some(i) => occurs_at(s@, p@, i as int) && forall|j: int| occurs_at(s@, p@, j) ==> j <= i,
            None => !has_sub(s@, p@),
        },
        r is Some <==> has_sub(s@, p@),
        r matches Some(i) ==> last_occurrence(s@, p@) == Some(i as int),
{
    if p.len() > s.len() {
        assert(!has_sub(s@, p@));
        return None;
    }
    if p.len() == 0 {
        let r = s.len();
        assert(s@.subrange(r as int, r as int) =~= p@);
        assert(occurs_at(s@, p@, r as int));
        let ghost c = choose|k: int| occurs_at(s@, p@, k) && forall|j: int| occurs_at(s@, p@, j) ==> j <= k;
        assert(occurs_at(s@, p@, c) && forall|j: int| occurs_at(s@, p@, j) ==> j <= c);
        return Some(r);
    }
    let mut i: usize = s.len() - p.len() + 1;
    while i > 0
        invariant
            p.len() <= s.len(),
            i <= s.len() - p.len() + 1,
            forall|j: int| i <= j <= s.len() - p.len() ==> !occurs_at(s@, p@, j),
        decreases i,
    {
        if matches_at(s, p, i - 1) {
            let r = i - 1;
            assert forall|j: int| occurs_at(s@, p@, j) implies j <= r by {}
            assert(occurs_at(s@, p@, r as int));
            let ghost c = choose|k: int| occurs_at(s@, p@, k) && forall|j: int| occurs_at(s@, p@, j) ==> j <= k;
            assert(has_sub(s@, p@)) by {
                assert(s@.subrange(r as int, r + p@.len()) == p@);
            }
            assert(occurs_at(s@, p@, c) && forall|j: int| occurs_at(s@, p@, j) ==> j <= c);
            return Some(r);
        }
        i = i - 1;
    }
    assert forall|j: int| 0 <= j <= s@.len() - p@.len() implies #[trigger] s@.subrange(j, j + p@.len()) != p@ by {
        assert(!occurs_at(s@, p@, j));
    }
    None
}

/// The first position at or after `a` where `p` occurs in `s`.
pub open spec fn find_from(s: Seq<char>, p: Seq<char>, a: int) -> Option<int>
    decreases s.len() + 1 - a,
{
    if a < 0 || a + p.len() > s.len() {
        None
    } else if occurs_at(s, p, a) {
        Some(a)
    } else {
        find_from(s, p, a + 1)
    }
}

/// What `find_from` returns is an occurrence at or after `a`.
pub proof fn lemma_find_from(s: Seq<char>, p: Seq<char>, a: int)
    ensures
        find_from(s, p, a) matches Some(j) ==> a <= j && occurs_at(s, p, j),
    decreases s.len() + 1 - a,
{
    if !(a < 0 || a + p.len() > s.len()) && !occurs_at(s, p, a) {
        lemma_find_from(s, p, a + 1);
    }
}

/// `find_from` in exec code.
pub fn find_from_exec(s: &Vec<char>, p: &Vec<char>, a: usize) -> (r: Option<usize>)
    requires
        a <= s.len(),
    ensures
        match r {
            Some(i) => find_from(s@, p@, a as int) == Some(i as int),
            None => find_from(s@, p@, a as int) is None,
        },
{
    if p.len() == 0 {
        assert(s@.subrange(a as int, a + p@.len()) =~= p@);
        return Some(a);
    }
    let mut i = a;
    while p.len() <= s.len() - i
        invariant
            1 <= p.len(),
            a <= i <= s.len(),
            find_from(s@, p@, a as int) == find_from(s@, p@, i as int),
        decreases s.len() - i,
    {
        if matches_at(s, p, i) {
            return Some(i);
        }
        i = i + 1;
    }
    None
}

// ---------------------------------------------------------------------------
// Whitespace trimming
// ---------------------------------------------------------------------------

/// `s` without its trailing whitespace.
pub open spec fn trim_end(s: Seq<char>) -> Seq<char>
    decreases s.len(),
{
    if s.len() > 0 && unicode_whitespace(s.last()) {
        trim_end(s.drop_last())
    } else {
        s
    }
}

/// `s` without its leading whitespace.
pub open spec fn trim_start(s: Seq<char>) -> Seq<char>
    decreases s.len(),
{
    if s.len() > 0 && unicode_whitespace(s.first()) {
        trim_start(s.drop_first())
    } else {
        s
    }
}

/// `s` without leading or trailing whitespace (`str::trim`).
pub open spec fn trim(s: Seq<char>) -> Seq<char> {
    trim_end(trim_start(s))
}

/// Number of characters left in `s@.subrange(from, to)` once trailing
/// whitespace is dropped, as an end index.
pub fn trim_end_index(s: &Vec<char>, from: usize, to: usize) -> (e: usize)
    requires
        from <= to <= s.len(),
    ensures
        from <= e <= to,
        trim_end(s@.subrange(from as int, to as int)) == s@.subrange(from as int, e as int),
{
    let mut e = to;
    while e > from && is_whitespace(s[e - 1])
        invariant
            from <= e <= to <= s.len(),
            trim_end(s@.subrange(from as int, to as int)) == trim_end(s@.subrange(from as int, e as int)),
        decreases e,
    {
        assert(s@.subrange(from as int, e as int).drop_last() =~= s@.subrange(from as int, e - 1));
        e = e - 1;
    }
    e
}

/// Start index once leading whitespace of `s@.subrange(from, to)` is dropped.
pub fn trim_start_index(s: &Vec<char>, from: usize, to: usize) -> (b: usize)
    requires
        from <= to <= s.len(),
    ensures
        from <= b <= to,
        trim_start(s@.subrange(from as int, to as int)) == s@.subrange(b as int, to as int),
{
    let mut b = from;
    while b < to && is_whitespace(s[b])
        invariant
            from <= b <= to <= s.len(),
            trim_start(s@.subrange(from as int, to as int)) == trim_start(s@.subrange(b as int, to as int)),
        decreases to - b,
    {
        assert(s@.subrange(b as int, to as int).drop_first() =~= s@.subrange(b + 1, to as int));
        b = b + 1;
    }
    b
}

/// Index of the first whitespace character of `t` (its length if none).
pub open spec fn first_ws(t: Seq<char>) -> nat
    decreases t.len(),
{
    if t.len() == 0 {
        0
    } else if unicode_whitespace(t.first()) {
        0
    } else {
        1 + first_ws(t.drop_first())
    }
}

/// The first whitespace-separated token of `s` (`split_whitespace().next()`,
/// empty when there is none).
pub open spec fn first_token(s: Seq<char>) -> Seq<char> {
    trim_start(s).take(first_ws(trim_start(s)) as int)
}

/// End index of the run of non-whitespace characters starting at `from`.
pub fn token_end(s: &Vec<char>, from: usize, to: usize) -> (e: usize)
    requires
        from <= to <= s.len(),
    ensures
        from <= e <= to,
        e - from == first_ws(s@.subrange(from as int, to as int)),
{
    let mut e = from;
    while e < to && !is_whitespace(s[e])
        invariant
            from <= e <= to <= s.len(),
            first_ws(s@.subrange(from as int, to as int)) == (e - from) + first_ws(s@.subrange(e as int, to as int)),
        decreases to - e,
    {
        assert(s@.subrange(e as int, to as int).drop_first() =~= s@.subrange(e + 1, to as int));
        e = e + 1;
    }
    e
}

// ---------------------------------------------------------------------------
// Digits and unsigned parsing
// ---------------------------------------------------------------------------

/// The digit value of `c` (`char::to_digit` before the radix check); 36
/// for a character that is no digit in any radix.
pub open spec fn digit_of(c: char) -> nat {
    if '0' <= c && c <= '9' {
        (c as int - '0' as int) as nat
    } else if 'a' <= c && c <= 'z' {
        (c as int - 'a' as int + 10) as nat
    } else if 'A' <= c && c <= 'Z' {
        (c as int - 'A' as int + 10) as nat
    } else {
        36
    }
}

/// Whether `c` is a digit in `radix`.
pub open spec fn is_digit(c: char, radix: nat) -> bool {
    digit_of(c) < radix
}

/// Whether every character of `s` is a digit in `radix`.
pub open spec fn all_digits(s: Seq<char>, radix: nat) -> bool {
    forall|i: int| 0 <= i < s.len() ==> is_digit(#[trigger] s[i], radix)
}

/// The number that the digits `s` spell in `radix` (most significant first).
pub open spec fn digits_value(s: Seq<char>, radix: nat) -> nat
    decreases s.len(),
{
    if s.len() == 0 {
        0
    } else {
        digits_value(s.drop_last(), radix) * radix + digit_of(s.last())
    }
}

/// What `u32::from_str_radix(s, radix)` (and, for radix 10, `str::parse::<u32>`)
/// accepts: an optional `+` and then at least one digit, with a value that
/// fits in a `u32`.
pub open spec fn parse_u32(s: Seq<char>, radix: nat) -> Option<u32> {
    let body = if s.len() > 0 && s[0] == '+' { s.drop_first() } else { s };
    if body.len() > 0 && all_digits(body, radix) && digits_value(body, radix) <= u32::MAX {
        Some(digits_value(body, radix) as u32)
    } else {
        None
    }
}

/// The digit value of `c` in exec code.
pub fn digit_exec(c: char) -> (d: u32)
    ensures
        d == digit_of(c),
{
    if '0' <= c && c <= '9' {
        (c as u32) - ('0' as u32)
    } else if 'a' <= c && c <= 'z' {
        (c as u32) - ('a' as u32) + 10
    } else if 'A' <= c && c <= 'Z' {
        (c as u32) - ('A' as u32) + 10
    } else {
        36
    }
}

proof fn lemma_capped_step(v: nat, radix: nat, d: nat, cap: nat)
    requires
        cap > 0,
        radix >= 1,
    ensures
        (if v >= cap { cap } else { v }) * radix + d >= cap ==> v * radix + d >= cap,
        (if v >= cap { cap } else { v }) * radix + d < cap ==> v * radix + d == (if v >= cap { cap } else { v }) * radix + d,
{
    if v >= cap {
        assert(cap * radix >= cap) by (nonlinear_arith) requires radix >= 1;
        assert(v * radix >= cap * radix) by (nonlinear_arith) requires v >= cap, radix >= 1;
    }
}

/// The value of the digits `s@.subrange(from, to)` in `radix`, capped at
/// `cap`, together with whether all of them are digits.
pub fn capped_value(s: &Vec<char>, from: usize, to: usize, radix: u32, cap: u64) -> (r: (u64, bool))
    requires
        from <= to <= s.len(),
        2 <= radix <= 36,
        0 < cap <= u32::MAX as u64 + 1,
    ensures
        r.1 == all_digits(s@.subrange(from as int, to as int), radix as nat),
        r.1 ==> r.0 == if digits_value(s@.subrange(from as int, to as int), radix as nat) >= cap {
            cap as nat
        } else {
            digits_value(s@.subrange(from as int, to as int), radix as nat)
        },
{
    let mut acc: u64 = 0;
    let mut ok = true;
    let mut i = from;
    while i < to
        invariant
            from <= i <= to <= s.len(),
            2 <= radix <= 36,
            0 < cap <= u32::MAX as u64 + 1,
            ok == all_digits(s@.subrange(from as int, i as int), radix as nat),
            ok ==> acc == if digits_value(s@.subrange(from as int, i as int), radix as nat) >= cap {
                cap as nat
            } else {
                digits_value(s@.subrange(from as int, i as int), radix as nat)
            },
            acc <= cap,
        decreases to - i,
    {
        let ghost prev = s@.subrange(from as int, i as int);
        let ghost next = s@.subrange(from as int, i + 1);
        assert(next.drop_last() =~= prev);
        assert(next.last() == s@[i as int]);
        let d = digit_exec(s[i]);
        if d >= radix {
            ok = false;
            assert(!is_digit(next[next.len() - 1], radix as nat));
        } else {
            if ok {
                assert(all_digits(next, radix as nat)) by {
                    assert forall|k: int| 0 <= k < next.len() implies is_digit(#[trigger] next[k], radix as nat) by {
                        if k < prev.len() {
                            assert(next[k] == prev[k]);
                        }
                    }
                }
            } else {
                assert(!all_digits(next, radix as nat)) by {
                    let k = choose|k: int| 0 <= k < prev.len() && !is_digit(#[trigger] prev[k], radix as nat);
                    assert(next[k] == prev[k]);
                }
            }
            proof {
                lemma_capped_step(digits_value(prev, radix as nat), radix as nat, d as nat, cap as nat);
            }
            assert(acc * (radix as u64) + (d as u64) <= (u32::MAX as u64 + 1) * 36 + 36) by (nonlinear_arith)
                requires acc <= cap, cap <= u32::MAX as u64 + 1, radix <= 36, d < 36;
            let n = acc * (radix as u64) + (d as u64);
            acc = if n >= cap { cap } else { n };
        }
        i = i + 1;
    }
    (acc, ok)
}

/// `u32::from_str_radix(s@.subrange(from, to), radix).ok()`.
pub fn parse_u32_exec(s: &Vec<char>, from: usize, to: usize, radix: u32) -> (r: Option<u32>)
    requires
        from <= to <= s.len(),
        2 <= radix <= 36,
    ensures
        r == parse_u32(s@.subrange(from as int, to as int), radix as nat),
{
    let ghost whole = s@.subrange(from as int, to as int);
    let start = if from < to && s[from] == '+' { from + 1 } else { from };
    assert(s@.subrange(start as int, to as int) =~= (if whole.len() > 0 && whole[0] == '+' {
        whole.drop_first()
    } else {
        whole
    }));
    if start == to {
        return None;
    }
    let cap: u64 = u32::MAX as u64 + 1;
    let (v, ok) = capped_value(s, start, to, radix, cap);
    if ok && v < cap {
        Some(v as u32)
    } else {
        None
    }
}


// ---------------------------------------------------------------------------
// Equality
// ---------------------------------------------------------------------------

/// Whether two character vectors are equal.
pub fn seq_eq(a: &Vec<char>, b: &Vec<char>) -> (r: bool)
    ensures
        r == (a@ == b@),
{
    if a.len() != b.len() {
        return false;
    }
    let mut i: usize = 0;
    while i < a.len()
        invariant
            a.len() == b.len(),
            i <= a.len(),
            forall|j: int| 0 <= j < i ==> a@[j] == b@[j],
        decreases a.len() - i,
    {
        if a[i] != b[i] {
            return false;
        }
        i = i + 1;
    }
    assert(a@ =~= b@);
    true
}

/// Whether two strings hold the same characters.
pub fn str_eq(a: &str, b: &str) -> (r: bool)
    ensures
        r == (a@ == b@),
{
    let av = chars_of(a);
    let bv = chars_of(b);
    seq_eq(&av, &bv)
}

/// The code of `c` with ASCII uppercase letters mapped to lowercase.
pub open spec fn ascii_lower_code(c: char) -> u32 {
    if 'A' <= c && c <= 'Z' {
        (c as u32 + 32) as u32
    } else {
        c as u32
    }
}

/// `str::eq_ignore_ascii_case`, stated on characters.
pub open spec fn eq_ignore_ascii_case(a: Seq<char>, b: Seq<char>) -> bool {
    a.len() == b.len() && forall|i: int| 0 <= i < a.len() ==> ascii_lower_code(#[trigger] a[i]) == ascii_lower_code(b[i])
}

fn ascii_lower_code_exec(c: char) -> (r: u32)
    ensures
        r == ascii_lower_code(c),
{
    if 'A' <= c && c <= 'Z' {
        (c as u32) + 32
    } else {
        c as u32
    }
}

/// Whether `s@.subrange(from, to)` equals `b@` ignoring ASCII case.
pub fn eq_ignore_ascii_case_exec(s: &Vec<char>, from: usize, to: usize, b: &Vec<char>) -> (r: bool)
    requires
        from <= to <= s.len(),
    ensures
        r == eq_ignore_ascii_case(s@.subrange(from as int, to as int), b@),
{
    let ghost a = s@.subrange(from as int, to as int);
    if to - from != b.len() {
        return false;
    }
    let mut i: usize = 0;
    while i < b.len()
        invariant
            to - from == b.len(),
            from <= to <= s.len(),
            a == s@.subrange(from as int, to as int),
            i <= b.len(),
            forall|j: int| 0 <= j < i ==> ascii_lower_code(#[trigger] a[j]) == ascii_lower_code(b@[j]),
        decreases b.len() - i,
    {
        if ascii_lower_code_exec(s[from + i]) != ascii_lower_code_exec(b[i]) {
            assert(a[i as int] == s@[from + i]);
            return false;
        }
        assert(a[i as int] == s@[from + i]);
        i = i + 1;
    }
    true
}

} // verus!

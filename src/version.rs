//! Lenient version parsing and the minimum-safe-version gate.
use vstd::prelude::*;
use crate::text::chars_of;

verus! {

/// The oldest engine release that carries the known security fixes.
pub const MIN_SAFE_ENGINE_VERSION: &'static str = "1.1.10";

/// A parsed version: major, minor and patch.
pub type VersionTriple = (u32, u32, u32);

pub open spec fn is_digit(c: char) -> bool {
    '0' <= c && c <= '9'
}

pub open spec fn is_run_char(c: char) -> bool {
    is_digit(c) || c == '.'
}

pub open spec fn digit_value(c: char) -> nat {
    (c as int - '0' as int) as nat
}

/// The first index at or after `i` that holds a digit, or `s.len()`.
pub open spec fn first_digit_from(s: Seq<char>, i: int) -> int
    decreases s.len() - i,
{
    if i >= s.len() {
        s.len() as int
    } else if is_digit(s[i]) {
        i
    } else {
        first_digit_from(s, i + 1)
    }
}

/// The first index at or after `i` that holds neither a digit nor a dot, or `s.len()`.
pub open spec fn run_end_from(s: Seq<char>, i: int) -> int
    decreases s.len() - i,
{
    if i >= s.len() {
        s.len() as int
    } else if !is_run_char(s[i]) {
        i
    } else {
        run_end_from(s, i + 1)
    }
}

/// The first index at or after `i` that holds a dot, or `s.len()`.
pub open spec fn dot_from(s: Seq<char>, i: int) -> int
    decreases s.len() - i,
{
    if i >= s.len() {
        s.len() as int
    } else if s[i] == '.' {
        i
    } else {
        dot_from(s, i + 1)
    }
}

/// The first maximal run of digits and dots that begins with a digit.
pub open spec fn version_run(s: Seq<char>) -> Seq<char> {
    let d = first_digit_from(s, 0);
    s.subrange(d, run_end_from(s, d))
}

/// The decimal value of a string of digits.
pub open spec fn digits_value(s: Seq<char>) -> nat
    decreases s.len(),
{
    if s.len() == 0 {
        0
    } else {
        digits_value(s.drop_last()) * 10 + digit_value(s.last())
    }
}

/// A dot-separated field: a non-empty string of digits whose value fits in `u32`.
pub open spec fn field_value(f: Seq<char>) -> Option<u32> {
    if f.len() > 0 && digits_value(f) <= u32::MAX {
        Some(digits_value(f) as u32)
    } else {
        None
    }
}

/// The field of `r` that starts at `start`: absent fields read as zero.
pub open spec fn field_at(r: Seq<char>, start: int) -> Option<u32> {
    if start > r.len() {
        Some(0)
    } else {
        field_value(r.subrange(start, dot_from(r, start)))
    }
}

/// The version named by a run of digits and dots: its first three dot-separated
/// fields, where a missing minor or patch field counts as zero.
pub open spec fn version_of_run(r: Seq<char>) -> Option<VersionTriple> {
    let e0 = dot_from(r, 0);
    let e1 = dot_from(r, e0 + 1);
    match (field_at(r, 0), field_at(r, e0 + 1), field_at(r, e1 + 1)) {
        (Some(a), Some(b), Some(c)) => Some((a, b, c)),
        _ => None,
    }
}

/// The version found in free text, if any.
pub open spec fn parse_version(s: Seq<char>) -> Option<VersionTriple> {
    let r = version_run(s);
    if r.len() == 0 {
        None
    } else {
        version_of_run(r)
    }
}

/// `a` is at least `b`, comparing major, then minor, then patch.
pub open spec fn version_ge(a: VersionTriple, b: VersionTriple) -> bool {
    a.0 > b.0 || (a.0 == b.0 && (a.1 > b.1 || (a.1 == b.1 && a.2 >= b.2)))
}

/// Whether `version` is at least `minimum`, when both name a version.
pub open spec fn version_safe(version: Seq<char>, minimum: Seq<char>) -> Option<bool> {
    match (parse_version(version), parse_version(minimum)) {
        (Some(v), Some(m)) => Some(version_ge(v, m)),
        _ => None,
    }
}

proof fn lemma_first_digit_bounds(s: Seq<char>, i: int)
    requires
        0 <= i <= s.len(),
    ensures
        i <= first_digit_from(s, i) <= s.len(),
        first_digit_from(s, i) < s.len() ==> is_digit(s[first_digit_from(s, i)]),
        forall|j: int| i <= j < first_digit_from(s, i) ==> !is_digit(#[trigger] s[j]),
    decreases s.len() - i,
{
    if i < s.len() && !is_digit(s[i]) {
        lemma_first_digit_bounds(s, i + 1);
    }
}

proof fn lemma_run_end_bounds(s: Seq<char>, i: int)
    requires
        0 <= i <= s.len(),
    ensures
        i <= run_end_from(s, i) <= s.len(),
        forall|j: int| i <= j < run_end_from(s, i) ==> is_run_char(#[trigger] s[j]),
    decreases s.len() - i,
{
    if i < s.len() && is_run_char(s[i]) {
        lemma_run_end_bounds(s, i + 1);
    }
}

proof fn lemma_dot_bounds(s: Seq<char>, i: int)
    requires
        0 <= i <= s.len(),
    ensures
        i <= dot_from(s, i) <= s.len(),
        dot_from(s, i) < s.len() ==> s[dot_from(s, i)] == '.',
        forall|j: int| i <= j < dot_from(s, i) ==> #[trigger] s[j] != '.',
    decreases s.len() - i,
{
    if i < s.len() && s[i] != '.' {
        lemma_dot_bounds(s, i + 1);
    }
}

/// The index of the first digit at or after `i`.
fn find_first_digit(v: &Vec<char>, i: usize) -> (r: usize)
    requires
        i <= v@.len(),
    ensures
        r as int == first_digit_from(v@, i as int),
{
    let mut k = i;
    while k < v.len() && !('0' <= v[k] && v[k] <= '9')
        invariant
            i <= k <= v@.len(),
            first_digit_from(v@, i as int) == first_digit_from(v@, k as int),
        decreases v@.len() - k,
    {
        k = k + 1;
    }
    k
}

/// The end of the run of digits and dots that starts at `i`.
fn find_run_end(v: &Vec<char>, i: usize) -> (r: usize)
    requires
        i <= v@.len(),
    ensures
        r as int == run_end_from(v@, i as int),
{
    let mut k = i;
    while k < v.len() && (('0' <= v[k] && v[k] <= '9') || v[k] == '.')
        invariant
            i <= k <= v@.len(),
            run_end_from(v@, i as int) == run_end_from(v@, k as int),
        decreases v@.len() - k,
    {
        k = k + 1;
    }
    k
}

/// The index of the first dot at or after `i` within `v[..end]`.
fn find_dot(v: &Vec<char>, i: usize) -> (r: usize)
    requires
        i <= v@.len(),
    ensures
        r as int == dot_from(v@, i as int),
{
    let mut k = i;
    while k < v.len() && v[k] != '.'
        invariant
            i <= k <= v@.len(),
            dot_from(v@, i as int) == dot_from(v@, k as int),
        decreases v@.len() - k,
    {
        k = k + 1;
    }
    k
}

/// The value of the field `v[from..to]`, which holds digits only.
fn parse_field(v: &Vec<char>, from: usize, to: usize) -> (r: Option<u32>)
    requires
        from <= to <= v@.len(),
        forall|j: int| from <= j < to ==> is_digit(#[trigger] v@[j]),
    ensures
        r == field_value(v@.subrange(from as int, to as int)),
{
    let ghost f = v@.subrange(from as int, to as int);
    let cap: u64 = 0x1_0000_0000;
    let mut acc: u64 = 0;
    let mut k = from;
    while k < to
        invariant
            from <= k <= to <= v@.len(),
            f == v@.subrange(from as int, to as int),
            forall|j: int| from <= j < to ==> is_digit(#[trigger] v@[j]),
            cap == 0x1_0000_0000,
            acc <= cap,
            acc < cap ==> acc as nat == digits_value(v@.subrange(from as int, k as int)),
            acc == cap ==> digits_value(v@.subrange(from as int, k as int)) >= cap,
        decreases to - k,
    {
        let ghost prev = v@.subrange(from as int, k as int);
        let ghost next = v@.subrange(from as int, k + 1);
        assert(next.drop_last() =~= prev);
        assert(next.last() == v@[k as int]);
        assert(is_digit(v@[k as int]));
        let d = (v[k] as u32 - '0' as u32) as u64;
        assert(d as nat == digit_value(v@[k as int]));
        assert(digits_value(next) == digits_value(prev) * 10 + d);
        if acc < cap {
            let t = acc * 10 + d;
            if t >= cap {
                acc = cap;
            } else {
                acc = t;
            }
        } else {
            assert(digits_value(prev) * 10 + d >= digits_value(prev)) by (nonlinear_arith);
        }
        k = k + 1;
    }
    assert(v@.subrange(from as int, k as int) =~= f);
    if to == from || acc >= cap {
        None
    } else {
        Some(acc as u32)
    }
}

/// The field of `v` that starts at `start`, with absent fields read as zero.
fn field_from(v: &Vec<char>, start: usize) -> (r: Option<u32>)
    requires
        start <= v@.len() + 1,
        forall|j: int| 0 <= j < v@.len() ==> is_run_char(#[trigger] v@[j]),
    ensures
        r == field_at(v@, start as int),
{
    if start > v.len() {
        Some(0)
    } else {
        let e = find_dot(v, start);
        proof {
            lemma_dot_bounds(v@, start as int);
        }
        parse_field(v, start, e)
    }
}

/// Parses the first version-like run in `input`: `"opencode v1.2.3-beta"` gives
/// `(1, 2, 3)` and `"1.2"` gives `(1, 2, 0)`.
pub fn parse_semver_like(input: &str) -> (r: Option<VersionTriple>)
    ensures
        r == parse_version(input@),
{
    let chars = chars_of(input);
    let d = find_first_digit(&chars, 0);
    proof {
        lemma_first_digit_bounds(chars@, 0);
    }
    let e = find_run_end(&chars, d);
    proof {
        lemma_run_end_bounds(chars@, d as int);
    }
    if d == e {
        return None;
    }
    let mut run: Vec<char> = Vec::new();
    let mut k = d;
    while k < e
        invariant
            d <= k <= e <= chars@.len(),
            run@ == chars@.subrange(d as int, k as int),
        decreases e - k,
    {
        run.push(chars[k]);
        k = k + 1;
        assert(run@ =~= chars@.subrange(d as int, k as int));
    }
    assert(run@ == version_run(input@));
    let e0 = find_dot(&run, 0);
    proof {
        lemma_dot_bounds(run@, 0);
    }
    let e1 = find_dot(&run, if e0 < run.len() { e0 + 1 } else { e0 });
    proof {
        if e0 < run.len() {
            lemma_dot_bounds(run@, e0 + 1);
        } else {
            lemma_dot_bounds(run@, e0 as int);
            assert(dot_from(run@, e0 + 1) == run@.len());
        }
    }
    let major = field_from(&run, 0);
    let minor = if e0 < run.len() { field_from(&run, e0 + 1) } else { Some(0) };
    let patch = if e1 < run.len() { field_from(&run, e1 + 1) } else { Some(0) };
    match (major, minor, patch) {
        (Some(a), Some(b), Some(c)) => Some((a, b, c)),
        _ => None,
    }
}

/// Whether `a` is at least `b`: major first, then minor, then patch.
pub fn version_at_least(a: VersionTriple, b: VersionTriple) -> (r: bool)
    ensures
        r == version_ge(a, b),
{
    a.0 > b.0 || (a.0 == b.0 && (a.1 > b.1 || (a.1 == b.1 && a.2 >= b.2)))
}

/// `Some(version >= minimum)` when both strings name a version, `None` otherwise.
pub fn is_version_safe(version: &str, minimum: &str) -> (r: Option<bool>)
    ensures
        r == version_safe(version@, minimum@),
{
    let current = parse_semver_like(version);
    let least = parse_semver_like(minimum);
    match (current, least) {
        (Some(v), Some(m)) => Some(version_at_least(v, m)),
        _ => None,
    }
}

/// `Some(true)` when `version` is at least the minimum safe engine release,
/// `Some(false)` when it is older, and `None` when it cannot be read.
pub fn is_engine_version_safe(version: &str) -> (r: Option<bool>)
    ensures
        r == version_safe(version@, MIN_SAFE_ENGINE_VERSION@),
{
    is_version_safe(version, MIN_SAFE_ENGINE_VERSION)
}

/// Parsing is total: text without a digit never names a version, and a named
/// version always comes from a digit of the text whose run supplies its fields.
pub proof fn lemma_parse_version_total(s: Seq<char>)
    ensures
        (forall|j: int| 0 <= j < s.len() ==> !is_digit(#[trigger] s[j])) ==> parse_version(s)
            is None,
        parse_version(s) is Some ==> exists|j: int| 0 <= j < s.len() && is_digit(#[trigger] s[j]),
        parse_version(s) is Some ==> parse_version(s) == version_of_run(version_run(s)),
{
    lemma_first_digit_bounds(s, 0);
    let d = first_digit_from(s, 0);
    lemma_run_end_bounds(s, d);
    if parse_version(s) is Some {
        assert(d < s.len());
        assert(is_digit(s[d]));
    }
}

/// The minimum safe engine version reads as `1.1.10`.
pub proof fn lemma_min_safe_engine_version()
    ensures
        parse_version(MIN_SAFE_ENGINE_VERSION@) == Some((1u32, 1u32, 10u32)),
{
    reveal_strlit("1.1.10");
    let s = MIN_SAFE_ENGINE_VERSION@;
    assert(s.len() == 6);
    assert(s[0] == '1' && s[1] == '.' && s[2] == '1' && s[3] == '.' && s[4] == '1' && s[5] == '0');
    assert(first_digit_from(s, 0) == 0);
    assert(run_end_from(s, 6) == 6);
    assert(run_end_from(s, 5) == 6);
    assert(run_end_from(s, 4) == 6);
    assert(run_end_from(s, 3) == 6);
    assert(run_end_from(s, 2) == 6);
    assert(run_end_from(s, 1) == 6);
    assert(run_end_from(s, 0) == 6);
    assert(version_run(s) =~= s);
    assert(dot_from(s, 1) == 1);
    assert(dot_from(s, 0) == 1);
    assert(dot_from(s, 3) == 3);
    assert(dot_from(s, 2) == 3);
    assert(dot_from(s, 6) == 6);
    assert(dot_from(s, 5) == 6);
    assert(dot_from(s, 4) == 6);
    let f0 = s.subrange(0, 1);
    let f1 = s.subrange(2, 3);
    let f2 = s.subrange(4, 6);
    assert(f0.drop_last() =~= Seq::<char>::empty());
    assert(f1.drop_last() =~= Seq::<char>::empty());
    assert(f2.drop_last() =~= s.subrange(4, 5));
    assert(s.subrange(4, 5).drop_last() =~= Seq::<char>::empty());
    assert(digits_value(Seq::<char>::empty()) == 0);
    assert(f0.last() == '1' && f1.last() == '1' && f2.last() == '0');
    assert(digits_value(f0) == 1);
    assert(digits_value(f1) == 1);
    assert(digits_value(s.subrange(4, 5)) == 1);
    assert(digits_value(f2) == 10);
}

/// When all three strings name versions, the safety check is `>=` on their
/// triples, a total order: it is reflexive, any two versions are comparable,
/// it is antisymmetric and it is transitive.
pub proof fn lemma_version_gate_order(v: Seq<char>, m: Seq<char>, w: Seq<char>)
    requires
        parse_version(v) is Some,
        parse_version(m) is Some,
        parse_version(w) is Some,
    ensures
        version_safe(v, m) == Some(version_ge(parse_version(v)->0, parse_version(m)->0)),
        version_safe(v, v) == Some(true),
        version_safe(v, m) == Some(true) || version_safe(m, v) == Some(true),
        version_safe(v, m) == Some(true) && version_safe(m, v) == Some(true) ==> parse_version(v)
            == parse_version(m),
        version_safe(v, m) == Some(true) && version_safe(m, w) == Some(true) ==> version_safe(v, w)
            == Some(true),
{
}

} // verus!

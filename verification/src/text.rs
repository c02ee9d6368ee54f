//! Character-level text helpers with precise specifications.
//!
//! Text is modelled as `Seq<char>` (the view of `String` and `&str`). The
//! specifications here follow the documented behaviour of the corresponding
//! `str` methods (`lines`, `trim`, `split_whitespace`, `join`, ...).

use vstd::prelude::*;

verus! {

/// Appends one character to a string (`String::push`).
#[verifier::external_body]
pub(crate) fn push_char(s: &mut String, c: char)
    ensures
        final(s)@ == old(s)@.push(c),
{
    s.push(c)
}

/// The characters of `s`, in order.
pub fn chars_of(s: &str) -> (r: Vec<char>)
    ensures
        r@ == s@,
{
    let mut r: Vec<char> = Vec::new();
    for c in it: s.chars()
        invariant
            r@ == it.seq().take(it.index() as int),
    {
        r.push(c);
    }
    r
}

/// The string made of `cs[lo..hi]`.
pub fn string_of(cs: &Vec<char>, lo: usize, hi: usize) -> (r: String)
    requires
        lo <= hi <= cs@.len(),
    ensures
        r@ == cs@.subrange(lo as int, hi as int),
{
    let mut r = String::new();
    let mut i = lo;
    while i < hi
        invariant
            lo <= i <= hi <= cs@.len(),
            r@ == cs@.subrange(lo as int, i as int),
        decreases hi - i,
    {
        push_char(&mut r, cs[i]);
        i = i + 1;
    }
    r
}

/// Appends a whole `&str` to `s`.
pub fn push_str(s: &mut String, t: &str)
    ensures
        final(s)@ == old(s)@ + t@,
{
    let cs = chars_of(t);
    let mut i: usize = 0;
    while i < cs.len()
        invariant
            cs@ == t@,
            i <= cs@.len(),
            s@ == old(s)@ + t@.take(i as int),
        decreases cs@.len() - i,
    {
        push_char(s, cs[i]);
        i = i + 1;
    }
    assert(t@.take(i as int) =~= t@);
}

/// A copy of `t` as an owned `String`.
pub fn owned(t: &str) -> (r: String)
    ensures
        r@ == t@,
{
    let mut r = String::new();
    push_str(&mut r, t);
    r
}

// ---------------------------------------------------------------------------
// Whitespace
// ---------------------------------------------------------------------------

/// Unicode `White_Space`, as tested by `char::is_whitespace`.
pub open spec fn is_ws(c: char) -> bool {
    ||| ('\u{9}' <= c && c <= '\u{d}')
    ||| c == ' '
    ||| c == '\u{85}'
    ||| c == '\u{a0}'
    ||| c == '\u{1680}'
    ||| ('\u{2000}' <= c && c <= '\u{200a}')
    ||| c == '\u{2028}'
    ||| c == '\u{2029}'
    ||| c == '\u{202f}'
    ||| c == '\u{205f}'
    ||| c == '\u{3000}'
}

/// Executable `char::is_whitespace`.
pub fn is_whitespace(c: char) -> (r: bool)
    ensures
        r == is_ws(c),
{
    ('\u{9}' <= c && c <= '\u{d}') || c == ' ' || c == '\u{85}' || c == '\u{a0}' || c
        == '\u{1680}' || ('\u{2000}' <= c && c <= '\u{200a}') || c == '\u{2028}' || c
        == '\u{2029}' || c == '\u{202f}' || c == '\u{205f}' || c == '\u{3000}'
}

// ---------------------------------------------------------------------------
// Prefix and suffix runs
// ---------------------------------------------------------------------------

/// Number of leading whitespace characters.
pub open spec fn lead_ws(s: Seq<char>) -> nat
    decreases s.len(),
{
    if s.len() == 0 || !is_ws(s[0]) {
        0
    } else {
        1 + lead_ws(s.drop_first())
    }
}

/// Number of trailing whitespace characters.
pub open spec fn trail_ws(s: Seq<char>) -> nat
    decreases s.len(),
{
    if s.len() == 0 || !is_ws(s.last()) {
        0
    } else {
        1 + trail_ws(s.drop_last())
    }
}

/// Length of the leading run of non-whitespace characters.
pub open spec fn word_len(s: Seq<char>) -> nat
    decreases s.len(),
{
    if s.len() == 0 || is_ws(s[0]) {
        0
    } else {
        1 + word_len(s.drop_first())
    }
}

/// Position of the first `c` in `s`, or `s.len()` when there is none.
pub open spec fn find_char(s: Seq<char>, c: char) -> nat
    decreases s.len(),
{
    if s.len() == 0 || s[0] == c {
        0
    } else {
        1 + find_char(s.drop_first(), c)
    }
}

pub proof fn lemma_lead_ws(s: Seq<char>, i: int)
    requires
        0 <= i <= s.len(),
        forall|j: int| 0 <= j < i ==> is_ws(#[trigger] s[j]),
        i == s.len() || !is_ws(s[i]),
    ensures
        lead_ws(s) == i,
    decreases i,
{
    if i > 0 {
        lemma_lead_ws(s.drop_first(), i - 1);
    }
}

pub proof fn lemma_trail_ws(s: Seq<char>, i: int)
    requires
        0 <= i <= s.len(),
        forall|j: int| s.len() - i <= j < s.len() ==> is_ws(#[trigger] s[j]),
        i == s.len() || !is_ws(s[s.len() - 1 - i]),
    ensures
        trail_ws(s) == i,
    decreases i,
{
    if i > 0 {
        lemma_trail_ws(s.drop_last(), i - 1);
    }
}

pub proof fn lemma_word_len(s: Seq<char>, i: int)
    requires
        0 <= i <= s.len(),
        forall|j: int| 0 <= j < i ==> !is_ws(#[trigger] s[j]),
        i == s.len() || is_ws(s[i]),
    ensures
        word_len(s) == i,
    decreases i,
{
    if i > 0 {
        lemma_word_len(s.drop_first(), i - 1);
    }
}

pub proof fn lemma_find_char(s: Seq<char>, c: char, i: int)
    requires
        0 <= i <= s.len(),
        forall|j: int| 0 <= j < i ==> #[trigger] s[j] != c,
        i == s.len() || s[i] == c,
    ensures
        find_char(s, c) == i,
    decreases i,
{
    if i > 0 {
        lemma_find_char(s.drop_first(), c, i - 1);
    }
}

/// The characterisation of `find_char` from its definition.
pub proof fn lemma_find_char_props(s: Seq<char>, c: char)
    ensures
        find_char(s, c) <= s.len(),
        forall|j: int| 0 <= j < find_char(s, c) ==> #[trigger] s[j] != c,
        find_char(s, c) < s.len() ==> s[find_char(s, c) as int] == c,
    decreases s.len(),
{
    if s.len() > 0 && s[0] != c {
        lemma_find_char_props(s.drop_first(), c);
        assert forall|j: int| 0 <= j < find_char(s, c) implies #[trigger] s[j] != c by {
            if j > 0 {
                assert(s[j] == s.drop_first()[j - 1]);
            }
        }
    }
}

/// `s` with leading whitespace removed (`str::trim_start`).
pub open spec fn trim_start(s: Seq<char>) -> Seq<char> {
    s.skip(lead_ws(s) as int)
}

/// `s` with trailing whitespace removed (`str::trim_end`).
pub open spec fn trim_end(s: Seq<char>) -> Seq<char> {
    s.take(s.len() - trail_ws(s))
}

/// `s` with surrounding whitespace removed (`str::trim`).
pub open spec fn trim(s: Seq<char>) -> Seq<char> {
    trim_end(trim_start(s))
}

proof fn lemma_lead_ws_le(s: Seq<char>)
    ensures
        lead_ws(s) <= s.len(),
    decreases s.len(),
{
    if s.len() > 0 && is_ws(s[0]) {
        lemma_lead_ws_le(s.drop_first());
    }
}

proof fn lemma_trail_ws_le(s: Seq<char>)
    ensures
        trail_ws(s) <= s.len(),
    decreases s.len(),
{
    if s.len() > 0 && is_ws(s.last()) {
        lemma_trail_ws_le(s.drop_last());
    }
}

/// Index of the first non-whitespace character of `cs[lo..hi]`, or `hi`.
pub fn skip_ws_from(cs: &Vec<char>, lo: usize, hi: usize) -> (r: usize)
    requires
        lo <= hi <= cs@.len(),
    ensures
        lo <= r <= hi,
        r - lo == lead_ws(cs@.subrange(lo as int, hi as int)),
{
    let mut i = lo;
    while i < hi && is_whitespace(cs[i])
        invariant
            lo <= i <= hi <= cs@.len(),
            forall|j: int| lo <= j < i ==> is_ws(#[trigger] cs@[j]),
        decreases hi - i,
    {
        i = i + 1;
    }
    proof {
        let sub = cs@.subrange(lo as int, hi as int);
        assert forall|j: int| 0 <= j < i - lo implies is_ws(#[trigger] sub[j]) by {
            assert(sub[j] == cs@[lo + j]);
        }
        lemma_lead_ws(sub, i - lo);
    }
    i
}

/// Index just past the last non-whitespace character of `cs[lo..hi]`, or `lo`.
pub fn trim_ws_back(cs: &Vec<char>, lo: usize, hi: usize) -> (r: usize)
    requires
        lo <= hi <= cs@.len(),
    ensures
        lo <= r <= hi,
        hi - r == trail_ws(cs@.subrange(lo as int, hi as int)),
{
    let mut i = hi;
    while i > lo && is_whitespace(cs[i - 1])
        invariant
            lo <= i <= hi <= cs@.len(),
            forall|j: int| i <= j < hi ==> is_ws(#[trigger] cs@[j]),
        decreases i - lo,
    {
        i = i - 1;
    }
    proof {
        let sub = cs@.subrange(lo as int, hi as int);
        assert forall|j: int| sub.len() - (hi - i) <= j < sub.len() implies is_ws(
            #[trigger] sub[j],
        ) by {
            assert(sub[j] == cs@[lo + j]);
        }
        if hi - i < sub.len() {
            assert(sub[sub.len() - 1 - (hi - i)] == cs@[i - 1]);
        }
        lemma_trail_ws(sub, (hi - i) as int);
    }
    i
}

/// Bounds `(a, b)` of `trim(cs[lo..hi])` inside `cs`.
pub fn trim_bounds(cs: &Vec<char>, lo: usize, hi: usize) -> (r: (usize, usize))
    requires
        lo <= hi <= cs@.len(),
    ensures
        lo <= r.0 <= r.1 <= hi,
        cs@.subrange(r.0 as int, r.1 as int) == trim(cs@.subrange(lo as int, hi as int)),
{
    let a = skip_ws_from(cs, lo, hi);
    let b = trim_ws_back(cs, a, hi);
    proof {
        let sub = cs@.subrange(lo as int, hi as int);
        assert(trim_start(sub) =~= cs@.subrange(a as int, hi as int));
        assert(cs@.subrange(a as int, b as int) =~= trim_end(cs@.subrange(a as int, hi as int)));
    }
    (a, b)
}

/// `s.trim()` as an owned string.
pub fn trim_owned(s: &str) -> (r: String)
    ensures
        r@ == trim(s@),
{
    let cs = chars_of(s);
    let (a, b) = trim_bounds(&cs, 0, cs.len());
    assert(cs@.subrange(0, cs@.len() as int) =~= s@);
    string_of(&cs, a, b)
}

// ---------------------------------------------------------------------------
// Lines
// ---------------------------------------------------------------------------

/// `l` without one trailing carriage return.
pub open spec fn strip_cr(l: Seq<char>) -> Seq<char> {
    if l.len() > 0 && l.last() == '\r' {
        l.drop_last()
    } else {
        l
    }
}

/// `s` with a final newline added when it is not empty and lacks one.
pub open spec fn terminated(s: Seq<char>) -> Seq<char> {
    if s.len() > 0 && s.last() != '\n' {
        s.push('\n')
    } else {
        s
    }
}

/// The lines of `s`, as `str::lines` yields them: split at `\n`, a `\r`
/// before the `\n` removed, and no empty line after a final `\n`.
pub open spec fn lines(s: Seq<char>) -> Seq<Seq<char>>
    decreases s.len(),
{
    if s.len() == 0 {
        Seq::empty()
    } else {
        let p = find_char(s, '\n');
        if p >= s.len() {
            seq![s]
        } else {
            seq![strip_cr(s.take(p as int))] + lines(s.skip(p as int + 1))
        }
    }
}

/// `parts` joined with `sep` between neighbours (`[T]::join`).
pub open spec fn join(parts: Seq<Seq<char>>, sep: Seq<char>) -> Seq<char>
    decreases parts.len(),
{
    if parts.len() == 0 {
        Seq::empty()
    } else if parts.len() == 1 {
        parts[0]
    } else {
        join(parts.drop_last(), sep) + sep + parts.last()
    }
}

/// Splits `s` into its lines (`str::lines`).
pub fn split_lines(s: &str) -> (r: Vec<String>)
    ensures
        r.deep_view() == lines(s@),
{
    let cs = chars_of(s);
    let n = cs.len();
    let mut out: Vec<String> = Vec::new();
    let mut start: usize = 0;
    let mut i: usize = 0;
    assert(cs@.skip(0) =~= cs@);
    assert(out.deep_view() =~= Seq::<Seq<char>>::empty());
    while i < n
        invariant
            cs@ == s@,
            n == cs@.len(),
            start <= i <= n,
            forall|j: int| start <= j < i ==> #[trigger] cs@[j] != '\n',
            out.deep_view() + lines(cs@.skip(start as int)) == lines(s@),
        decreases n - i,
    {
        if cs[i] == '\n' {
            let ghost rest = cs@.skip(start as int);
            proof {
                assert forall|j: int| 0 <= j < i - start implies #[trigger] rest[j] != '\n' by {
                    assert(rest[j] == cs@[start + j]);
                }
                assert(rest[i - start] == cs@[i as int]);
                lemma_find_char(rest, '\n', i - start);
                assert(rest.take(i - start) =~= cs@.subrange(start as int, i as int));
                assert(rest.skip(i - start + 1) =~= cs@.skip(i + 1));
            }
            let mut end = i;
            if end > start && cs[end - 1] == '\r' {
                end = end - 1;
            }
            let line = string_of(&cs, start, end);
            proof {
                assert(line@ =~= strip_cr(cs@.subrange(start as int, i as int)));
            }
            let ghost old_out = out.deep_view();
            out.push(line);
            proof {
                assert(out.deep_view() =~= old_out.push(line@));
                assert(old_out.push(line@) + lines(cs@.skip(i + 1)) =~= old_out + (seq![
                    line@,
                ] + lines(cs@.skip(i + 1))));
            }
            start = i + 1;
        }
        i = i + 1;
    }
    if start < n {
        let ghost rest = cs@.skip(start as int);
        proof {
            assert forall|j: int| 0 <= j < rest.len() implies #[trigger] rest[j] != '\n' by {
                assert(rest[j] == cs@[start + j]);
            }
            lemma_find_char(rest, '\n', rest.len() as int);
            assert(rest =~= cs@.subrange(start as int, n as int));
        }
        let line = string_of(&cs, start, n);
        let ghost old_out = out.deep_view();
        out.push(line);
        proof {
            assert(out.deep_view() =~= old_out.push(line@));
            assert(old_out + seq![rest] =~= old_out.push(line@));
        }
    } else {
        proof {
            assert(cs@.skip(start as int).len() == 0);
            assert(out.deep_view() + lines(cs@.skip(start as int)) =~= out.deep_view());
        }
    }
    out
}

/// Joins `parts` with `sep` (`[String]::join`).
pub fn join_strings(parts: &Vec<String>, sep: &str) -> (r: String)
    ensures
        r@ == join(parts.deep_view(), sep@),
{
    let mut r = String::new();
    let mut i: usize = 0;
    while i < parts.len()
        invariant
            i <= parts@.len(),
            r@ == join(parts.deep_view().take(i as int), sep@),
        decreases parts@.len() - i,
    {
        let ghost before = parts.deep_view().take(i as int);
        if i > 0 {
            push_str(&mut r, sep);
        }
        push_str(&mut r, parts[i].as_str());
        proof {
            let after = parts.deep_view().take(i + 1);
            assert(after.drop_last() =~= before);
            if i == 0 {
                assert(before.len() == 0);
            }
        }
        i = i + 1;
    }
    assert(parts.deep_view().take(i as int) =~= parts.deep_view());
    r
}

// ---------------------------------------------------------------------------
// Prefixes, suffixes, containment
// ---------------------------------------------------------------------------

/// `p` is a prefix of `s`.
pub open spec fn has_prefix(s: Seq<char>, p: Seq<char>) -> bool {
    p.len() <= s.len() && s.take(p.len() as int) == p
}

/// `p` is a suffix of `s`.
pub open spec fn has_suffix(s: Seq<char>, p: Seq<char>) -> bool {
    p.len() <= s.len() && s.skip(s.len() - p.len()) == p
}

/// `p` occurs in `s` at position `i`.
pub open spec fn occurs_at(s: Seq<char>, p: Seq<char>, i: int) -> bool {
    0 <= i && i + p.len() <= s.len() && s.subrange(i, i + p.len()) == p
}

/// `p` occurs somewhere in `s` (`str::contains`).
pub open spec fn contains(s: Seq<char>, p: Seq<char>) -> bool {
    exists|i: int| occurs_at(s, p, i)
}

/// Whether `cs[at..]` starts with `p`.
pub fn matches_at(cs: &Vec<char>, at: usize, p: &Vec<char>) -> (r: bool)
    requires
        at <= cs@.len(),
    ensures
        r == occurs_at(cs@, p@, at as int),
{
    if p.len() > cs.len() - at {
        return false;
    }
    let n = cs.len();
    let mut j: usize = 0;
    while j < p.len()
        invariant
            n == cs@.len(),
            at + p@.len() <= cs@.len(),
            j <= p@.len(),
            forall|k: int| 0 <= k < j ==> cs@[at + k] == p@[k],
        decreases p@.len() - j,
    {
        if cs[at + j] != p[j] {
            assert(cs@.subrange(at as int, at + p@.len())[j as int] != p@[j as int]);
            return false;
        }
        j = j + 1;
    }
    assert(cs@.subrange(at as int, at + p@.len()) =~= p@);
    true
}

/// `str::starts_with`.
pub fn starts_with(s: &str, p: &str) -> (r: bool)
    ensures
        r == has_prefix(s@, p@),
{
    let cs = chars_of(s);
    let ps = chars_of(p);
    let r = matches_at(&cs, 0, &ps);
    assert(r ==> s@.take(p@.len() as int) =~= s@.subrange(0, p@.len() as int));
    assert(has_prefix(s@, p@) ==> s@.take(p@.len() as int) =~= s@.subrange(0, p@.len() as int));
    r
}

/// `str::ends_with`.
pub fn ends_with(s: &str, p: &str) -> (r: bool)
    ensures
        r == has_suffix(s@, p@),
{
    let cs = chars_of(s);
    let ps = chars_of(p);
    if ps.len() > cs.len() {
        return false;
    }
    let r = matches_at(&cs, cs.len() - ps.len(), &ps);
    assert(s@.skip(s@.len() - p@.len()) =~= s@.subrange(
        s@.len() - p@.len(),
        s@.len() - p@.len() + p@.len(),
    ));
    r
}

/// Whether `p` occurs in `cs` (`str::contains` over characters).
pub fn contains_chars(cs: &Vec<char>, p: &Vec<char>) -> (r: bool)
    ensures
        r == contains(cs@, p@),
{
    if p.len() > cs.len() {
        assert forall|i: int| !occurs_at(cs@, p@, i) by {}
        return false;
    }
    let last = cs.len() - p.len();
    let mut i: usize = 0;
    while i < last
        invariant
            last == cs@.len() - p@.len(),
            i <= last,
            forall|k: int| 0 <= k < i ==> !occurs_at(cs@, p@, k),
        decreases last - i,
    {
        if matches_at(cs, i, p) {
            return true;
        }
        i = i + 1;
    }
    if matches_at(cs, last, p) {
        return true;
    }
    assert forall|k: int| !occurs_at(cs@, p@, k) by {
        if 0 <= k && k < i {
        }
    }
    false
}

/// `str::contains`.
pub fn str_contains(s: &str, p: &str) -> (r: bool)
    ensures
        r == contains(s@, p@),
{
    let cs = chars_of(s);
    let ps = chars_of(p);
    contains_chars(&cs, &ps)
}

// ---------------------------------------------------------------------------
// ASCII case
// ---------------------------------------------------------------------------

/// `char::to_ascii_lowercase`.
pub open spec fn lower(c: char) -> char {
    if 'A' <= c && c <= 'Z' {
        ((c as u32) + 32) as char
    } else {
        c
    }
}

/// `str::eq_ignore_ascii_case`.
pub open spec fn eq_ignore_case(a: Seq<char>, b: Seq<char>) -> bool {
    a.len() == b.len() && forall|i: int| 0 <= i < a.len() ==> lower(#[trigger] a[i]) == lower(
        b[i],
    )
}

pub fn lower_char(c: char) -> (r: char)
    ensures
        r == lower(c),
{
    if 'A' <= c && c <= 'Z' {
        let v: u8 = (c as u8) + 32;
        v as char
    } else {
        c
    }
}

/// Case-insensitive (ASCII) comparison of `a[alo..ahi]` with `b`.
pub fn eq_ignore_case_range(a: &Vec<char>, alo: usize, ahi: usize, b: &Vec<char>) -> (r: bool)
    requires
        alo <= ahi <= a@.len(),
    ensures
        r == eq_ignore_case(a@.subrange(alo as int, ahi as int), b@),
{
    if ahi - alo != b.len() {
        return false;
    }
    let mut i: usize = 0;
    while i < b.len()
        invariant
            ahi - alo == b@.len(),
            alo <= ahi <= a@.len(),
            i <= b@.len(),
            forall|k: int| 0 <= k < i ==> lower(a@[alo + k]) == lower(b@[k]),
        decreases b@.len() - i,
    {
        if lower_char(a[alo + i]) != lower_char(b[i]) {
            assert(a@.subrange(alo as int, ahi as int)[i as int] == a@[alo + i]);
            return false;
        }
        i = i + 1;
    }
    assert forall|k: int| 0 <= k < b@.len() implies lower(
        #[trigger] a@.subrange(alo as int, ahi as int)[k],
    ) == lower(b@[k]) by {
        assert(a@.subrange(alo as int, ahi as int)[k] == a@[alo + k]);
    }
    true
}

/// `str::eq_ignore_ascii_case`.
pub fn str_eq_ignore_case(a: &str, b: &str) -> (r: bool)
    ensures
        r == eq_ignore_case(a@, b@),
{
    let ac = chars_of(a);
    let bc = chars_of(b);
    assert(ac@.subrange(0, ac@.len() as int) =~= a@);
    eq_ignore_case_range(&ac, 0, ac.len(), &bc)
}

// ---------------------------------------------------------------------------
// Numbers
// ---------------------------------------------------------------------------

/// The decimal digit character for `d < 10`.
pub open spec fn digit(d: nat) -> char {
    (('0' as u32) + d) as char
}

/// Decimal rendering of `n` (`Display` for unsigned integers).
pub open spec fn decimal(n: nat) -> Seq<char>
    decreases n,
{
    if n < 10 {
        seq![digit(n)]
    } else {
        decimal(n / 10).push(digit(n % 10))
    }
}

fn digit_char(d: u64) -> (r: char)
    requires
        d < 10,
    ensures
        r == digit(d as nat),
{
    let v: u8 = 48 + (d as u8);
    v as char
}

/// Decimal rendering of `n`.
pub fn decimal_string(n: u64) -> (r: String)
    ensures
        r@ == decimal(n as nat),
{
    let mut digits: Vec<char> = Vec::new();
    let mut m = n;
    // digits holds the low digits, least significant first.
    while m >= 10
        invariant
            decimal(n as nat) == decimal(m as nat) + digits@.reverse(),
        decreases m,
    {
        let d = digit_char(m % 10);
        proof {
            assert(decimal(m as nat) == decimal((m / 10) as nat).push(d));
            assert(decimal((m / 10) as nat).push(d) + digits@.reverse() =~= decimal(
                (m / 10) as nat,
            ) + digits@.push(d).reverse());
        }
        digits.push(d);
        m = m / 10;
    }
    let mut r = String::new();
    push_char(&mut r, digit_char(m));
    let mut i = digits.len();
    while i > 0
        invariant
            i <= digits@.len(),
            decimal(n as nat) == decimal(m as nat) + digits@.reverse(),
            m < 10,
            r@ == decimal(m as nat) + digits@.subrange(i as int, digits@.len() as int).reverse(),
        decreases i,
    {
        i = i - 1;
        proof {
            assert(digits@.subrange(i as int, digits@.len() as int).reverse() =~= digits@.subrange(
                i + 1,
                digits@.len() as int,
            ).reverse().push(digits@[i as int]));
        }
        push_char(&mut r, digits[i]);
    }
    assert(digits@.subrange(0, digits@.len() as int) =~= digits@);
    r
}

} // verus!

verus! {

// ---------------------------------------------------------------------------
// Runs of one character
// ---------------------------------------------------------------------------

/// Number of leading `c`.
pub open spec fn lead_char(s: Seq<char>, c: char) -> nat
    decreases s.len(),
{
    if s.len() == 0 || s[0] != c {
        0
    } else {
        1 + lead_char(s.drop_first(), c)
    }
}

/// Number of trailing `c`.
pub open spec fn trail_char(s: Seq<char>, c: char) -> nat
    decreases s.len(),
{
    if s.len() == 0 || s.last() != c {
        0
    } else {
        1 + trail_char(s.drop_last(), c)
    }
}

/// `s` with every leading and trailing `c` removed (`str::trim_matches`).
pub open spec fn trim_matches(s: Seq<char>, c: char) -> Seq<char> {
    let t = s.skip(lead_char(s, c) as int);
    t.take(t.len() - trail_char(t, c))
}

pub proof fn lemma_lead_char(s: Seq<char>, c: char, i: int)
    requires
        0 <= i <= s.len(),
        forall|j: int| 0 <= j < i ==> #[trigger] s[j] == c,
        i == s.len() || s[i] != c,
    ensures
        lead_char(s, c) == i,
    decreases i,
{
    if i > 0 {
        lemma_lead_char(s.drop_first(), c, i - 1);
    }
}

pub proof fn lemma_trail_char(s: Seq<char>, c: char, i: int)
    requires
        0 <= i <= s.len(),
        forall|j: int| s.len() - i <= j < s.len() ==> #[trigger] s[j] == c,
        i == s.len() || s[s.len() - 1 - i] != c,
    ensures
        trail_char(s, c) == i,
    decreases i,
{
    if i > 0 {
        lemma_trail_char(s.drop_last(), c, i - 1);
    }
}

/// Bounds of `trim_matches(cs[lo..hi], c)` inside `cs`.
pub fn trim_matches_bounds(cs: &Vec<char>, lo: usize, hi: usize, c: char) -> (r: (usize, usize))
    requires
        lo <= hi <= cs@.len(),
    ensures
        lo <= r.0 <= r.1 <= hi,
        cs@.subrange(r.0 as int, r.1 as int) == trim_matches(
            cs@.subrange(lo as int, hi as int),
            c,
        ),
{
    let mut a = lo;
    while a < hi && cs[a] == c
        invariant
            lo <= a <= hi <= cs@.len(),
            forall|j: int| lo <= j < a ==> #[trigger] cs@[j] == c,
        decreases hi - a,
    {
        a = a + 1;
    }
    let mut b = hi;
    while b > a && cs[b - 1] == c
        invariant
            lo <= a <= b <= hi <= cs@.len(),
            forall|j: int| b <= j < hi ==> #[trigger] cs@[j] == c,
        decreases b - a,
    {
        b = b - 1;
    }
    proof {
        let sub = cs@.subrange(lo as int, hi as int);
        assert forall|j: int| 0 <= j < a - lo implies #[trigger] sub[j] == c by {
            assert(sub[j] == cs@[lo + j]);
        }
        if a < hi {
            assert(sub[a - lo] == cs@[a as int]);
        }
        lemma_lead_char(sub, c, a - lo);
        let t = sub.skip(a - lo);
        assert(t =~= cs@.subrange(a as int, hi as int));
        assert forall|j: int| t.len() - (hi - b) <= j < t.len() implies #[trigger] t[j] == c by {
            assert(t[j] == cs@[a + j]);
        }
        if hi - b < t.len() {
            assert(t[t.len() - 1 - (hi - b)] == cs@[b - 1]);
        }
        lemma_trail_char(t, c, (hi - b) as int);
        assert(cs@.subrange(a as int, b as int) =~= t.take(t.len() - (hi - b)));
    }
    (a, b)
}

} // verus!

verus! {

/// Character-wise equality of two strings.
pub fn str_eq(a: &str, b: &str) -> (r: bool)
    ensures
        r == (a@ == b@),
{
    let ac = chars_of(a);
    let bc = chars_of(b);
    if ac.len() != bc.len() {
        return false;
    }
    let mut i: usize = 0;
    while i < ac.len()
        invariant
            ac@ == a@,
            bc@ == b@,
            ac@.len() == bc@.len(),
            i <= ac@.len(),
            forall|k: int| 0 <= k < i ==> ac@[k] == bc@[k],
        decreases ac@.len() - i,
    {
        if ac[i] != bc[i] {
            return false;
        }
        i = i + 1;
    }
    assert(a@ =~= b@);
    true
}

} // verus!

verus! {

// ---------------------------------------------------------------------------
// Lexicographic order (the order of `str` and `String`)
// ---------------------------------------------------------------------------

/// `a <= b` in lexicographic order of characters, which is the order of
/// their UTF-8 bytes and so the order of `str`.
pub open spec fn lex_le(a: Seq<char>, b: Seq<char>) -> bool
    decreases a.len(),
{
    if a.len() == 0 {
        true
    } else if b.len() == 0 {
        false
    } else if a[0] != b[0] {
        a[0] < b[0]
    } else {
        lex_le(a.drop_first(), b.drop_first())
    }
}

/// The lexicographic order as a relation.
pub open spec fn lex_order() -> spec_fn(Seq<char>, Seq<char>) -> bool {
    |a: Seq<char>, b: Seq<char>| lex_le(a, b)
}

pub proof fn lemma_lex_reflexive(a: Seq<char>)
    ensures
        lex_le(a, a),
    decreases a.len(),
{
    if a.len() > 0 {
        lemma_lex_reflexive(a.drop_first());
    }
}

pub proof fn lemma_lex_antisymmetric(a: Seq<char>, b: Seq<char>)
    requires
        lex_le(a, b),
        lex_le(b, a),
    ensures
        a == b,
    decreases a.len(),
{
    if a.len() > 0 && b.len() > 0 {
        if a[0] == b[0] {
            lemma_lex_antisymmetric(a.drop_first(), b.drop_first());
            assert(a =~= seq![a[0]] + a.drop_first());
            assert(b =~= seq![b[0]] + b.drop_first());
        }
    }
    if a.len() == 0 {
        assert(b.len() == 0);
        assert(a =~= b);
    }
}

pub proof fn lemma_lex_transitive(a: Seq<char>, b: Seq<char>, c: Seq<char>)
    requires
        lex_le(a, b),
        lex_le(b, c),
    ensures
        lex_le(a, c),
    decreases a.len(),
{
    if a.len() > 0 && b.len() > 0 && c.len() > 0 {
        if a[0] == b[0] && b[0] == c[0] {
            lemma_lex_transitive(a.drop_first(), b.drop_first(), c.drop_first());
        }
    }
}

pub proof fn lemma_lex_connected(a: Seq<char>, b: Seq<char>)
    ensures
        lex_le(a, b) || lex_le(b, a),
    decreases a.len(),
{
    if a.len() > 0 && b.len() > 0 && a[0] == b[0] {
        lemma_lex_connected(a.drop_first(), b.drop_first());
    }
}

/// The lexicographic order is a total order.
pub proof fn lemma_lex_total()
    ensures
        vstd::relations::total_ordering(lex_order()),
{
    assert forall|a: Seq<char>| #[trigger] lex_order()(a, a) by {
        lemma_lex_reflexive(a);
    }
    assert forall|a: Seq<char>, b: Seq<char>|
        #[trigger] lex_order()(a, b) && #[trigger] lex_order()(b, a) implies a == b by {
        lemma_lex_antisymmetric(a, b);
    }
    assert forall|a: Seq<char>, b: Seq<char>, c: Seq<char>|
        #[trigger] lex_order()(a, b) && #[trigger] lex_order()(b, c) implies lex_order()(a, c) by {
        lemma_lex_transitive(a, b, c);
    }
    assert forall|a: Seq<char>, b: Seq<char>|
        #[trigger] lex_order()(a, b) || #[trigger] lex_order()(b, a) by {
        lemma_lex_connected(a, b);
    }
}

/// `a <= b` in the order of `str`.
pub fn str_le(a: &str, b: &str) -> (r: bool)
    ensures
        r == lex_le(a@, b@),
{
    let ac = chars_of(a);
    let bc = chars_of(b);
    let mut i: usize = 0;
    assert(a@.skip(0) =~= a@);
    assert(b@.skip(0) =~= b@);
    while i < ac.len() && i < bc.len() && ac[i] == bc[i]
        invariant
            ac@ == a@,
            bc@ == b@,
            i <= ac@.len(),
            i <= bc@.len(),
            lex_le(a@, b@) == lex_le(a@.skip(i as int), b@.skip(i as int)),
        decreases ac@.len() - i,
    {
        proof {
            let x = a@.skip(i as int);
            let y = b@.skip(i as int);
            assert(x.drop_first() =~= a@.skip(i + 1));
            assert(y.drop_first() =~= b@.skip(i + 1));
        }
        i = i + 1;
    }
    if i == ac.len() {
        true
    } else if i == bc.len() {
        false
    } else {
        ac[i] < bc[i]
    }
}

/// Inserting `x` just before the first element that is not `<= x` keeps a
/// sorted sequence sorted.
pub proof fn lemma_insert_sorted(before: Seq<Seq<char>>, p: int, x: Seq<char>)
    requires
        vstd::relations::sorted_by(before, lex_order()),
        0 <= p <= before.len(),
        forall|j: int| 0 <= j < p ==> lex_le(#[trigger] before[j], x),
        p < before.len() ==> !lex_le(before[p], x),
    ensures
        vstd::relations::sorted_by(before.insert(p, x), lex_order()),
{
    let after = before.insert(p, x);
    assert forall|a: int, b: int| 0 <= a < b < after.len() implies #[trigger] lex_order()(
        after[a],
        after[b],
    ) by {
        if b < p {
            assert(lex_order()(before[a], before[b]));
        } else if a < p && b == p {
            assert(lex_le(before[a], x));
        } else if a < p {
            assert(lex_order()(before[a], before[b - 1]));
        } else if a == p {
            lemma_lex_connected(before[p], x);
            if b - 1 > p {
                assert(lex_order()(before[p], before[b - 1]));
                lemma_lex_transitive(x, before[p], before[b - 1]);
            }
        } else {
            assert(lex_order()(before[a - 1], before[b - 1]));
        }
    }
}

/// `xs` sorted into the order of `str` (`<[String]>::sort`).
pub fn sort_strings(xs: Vec<String>) -> (r: Vec<String>)
    ensures
        r.deep_view() == xs.deep_view().sort_by(lex_order()),
{
    let mut out: Vec<String> = Vec::new();
    let mut i: usize = 0;
    let n = xs.len();
    proof {
        lemma_lex_total();
        assert(out.deep_view() =~= Seq::<Seq<char>>::empty());
        assert(xs.deep_view().take(0) =~= Seq::<Seq<char>>::empty());
    }
    while i < n
        invariant
            n == xs@.len(),
            i <= n,
            vstd::relations::total_ordering(lex_order()),
            vstd::relations::sorted_by(out.deep_view(), lex_order()),
            out.deep_view().to_multiset() == xs.deep_view().take(i as int).to_multiset(),
        decreases n - i,
    {
        let x = &xs[i];
        let mut p: usize = 0;
        while p < out.len() && str_le(out[p].as_str(), x.as_str())
            invariant
                p <= out@.len(),
                forall|j: int| 0 <= j < p ==> lex_le(#[trigger] out.deep_view()[j], x@),
            decreases out@.len() - p,
        {
            p = p + 1;
        }
        let ghost before = out.deep_view();
        proof {
            lemma_insert_sorted(before, p as int, x@);
        }
        out.insert(p, x.clone());
        proof {
            broadcast use vstd::seq_lib::group_to_multiset_ensures;
            assert(out.deep_view() =~= before.insert(p as int, x@));
            vstd::seq_lib::to_multiset_insert(before, p as int, x@);
            assert(xs.deep_view().take(i + 1) =~= xs.deep_view().take(i as int).push(x@));
        }
        i = i + 1;
    }
    proof {
        assert(xs.deep_view().take(n as int) =~= xs.deep_view());
        xs.deep_view().lemma_sort_by_ensures(lex_order());
        vstd::seq_lib::lemma_sorted_unique(out.deep_view(), xs.deep_view().sort_by(lex_order()), lex_order());
    }
    out
}

} // verus!

verus! {

// ---------------------------------------------------------------------------
// Searching for a substring
// ---------------------------------------------------------------------------

/// Position of the first occurrence of `p` in `s` at or after `i`, or
/// `s.len()` when there is none.
pub open spec fn find_sub_from(s: Seq<char>, p: Seq<char>, i: nat) -> nat
    decreases s.len() - i,
{
    if i >= s.len() || i + p.len() > s.len() {
        s.len()
    } else if occurs_at(s, p, i as int) {
        i
    } else {
        find_sub_from(s, p, i + 1)
    }
}

/// Position of the first occurrence of `p` in `s` (`str::find`), or `s.len()`.
pub open spec fn find_sub(s: Seq<char>, p: Seq<char>) -> nat {
    find_sub_from(s, p, 0)
}

proof fn lemma_find_sub_from(s: Seq<char>, p: Seq<char>, i: nat)
    ensures
        i <= s.len() ==> i <= find_sub_from(s, p, i),
        find_sub_from(s, p, i) <= s.len(),
        find_sub_from(s, p, i) < s.len() ==> occurs_at(s, p, find_sub_from(s, p, i) as int),
    decreases s.len() - i,
{
    if !(i >= s.len() || i + p.len() > s.len()) && !occurs_at(s, p, i as int) {
        lemma_find_sub_from(s, p, i + 1);
    }
}

/// What the first occurrence of `p` in `s` is.
pub proof fn lemma_find_sub_bound(s: Seq<char>, p: Seq<char>)
    ensures
        find_sub(s, p) <= s.len(),
        find_sub(s, p) < s.len() ==> occurs_at(s, p, find_sub(s, p) as int),
{
    lemma_find_sub_from(s, p, 0);
}

/// Finds the first occurrence of `p` in `cs`; `cs@.len()` when absent.
pub fn find_chars(cs: &Vec<char>, p: &Vec<char>) -> (r: usize)
    ensures
        r == find_sub(cs@, p@),
{
    let n = cs.len();
    let mut i: usize = 0;
    while i < n && p.len() <= n - i && !matches_at(cs, i, p)
        invariant
            n == cs@.len(),
            i <= n,
            find_sub(cs@, p@) == find_sub_from(cs@, p@, i as nat),
        decreases n - i,
    {
        i = i + 1;
    }
    if i < n && p.len() <= n - i {
        i
    } else {
        n
    }
}

} // verus!

verus! {

// ---------------------------------------------------------------------------
// Parsing unsigned integers
// ---------------------------------------------------------------------------

/// Every character of `s` is an ASCII digit.
pub open spec fn all_digits(s: Seq<char>) -> bool {
    forall|i: int| 0 <= i < s.len() ==> '0' <= #[trigger] s[i] && s[i] <= '9'
}

/// The value of the decimal numeral `s`.
pub open spec fn digits_value(s: Seq<char>) -> nat
    decreases s.len(),
{
    if s.len() == 0 {
        0
    } else {
        digits_value(s.drop_last()) * 10 + ((s.last() as nat) - ('0' as nat)) as nat
    }
}

/// The digits of an unsigned numeral: one leading `+` is allowed.
pub open spec fn unsigned_digits(s: Seq<char>) -> Seq<char> {
    if s.len() > 0 && s[0] == '+' {
        s.drop_first()
    } else {
        s
    }
}

/// `str::parse::<u16>`: an optional `+`, then one or more ASCII digits whose
/// value fits in 16 bits.
pub open spec fn spec_parse_u16(s: Seq<char>) -> Option<u16> {
    let d = unsigned_digits(s);
    if d.len() > 0 && all_digits(d) && digits_value(d) <= 65535 {
        Some(digits_value(d) as u16)
    } else {
        None
    }
}

proof fn lemma_digits_monotone(s: Seq<char>, i: int)
    requires
        all_digits(s),
        0 <= i <= s.len(),
    ensures
        digits_value(s.take(i)) <= digits_value(s),
    decreases s.len(),
{
    if i < s.len() {
        let t = s.drop_last();
        assert(all_digits(t)) by {
            assert forall|k: int| 0 <= k < t.len() implies '0' <= #[trigger] t[k] && t[k] <= '9' by {
                assert(t[k] == s[k]);
            }
        }
        assert(t.take(i) =~= s.take(i));
        lemma_digits_monotone(t, i);
        assert('0' <= s.last());
    } else {
        assert(s.take(i) =~= s);
    }
}

/// Parses a `u16` as `str::parse` does.
pub fn parse_u16(s: &str) -> (r: Option<u16>)
    ensures
        r == spec_parse_u16(s@),
{
    let cs = chars_of(s);
    let n = cs.len();
    let start: usize = if n > 0 && cs[0] == '+' { 1 } else { 0 };
    let ghost d = unsigned_digits(s@);
    proof {
        assert(d =~= s@.skip(start as int));
    }
    if start == n {
        return None;
    }
    let mut v: u32 = 0;
    let mut i: usize = start;
    while i < n
        invariant
            cs@ == s@,
            n == cs@.len(),
            start <= i <= n,
            d == s@.skip(start as int),
            d == unsigned_digits(s@),
            d.len() > 0,
            all_digits(d.take(i - start)),
            v == digits_value(d.take(i - start)),
            v <= 65535,
        decreases n - i,
    {
        let c = cs[i];
        if c < '0' || c > '9' {
            proof {
                assert(d.len() == n - start);
                assert(d[i - start] == c);
                assert(!('0' <= d[i - start] && d[i - start] <= '9'));
            }
            return None;
        }
        let dv: u32 = (c as u32) - 48;
        proof {
            let t = d.take(i - start + 1);
            assert(t.drop_last() =~= d.take(i - start));
            assert(d.len() == n - start);
            assert(t.last() == c);
            assert(('0' as nat) == 48);
            assert(digits_value(t) == v * 10 + dv);
        }
        let nv: u32 = v * 10 + dv;
        if nv > 65535 {
            proof {
                let t = d.take(i - start + 1);
                assert(t.drop_last() =~= d.take(i - start));
                assert(d.len() == n - start);
                assert(digits_value(t) == v * 10 + dv);
                if all_digits(d) {
                    lemma_digits_monotone(d, i - start + 1);
                }
            }
            return None;
        }
        v = nv;
        i = i + 1;
        proof {
            let t = d.take(i - start);
            assert forall|k: int| 0 <= k < t.len() implies '0' <= #[trigger] t[k] && t[k] <= '9' by {
                if k < t.len() - 1 {
                    assert(t[k] == d.take(i - start - 1)[k]);
                }
            }
        }
    }
    assert(d.take(n - start) =~= d);
    Some(v as u16)
}

} // verus!

verus! {

// ---------------------------------------------------------------------------
// Facts about trimming and lines
// ---------------------------------------------------------------------------

proof fn lemma_lead_ws_props(s: Seq<char>)
    ensures
        lead_ws(s) <= s.len(),
        forall|j: int| 0 <= j < lead_ws(s) ==> is_ws(#[trigger] s[j]),
        lead_ws(s) < s.len() ==> !is_ws(s[lead_ws(s) as int]),
    decreases s.len(),
{
    if s.len() > 0 && is_ws(s[0]) {
        lemma_lead_ws_props(s.drop_first());
        assert forall|j: int| 0 <= j < lead_ws(s) implies is_ws(#[trigger] s[j]) by {
            if j > 0 {
                assert(s[j] == s.drop_first()[j - 1]);
            }
        }
    }
}

proof fn lemma_trail_ws_props(s: Seq<char>)
    ensures
        trail_ws(s) <= s.len(),
        forall|j: int| s.len() - trail_ws(s) <= j < s.len() ==> is_ws(#[trigger] s[j]),
        trail_ws(s) < s.len() ==> !is_ws(s[s.len() - 1 - trail_ws(s)]),
    decreases s.len(),
{
    if s.len() > 0 && is_ws(s.last()) {
        lemma_trail_ws_props(s.drop_last());
        assert forall|j: int| s.len() - trail_ws(s) <= j < s.len() implies is_ws(#[trigger] s[j]) by {
            if j < s.len() - 1 {
                assert(s[j] == s.drop_last()[j]);
            }
        }
    }
}

/// A trimmed text that is not empty starts and ends with non-whitespace.
pub proof fn lemma_trim_ends(s: Seq<char>)
    ensures
        trim(s).len() > 0 ==> !is_ws(trim(s)[0]) && !is_ws(trim(s).last()),
{
    let u = trim_start(s);
    lemma_lead_ws_props(s);
    lemma_trail_ws_props(u);
    if trim(s).len() > 0 {
        assert(u[0] == s[lead_ws(s) as int]);
        assert(trim(s)[0] == u[0]);
        assert(trim(s).last() == u[u.len() - 1 - trail_ws(u)]);
    }
}

/// Trimming twice is trimming once.
pub proof fn lemma_trim_idempotent(s: Seq<char>)
    ensures
        trim(trim(s)) == trim(s),
{
    let t = trim(s);
    lemma_trim_ends(s);
    if t.len() == 0 {
        assert(trim(t) =~= t);
    } else {
        assert(lead_ws(t) == 0);
        assert(trim_start(t) =~= t);
        assert(trail_ws(t) == 0);
        assert(trim(t) =~= t);
    }
}

/// Trailing whitespace does not change the trimmed text.
pub proof fn lemma_trim_push_ws(s: Seq<char>, c: char)
    requires
        is_ws(c),
    ensures
        trim(s.push(c)) == trim(s),
{
    let x = s.push(c);
    lemma_lead_ws_props(s);
    let l = lead_ws(s);
    if l == s.len() {
        assert forall|j: int| 0 <= j < x.len() implies is_ws(#[trigger] x[j]) by {
            if j < s.len() {
                assert(x[j] == s[j]);
            }
        }
        lemma_lead_ws(x, x.len() as int);
        assert(trim_start(x).len() == 0);
        assert(trim_start(s).len() == 0);
        assert(trim(x) =~= trim(s));
    } else {
        assert forall|j: int| 0 <= j < l implies is_ws(#[trigger] x[j]) by {
            assert(x[j] == s[j]);
        }
        assert(x[l as int] == s[l as int]);
        lemma_lead_ws(x, l as int);
        let u = trim_start(s);
        assert(trim_start(x) =~= u.push(c));
        assert(u.push(c).drop_last() =~= u);
        assert(trail_ws(u.push(c)) == 1 + trail_ws(u));
        lemma_trail_ws_props(u);
        assert(trim_end(u.push(c)) =~= trim_end(u));
    }
}

/// A carriage return at the end of a line does not change its trimmed text.
pub proof fn lemma_trim_strip_cr(l: Seq<char>)
    ensures
        trim(strip_cr(l)) == trim(l),
{
    if l.len() > 0 && l.last() == '\r' {
        assert(l =~= l.drop_last().push('\r'));
        lemma_trim_push_ws(l.drop_last(), '\r');
    }
}

/// Lines of text that ends with a line break are split independently of
/// what follows.
pub proof fn lemma_lines_concat(a: Seq<char>, b: Seq<char>)
    requires
        a.len() == 0 || a.last() == '\n',
    ensures
        lines(a + b) == lines(a) + lines(b),
    decreases a.len(),
{
    if a.len() == 0 {
        assert(a + b =~= b);
        assert(lines(a) + lines(b) =~= lines(b));
    } else {
        lemma_find_char_props(a, '\n');
        let p = find_char(a, '\n');
        assert(p < a.len());
        let ab = a + b;
        assert forall|j: int| 0 <= j < p implies #[trigger] ab[j] != '\n' by {
            assert(ab[j] == a[j]);
        }
        assert(ab[p as int] == a[p as int]);
        lemma_find_char(ab, '\n', p as int);
        let rest = a.skip(p as int + 1);
        assert(ab.take(p as int) =~= a.take(p as int));
        assert(ab.skip(p as int + 1) =~= rest + b);
        if rest.len() > 0 {
            assert(rest.last() == a.last());
        }
        lemma_lines_concat(rest, b);
        assert(lines(ab) =~= lines(a) + lines(b));
    }
}

/// A single line without line break, terminated, is one line.
pub proof fn lemma_lines_single(k: Seq<char>)
    requires
        forall|j: int| 0 <= j < k.len() ==> #[trigger] k[j] != '\n',
        k.len() == 0 || k.last() != '\r',
    ensures
        lines(k.push('\n')) == seq![k],
{
    let x = k.push('\n');
    assert forall|j: int| 0 <= j < k.len() implies #[trigger] x[j] != '\n' by {
        assert(x[j] == k[j]);
    }
    lemma_find_char(x, '\n', k.len() as int);
    assert(x.take(k.len() as int) =~= k);
    assert(x.skip(k.len() as int + 1) =~= Seq::<char>::empty());
    assert(lines(Seq::<char>::empty()) =~= Seq::<Seq<char>>::empty());
    assert(strip_cr(k) == k);
    assert(lines(x) == seq![strip_cr(x.take(k.len() as int))] + lines(x.skip(k.len() as int + 1)));
    assert(lines(x) =~= seq![k]);
}

/// Adding the missing final line break changes no line's trimmed text.
pub proof fn lemma_lines_push_nl_trim(e: Seq<char>)
    requires
        e.len() > 0,
        e.last() != '\n',
    ensures
        lines(e.push('\n')).map_values(|l: Seq<char>| trim(l)) == lines(e).map_values(
            |l: Seq<char>| trim(l),
        ),
    decreases e.len(),
{
    let x = e.push('\n');
    lemma_find_char_props(e, '\n');
    let p = find_char(e, '\n');
    assert forall|j: int| 0 <= j < p implies #[trigger] x[j] != '\n' by {
        assert(x[j] == e[j]);
    }
    if p < e.len() {
        assert(x[p as int] == '\n');
        lemma_find_char(x, '\n', p as int);
        let r = e.skip(p as int + 1);
        assert(x.take(p as int) =~= e.take(p as int));
        assert(x.skip(p as int + 1) =~= r.push('\n'));
        assert(r.len() > 0);
        assert(r.last() == e.last());
        lemma_lines_push_nl_trim(r);
        let first = strip_cr(e.take(p as int));
        assert(lines(x) == seq![first] + lines(r.push('\n')));
        assert(lines(e) == seq![first] + lines(r));
        assert((seq![first] + lines(r.push('\n'))).map_values(|l: Seq<char>| trim(l)) =~= seq![
            trim(first),
        ] + lines(r.push('\n')).map_values(|l: Seq<char>| trim(l)));
        assert((seq![first] + lines(r)).map_values(|l: Seq<char>| trim(l)) =~= seq![trim(first)]
            + lines(r).map_values(|l: Seq<char>| trim(l)));
    } else {
        lemma_find_char(x, '\n', e.len() as int);
        assert(x.take(e.len() as int) =~= e);
        assert(x.skip(e.len() as int + 1) =~= Seq::<char>::empty());
        assert(lines(Seq::<char>::empty()) =~= Seq::<Seq<char>>::empty());
        assert(lines(x) == seq![strip_cr(x.take(e.len() as int))] + lines(x.skip(e.len() as int + 1)));
        assert(lines(x) =~= seq![strip_cr(e)]);
        assert(lines(e) =~= seq![e]);
        lemma_trim_strip_cr(e);
        assert(lines(x).map_values(|l: Seq<char>| trim(l)) =~= lines(e).map_values(
            |l: Seq<char>| trim(l),
        ));
    }
}

} // verus!

verus! {

/// No line break in `s`.
pub open spec fn no_nl(s: Seq<char>) -> bool {
    forall|i: int| 0 <= i < s.len() ==> #[trigger] s[i] != '\n'
}

pub proof fn lemma_join_front(ls: Seq<Seq<char>>, sep: Seq<char>)
    requires
        ls.len() >= 2,
    ensures
        join(ls, sep) == ls[0] + sep + join(ls.drop_first(), sep),
    decreases ls.len(),
{
    let dl = ls.drop_last();
    let df = ls.drop_first();
    if ls.len() > 2 {
        lemma_join_front(dl, sep);
        assert(dl.drop_first() =~= df.drop_last());
        assert(df.last() == ls.last());
        assert(dl[0] == ls[0]);
        assert(join(df, sep) == join(df.drop_last(), sep) + sep + df.last());
        assert(join(ls, sep) == join(dl, sep) + sep + ls.last());
        let m = join(df.drop_last(), sep);
        assert(join(dl, sep) == ls[0] + sep + m);
        assert((ls[0] + sep + m) + sep + ls.last() =~= ls[0] + sep + (m + sep + ls.last()));
        assert(join(ls, sep) =~= ls[0] + sep + join(df, sep));
    } else {
        assert(df.len() == 1);
        assert(dl.len() == 1);
        assert(dl[0] == ls[0]);
        assert(df[0] == ls.last());
        assert(join(dl, sep) == dl[0]);
        assert(join(df, sep) == df[0]);
        assert(join(ls, sep) == join(dl, sep) + sep + ls.last());
        assert(join(ls, sep) =~= ls[0] + sep + join(df, sep));
    }
}

/// The lines of any text contain no line break.
pub proof fn lemma_lines_no_nl(s: Seq<char>)
    ensures
        forall|i: int| 0 <= i < lines(s).len() ==> no_nl(#[trigger] lines(s)[i]),
    decreases s.len(),
{
    if s.len() > 0 {
        let p = find_char(s, '\n');
        lemma_find_char_props(s, '\n');
        if p < s.len() {
            lemma_lines_no_nl(s.skip(p as int + 1));
            let first = strip_cr(s.take(p as int));
            assert forall|j: int| 0 <= j < first.len() implies #[trigger] first[j] != '\n' by {
                assert(first[j] == s[j]);
            }
            assert forall|i: int| 0 <= i < lines(s).len() implies no_nl(#[trigger] lines(s)[i]) by {
                if i > 0 {
                    assert(lines(s)[i] == lines(s.skip(p as int + 1))[i - 1]);
                }
            }
        }
    }
}

} // verus!

verus! {

/// Lines without line breaks, joined with `\n` and terminated, split back
/// into themselves, less a final carriage return each.
pub proof fn lemma_lines_of_joined_lines(ls: Seq<Seq<char>>)
    requires
        ls.len() > 0,
        forall|i: int| 0 <= i < ls.len() ==> no_nl(#[trigger] ls[i]),
    ensures
        lines(join(ls, seq!['\n']).push('\n')) == ls.map_values(|l: Seq<char>| strip_cr(l)),
    decreases ls.len(),
{
    let nl = seq!['\n'];
    let first = ls[0];
    assert(no_nl(first));
    let tail = if ls.len() == 1 {
        Seq::<char>::empty()
    } else {
        join(ls.drop_first(), nl).push('\n')
    };
    let s = join(ls, nl).push('\n');
    if ls.len() == 1 {
        assert(s =~= first + nl + tail);
    } else {
        lemma_join_front(ls, nl);
        assert(s =~= first + nl + tail);
    }
    assert forall|j: int| 0 <= j < first.len() implies #[trigger] s[j] != '\n' by {
        assert(s[j] == first[j]);
    }
    assert(s[first.len() as int] == '\n');
    lemma_find_char(s, '\n', first.len() as int);
    assert(s.take(first.len() as int) =~= first);
    assert(s.skip(first.len() as int + 1) =~= tail);
    if ls.len() == 1 {
        assert(lines(tail) =~= Seq::<Seq<char>>::empty());
        assert(lines(s) =~= ls.map_values(|l: Seq<char>| strip_cr(l)));
    } else {
        let rest = ls.drop_first();
        assert forall|i: int| 0 <= i < rest.len() implies no_nl(#[trigger] rest[i]) by {
            assert(rest[i] == ls[i + 1]);
        }
        lemma_lines_of_joined_lines(rest);
        assert(lines(s) == seq![strip_cr(first)] + lines(tail));
        assert(lines(s) =~= ls.map_values(|l: Seq<char>| strip_cr(l)));
    }
}

/// Trailing whitespace does not change the length of the leading word.
proof fn lemma_word_len_push_ws(t: Seq<char>, c: char)
    requires
        is_ws(c),
    ensures
        word_len(t.push(c)) == word_len(t),
    decreases t.len(),
{
    if t.len() > 0 && !is_ws(t[0]) {
        assert(t.push(c).drop_first() =~= t.drop_first().push(c));
        lemma_word_len_push_ws(t.drop_first(), c);
    }
}

/// Trailing whitespace does not change the first whitespace-separated field,
/// nor whether anything but whitespace is there, nor what comes first.
pub proof fn lemma_first_field_push_ws(s: Seq<char>, c: char)
    requires
        is_ws(c),
    ensures
        trim_start(s.push(c)).take(word_len(trim_start(s.push(c))) as int) == trim_start(s).take(
            word_len(trim_start(s)) as int,
        ),
        trim_start(s.push(c)).len() > 0 <==> trim_start(s).len() > 0,
        trim_start(s).len() > 0 ==> trim_start(s.push(c))[0] == trim_start(s)[0],
{
    let x = s.push(c);
    lemma_lead_ws_props(s);
    let l = lead_ws(s);
    if l == s.len() {
        assert forall|j: int| 0 <= j < x.len() implies is_ws(#[trigger] x[j]) by {
            if j < s.len() {
                assert(x[j] == s[j]);
            }
        }
        lemma_lead_ws(x, x.len() as int);
        assert(trim_start(x).len() == 0);
        assert(trim_start(s).len() == 0);
        assert(trim_start(x).take(0) =~= trim_start(s).take(0));
    } else {
        assert forall|j: int| 0 <= j < l implies is_ws(#[trigger] x[j]) by {
            assert(x[j] == s[j]);
        }
        assert(x[l as int] == s[l as int]);
        lemma_lead_ws(x, l as int);
        let u = trim_start(s);
        assert(trim_start(x) =~= u.push(c));
        lemma_word_len_push_ws(u, c);
        lemma_word_len_le(u);
        assert(u.push(c).take(word_len(u) as int) =~= u.take(word_len(u) as int));
    }
}

proof fn lemma_word_len_le(s: Seq<char>)
    ensures
        word_len(s) <= s.len(),
    decreases s.len(),
{
    if s.len() > 0 && !is_ws(s[0]) {
        lemma_word_len_le(s.drop_first());
    }
}

} // verus!

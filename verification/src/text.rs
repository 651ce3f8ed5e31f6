//! Character-level string helpers shared by every module: conversion between `str` and
//! character vectors, whitespace, decimal rendering, and substring tests over `Seq<char>`.

use vstd::prelude::*;
use vstd::string::StrSliceExecFns;

verus! {

/// The characters of `s`, in order.
pub fn to_chars(s: &str) -> (out: Vec<char>)
    ensures
        out@ == s@,
{
    let mut out: Vec<char> = Vec::new();
    for c in it: s.chars()
        invariant
            out@ == it.seq().take(it.index() as int),
            it.seq() == s@,
    {
        out.push(c);
    }
    proof {
        assert(out@ =~= s@);
    }
    out
}

/// `String::push`: append one character.
#[verifier::external_body]
pub fn push_char(s: &mut String, c: char)
    ensures
        final(s)@ == old(s)@.push(c),
{
    s.push(c);
}

/// The string holding exactly the characters `cs`.
pub fn from_chars(cs: &[char]) -> (out: String)
    ensures
        out@ == cs@,
{
    let mut out = String::new();
    let mut i: usize = 0;
    while i < cs.len()
        invariant
            i <= cs@.len(),
            out@ == cs@.take(i as int),
        decreases cs@.len() - i,
    {
        push_char(&mut out, cs[i]);
        i = i + 1;
        proof {
            assert(out@ =~= cs@.take(i as int));
        }
    }
    proof {
        assert(cs@.take(cs@.len() as int) =~= cs@);
    }
    out
}

/// Append `t` to `s`.
pub fn push_str(s: &mut String, t: &str)
    ensures
        final(s)@ == old(s)@ + t@,
{
    s.append(t);
}

/// An owned copy of `s`.
pub fn owned(s: &str) -> (out: String)
    ensures
        out@ == s@,
{
    s.to_owned()
}

/// Unicode `White_Space`, the property `char::is_whitespace` and `str::trim` use.
pub open spec fn is_ws(c: char) -> bool {
    ||| ('\u{9}' <= c && c <= '\u{d}')
    ||| c == ' '
    ||| c == '\u{85}'
    ||| c == '\u{a0}'
    ||| c == '\u{1680}'
    ||| ('\u{2000}' <= c && c <= '\u{200a}')
    ||| c == '\u{2028}'
    ||| c == '\u{2029}'
    ||| c == '\u{202f}'
    ||| c == '\u{205f}'
    ||| c == '\u{3000}'
}

/// Whether `c` is Unicode white space.
pub fn is_whitespace(c: char) -> (b: bool)
    ensures
        b == is_ws(c),
{
    ('\u{9}' <= c && c <= '\u{d}') || c == ' ' || c == '\u{85}' || c == '\u{a0}' || c
        == '\u{1680}' || ('\u{2000}' <= c && c <= '\u{200a}') || c == '\u{2028}' || c
        == '\u{2029}' || c == '\u{202f}' || c == '\u{205f}' || c == '\u{3000}'
}

/// Every character of `s` is white space (so `s.trim()` is empty).
pub open spec fn all_ws(s: Seq<char>) -> bool {
    forall|i: int| 0 <= i < s.len() ==> is_ws(#[trigger] s[i])
}

/// Whether `s` is empty once trimmed.
pub fn is_blank(s: &str) -> (b: bool)
    ensures
        b == all_ws(s@),
{
    let cs = to_chars(s);
    let mut i: usize = 0;
    while i < cs.len()
        invariant
            i <= cs@.len(),
            cs@ == s@,
            forall|j: int| 0 <= j < i ==> is_ws(#[trigger] cs@[j]),
        decreases cs@.len() - i,
    {
        if !is_whitespace(cs[i]) {
            return false;
        }
        i = i + 1;
    }
    true
}

/// The index of the first non-white-space character at or after `from` (`s.len()` if none).
pub open spec fn trim_start_index(s: Seq<char>, from: int) -> int
    decreases s.len() - from,
{
    if from >= s.len() {
        s.len() as int
    } else if is_ws(s[from]) {
        trim_start_index(s, from + 1)
    } else {
        from
    }
}

/// The length of `s` once trailing white space before position `to` is dropped.
pub open spec fn trim_end_index(s: Seq<char>, to: int) -> int
    decreases to,
{
    if to <= 0 {
        0
    } else if is_ws(s[to - 1]) {
        trim_end_index(s, to - 1)
    } else {
        to
    }
}

/// `s` without trailing white space (`str::trim_end`).
pub open spec fn trim_end_spec(s: Seq<char>) -> Seq<char> {
    s.take(trim_end_index(s, s.len() as int))
}

/// `s` without leading or trailing white space (`str::trim`).
pub open spec fn trim_spec(s: Seq<char>) -> Seq<char> {
    let e = trim_end_index(s, s.len() as int);
    let b = trim_start_index(s, 0);
    if b >= e {
        Seq::empty()
    } else {
        s.subrange(b, e)
    }
}

proof fn lemma_trim_start_bounds(s: Seq<char>, from: int)
    requires
        0 <= from,
    ensures
        from <= trim_start_index(s, from) || from > s.len(),
        trim_start_index(s, from) <= s.len() || from > s.len(),
        forall|j: int| from <= j < trim_start_index(s, from) ==> is_ws(#[trigger] s[j]),
        trim_start_index(s, from) < s.len() ==> !is_ws(s[trim_start_index(s, from)]),
    decreases s.len() - from,
{
    if from < s.len() && is_ws(s[from]) {
        lemma_trim_start_bounds(s, from + 1);
    }
}

proof fn lemma_trim_end_bounds(s: Seq<char>, to: int)
    requires
        0 <= to <= s.len(),
    ensures
        0 <= trim_end_index(s, to) <= to,
        forall|j: int| trim_end_index(s, to) <= j < to ==> is_ws(#[trigger] s[j]),
        trim_end_index(s, to) > 0 ==> !is_ws(s[trim_end_index(s, to) - 1]),
    decreases to,
{
    if to > 0 && is_ws(s[to - 1]) {
        lemma_trim_end_bounds(s, to - 1);
    }
}

/// `cs` without trailing white space.
pub fn trim_end_chars(cs: &[char]) -> (out: Vec<char>)
    ensures
        out@ == trim_end_spec(cs@),
{
    let mut e: usize = cs.len();
    while e > 0 && is_whitespace(cs[e - 1])
        invariant
            e <= cs@.len(),
            trim_end_index(cs@, cs@.len() as int) == trim_end_index(cs@, e as int),
        decreases e,
    {
        e = e - 1;
    }
    let mut out: Vec<char> = Vec::new();
    let mut i: usize = 0;
    while i < e
        invariant
            i <= e <= cs@.len(),
            out@ == cs@.take(i as int),
        decreases e - i,
    {
        out.push(cs[i]);
        i = i + 1;
        proof {
            assert(out@ =~= cs@.take(i as int));
        }
    }
    out
}

/// `cs` without leading or trailing white space.
pub fn trim_chars(cs: &[char]) -> (out: Vec<char>)
    ensures
        out@ == trim_spec(cs@),
{
    let mut e: usize = cs.len();
    while e > 0 && is_whitespace(cs[e - 1])
        invariant
            e <= cs@.len(),
            trim_end_index(cs@, cs@.len() as int) == trim_end_index(cs@, e as int),
        decreases e,
    {
        e = e - 1;
    }
    let mut b: usize = 0;
    while b < cs.len() && is_whitespace(cs[b])
        invariant
            b <= cs@.len(),
            trim_start_index(cs@, 0) == trim_start_index(cs@, b as int),
        decreases cs@.len() - b,
    {
        b = b + 1;
    }
    let mut out: Vec<char> = Vec::new();
    if b >= e {
        proof {
            assert(out@ =~= Seq::<char>::empty());
        }
        return out;
    }
    let mut i: usize = b;
    while i < e
        invariant
            b <= i <= e <= cs@.len(),
            out@ == cs@.subrange(b as int, i as int),
        decreases e - i,
    {
        out.push(cs[i]);
        i = i + 1;
        proof {
            assert(out@ =~= cs@.subrange(b as int, i as int));
        }
    }
    out
}

/// `s.trim()`: the slice of `s` without leading or trailing white space.
pub fn trim_str<'a>(s: &'a str) -> (out: &'a str)
    ensures
        out@ == trim_spec(s@),
{
    let cs = to_chars(s);
    let mut e: usize = cs.len();
    while e > 0 && is_whitespace(cs[e - 1])
        invariant
            cs@ == s@,
            e <= cs@.len(),
            trim_end_index(cs@, cs@.len() as int) == trim_end_index(cs@, e as int),
        decreases e,
    {
        e = e - 1;
    }
    let mut b: usize = 0;
    while b < cs.len() && is_whitespace(cs[b])
        invariant
            cs@ == s@,
            b <= cs@.len(),
            trim_start_index(cs@, 0) == trim_start_index(cs@, b as int),
        decreases cs@.len() - b,
    {
        b = b + 1;
    }
    if b >= e {
        let out = s.substring_char(0, 0);
        proof {
            assert(out@ =~= Seq::<char>::empty());
        }
        return out;
    }
    s.substring_char(b, e)
}

/// `s.trim()` as an owned string.
pub fn trim(s: &str) -> (out: String)
    ensures
        out@ == trim_spec(s@),
{
    let cs = to_chars(s);
    let t = trim_chars(cs.as_slice());
    from_chars(t.as_slice())
}

/// The decimal digit for `d` (`d < 10`).
pub open spec fn digit(d: nat) -> char {
    if d == 0 {
        '0'
    } else if d == 1 {
        '1'
    } else if d == 2 {
        '2'
    } else if d == 3 {
        '3'
    } else if d == 4 {
        '4'
    } else if d == 5 {
        '5'
    } else if d == 6 {
        '6'
    } else if d == 7 {
        '7'
    } else if d == 8 {
        '8'
    } else {
        '9'
    }
}

/// The decimal rendering of `n`, without leading zeros (`"0"` for zero).
pub open spec fn decimal(n: nat) -> Seq<char>
    decreases n,
{
    if n < 10 {
        seq![digit(n)]
    } else {
        decimal(n / 10).push(digit(n % 10))
    }
}

fn digit_char(d: u64) -> (c: char)
    requires
        d < 10,
    ensures
        c == digit(d as nat),
{
    if d == 0 {
        '0'
    } else if d == 1 {
        '1'
    } else if d == 2 {
        '2'
    } else if d == 3 {
        '3'
    } else if d == 4 {
        '4'
    } else if d == 5 {
        '5'
    } else if d == 6 {
        '6'
    } else if d == 7 {
        '7'
    } else if d == 8 {
        '8'
    } else {
        '9'
    }
}

/// The decimal digits of `n`, as characters.
pub fn decimal_chars(n: u64) -> (out: Vec<char>)
    ensures
        out@ == decimal(n as nat),
    decreases n,
{
    if n < 10 {
        let mut v: Vec<char> = Vec::new();
        v.push(digit_char(n));
        proof {
            assert(v@ =~= seq![digit(n as nat)]);
        }
        v
    } else {
        let mut v = decimal_chars(n / 10);
        v.push(digit_char(n % 10));
        v
    }
}

/// The decimal rendering of `n` (`n.to_string()`).
pub fn u64_string(n: u64) -> (out: String)
    ensures
        out@ == decimal(n as nat),
{
    let v = decimal_chars(n);
    from_chars(v.as_slice())
}

/// Append the decimal rendering of `n` to `s`.
pub fn push_u64(s: &mut String, n: u64)
    ensures
        final(s)@ == old(s)@ + decimal(n as nat),
{
    let v = decimal_chars(n);
    let mut i: usize = 0;
    while i < v.len()
        invariant
            i <= v@.len(),
            v@ == decimal(n as nat),
            s@ == old(s)@ + v@.take(i as int),
        decreases v@.len() - i,
    {
        push_char(s, v[i]);
        i = i + 1;
        proof {
            assert(s@ =~= old(s)@ + v@.take(i as int));
        }
    }
    proof {
        assert(v@.take(v@.len() as int) =~= v@);
    }
}

/// Whether `p` is a prefix of `s`.
pub open spec fn has_prefix(s: Seq<char>, p: Seq<char>) -> bool {
    p.len() <= s.len() && s.take(p.len() as int) == p
}

/// Whether `p` is a suffix of `s`.
pub open spec fn has_suffix(s: Seq<char>, p: Seq<char>) -> bool {
    p.len() <= s.len() && s.skip(s.len() - p.len()) == p
}

/// Whether `p` occurs in `s` starting at `i`.
pub open spec fn occurs_at(s: Seq<char>, p: Seq<char>, i: int) -> bool {
    0 <= i && i + p.len() <= s.len() && s.subrange(i, i + p.len()) == p
}

/// Whether `p` occurs anywhere in `s`.
pub open spec fn contains_seq(s: Seq<char>, p: Seq<char>) -> bool {
    exists|i: int| occurs_at(s, p, i)
}

/// Whether `p` occurs in `s` at position `i` (exec).
pub fn matches_at(s: &[char], p: &[char], i: usize) -> (b: bool)
    ensures
        b == occurs_at(s@, p@, i as int),
{
    if i > s.len() || p.len() > s.len() - i {
        return false;
    }
    let mut k: usize = 0;
    while k < p.len()
        invariant
            i + p@.len() <= s@.len(),
            s@.len() == s.len(),
            k <= p@.len(),
            forall|j: int| 0 <= j < k ==> s@[i + j] == p@[j],
        decreases p@.len() - k,
    {
        if s[i + k] != p[k] {
            proof {
                assert(s@.subrange(i as int, i + p@.len())[k as int] != p@[k as int]);
            }
            return false;
        }
        k = k + 1;
    }
    proof {
        assert(s@.subrange(i as int, i + p@.len()) =~= p@);
    }
    true
}

/// Whether `p` occurs anywhere in `s` (exec).
pub fn contains_chars(s: &[char], p: &[char]) -> (b: bool)
    ensures
        b == contains_seq(s@, p@),
{
    if p.len() > s.len() {
        return false;
    }
    let last = s.len() - p.len();
    let mut i: usize = 0;
    while i < last
        invariant
            last == s@.len() - p@.len(),
            i <= last,
            forall|j: int| 0 <= j < i ==> !occurs_at(s@, p@, j),
        decreases last - i,
    {
        if matches_at(s, p, i) {
            return true;
        }
        i = i + 1;
    }
    let r = matches_at(s, p, last);
    proof {
        if !r {
            assert forall|j: int| !occurs_at(s@, p@, j) by {
                if 0 <= j && j < last {
                }
            }
        }
    }
    r
}

/// Whether `p` occurs anywhere in `s`.
pub fn contains_str(s: &str, p: &str) -> (b: bool)
    ensures
        b == contains_seq(s@, p@),
{
    let sc = to_chars(s);
    let pc = to_chars(p);
    contains_chars(sc.as_slice(), pc.as_slice())
}

/// Whether `s` starts with `p`.
pub fn starts_with(s: &str, p: &str) -> (b: bool)
    ensures
        b == has_prefix(s@, p@),
{
    let sc = to_chars(s);
    let pc = to_chars(p);
    let r = matches_at(sc.as_slice(), pc.as_slice(), 0);
    proof {
        if pc@.len() <= sc@.len() {
            assert(sc@.subrange(0, pc@.len() as int) =~= sc@.take(pc@.len() as int));
        }
    }
    r
}

/// Whether `s` ends with `p`.
pub fn ends_with(s: &str, p: &str) -> (b: bool)
    ensures
        b == has_suffix(s@, p@),
{
    let sc = to_chars(s);
    let pc = to_chars(p);
    if pc.len() > sc.len() {
        return false;
    }
    let r = matches_at(sc.as_slice(), pc.as_slice(), sc.len() - pc.len());
    proof {
        assert(sc@.subrange(sc@.len() - pc@.len(), sc@.len() as int) =~= sc@.skip(
            sc@.len() - pc@.len(),
        ));
    }
    r
}

/// Whether two strings hold the same characters.
pub fn str_eq(a: &str, b: &str) -> (r: bool)
    ensures
        r == (a@ == b@),
{
    let ac = to_chars(a);
    let bc = to_chars(b);
    chars_eq(ac.as_slice(), bc.as_slice())
}

/// Whether two character slices are equal.
pub fn chars_eq(a: &[char], b: &[char]) -> (r: bool)
    ensures
        r == (a@ == b@),
{
    if a.len() != b.len() {
        return false;
    }
    let mut i: usize = 0;
    while i < a.len()
        invariant
            a@.len() == b@.len(),
            i <= a@.len(),
            forall|j: int| 0 <= j < i ==> a@[j] == b@[j],
        decreases a@.len() - i,
    {
        if a[i] != b[i] {
            return false;
        }
        i = i + 1;
    }
    proof {
        assert(a@ =~= b@);
    }
    true
}

/// Lexicographic order on character sequences, the order `str`'s `<` gives (UTF-8 keeps code
/// point order byte by byte).
pub open spec fn lex_lt(a: Seq<char>, b: Seq<char>) -> bool
    decreases a.len(),
{
    if b.len() == 0 {
        false
    } else if a.len() == 0 {
        true
    } else if a[0] != b[0] {
        (a[0] as int) < (b[0] as int)
    } else {
        lex_lt(a.drop_first(), b.drop_first())
    }
}

/// `lex_lt` is irreflexive.
pub proof fn lemma_lex_irreflexive(a: Seq<char>)
    ensures
        !lex_lt(a, a),
    decreases a.len(),
{
    if a.len() > 0 {
        lemma_lex_irreflexive(a.drop_first());
    }
}

/// `lex_lt` is total: of two distinct sequences one is below the other.
pub proof fn lemma_lex_total(a: Seq<char>, b: Seq<char>)
    ensures
        lex_lt(a, b) || lex_lt(b, a) || a == b,
    decreases a.len(),
{
    if a.len() > 0 && b.len() > 0 && a[0] == b[0] {
        lemma_lex_total(a.drop_first(), b.drop_first());
        if a.drop_first() == b.drop_first() {
            assert(a =~= seq![a[0]] + a.drop_first());
            assert(b =~= seq![b[0]] + b.drop_first());
        }
    } else if a.len() == 0 && b.len() == 0 {
        assert(a =~= b);
    } else if a.len() > 0 && b.len() > 0 {
        assert((a[0] as int) != (b[0] as int));
    }
}

/// `lex_lt` is asymmetric.
pub proof fn lemma_lex_asymmetric(a: Seq<char>, b: Seq<char>)
    ensures
        !(lex_lt(a, b) && lex_lt(b, a)),
    decreases a.len(),
{
    if a.len() > 0 && b.len() > 0 && a[0] == b[0] {
        lemma_lex_asymmetric(a.drop_first(), b.drop_first());
    }
}

/// `lex_lt` is transitive.
pub proof fn lemma_lex_transitive(a: Seq<char>, b: Seq<char>, c: Seq<char>)
    requires
        lex_lt(a, b),
        lex_lt(b, c),
    ensures
        lex_lt(a, c),
    decreases a.len(),
{
    if a.len() > 0 && b.len() > 0 && c.len() > 0 && a[0] == b[0] && b[0] == c[0] {
        lemma_lex_transitive(a.drop_first(), b.drop_first(), c.drop_first());
    }
}

/// Whether `a` sorts strictly before `b`.
pub fn chars_lt(a: &[char], b: &[char]) -> (r: bool)
    ensures
        r == lex_lt(a@, b@),
{
    let mut i: usize = 0;
    proof {
        assert(a@.skip(0) =~= a@);
        assert(b@.skip(0) =~= b@);
    }
    while i < a.len() && i < b.len()
        invariant
            i <= a@.len(),
            i <= b@.len(),
            forall|j: int| 0 <= j < i ==> a@[j] == b@[j],
            lex_lt(a@, b@) == lex_lt(a@.skip(i as int), b@.skip(i as int)),
        decreases a@.len() - i,
    {
        if a[i] != b[i] {
            proof {
                assert(a@.skip(i as int)[0] == a@[i as int]);
                assert(b@.skip(i as int)[0] == b@[i as int]);
            }
            return a[i] < b[i];
        }
        proof {
            assert(a@.skip(i as int).drop_first() =~= a@.skip(i + 1));
            assert(b@.skip(i as int).drop_first() =~= b@.skip(i + 1));
        }
        i = i + 1;
    }
    i < b.len()
}

/// Whether `a` sorts strictly before `b` (`a < b` on `str`).
pub fn str_lt(a: &str, b: &str) -> (r: bool)
    ensures
        r == lex_lt(a@, b@),
{
    let ac = to_chars(a);
    let bc = to_chars(b);
    chars_lt(ac.as_slice(), bc.as_slice())
}

/// ASCII lowercase of one character; other characters are unchanged.
pub open spec fn ascii_lower(c: char) -> char {
    if 'A' <= c && c <= 'Z' {
        ((c as u32) + 32) as char
    } else {
        c
    }
}

/// ASCII-case-insensitive equality of character sequences.
pub open spec fn eq_ignore_case_spec(a: Seq<char>, b: Seq<char>) -> bool {
    a.len() == b.len() && forall|i: int| 0 <= i < a.len() ==> ascii_lower(a[i]) == ascii_lower(
        b[i],
    )
}

/// ASCII lowercase of one character.
pub fn to_ascii_lower(c: char) -> (l: char)
    ensures
        l == ascii_lower(c),
{
    if 'A' <= c && c <= 'Z' {
        ((c as u8) + 32) as char
    } else {
        c
    }
}

/// `str::eq_ignore_ascii_case`.
pub fn eq_ignore_ascii_case(a: &str, b: &str) -> (r: bool)
    ensures
        r == eq_ignore_case_spec(a@, b@),
{
    let ac = to_chars(a);
    let bc = to_chars(b);
    if ac.len() != bc.len() {
        return false;
    }
    let mut i: usize = 0;
    while i < ac.len()
        invariant
            ac@ == a@,
            bc@ == b@,
            ac@.len() == bc@.len(),
            i <= ac@.len(),
            forall|j: int| 0 <= j < i ==> ascii_lower(ac@[j]) == ascii_lower(bc@[j]),
        decreases ac@.len() - i,
    {
        if to_ascii_lower(ac[i]) != to_ascii_lower(bc[i]) {
            return false;
        }
        i = i + 1;
    }
    true
}

/// Unicode `Alphabetic` or `Numeric`, the property `char::is_alphanumeric` tests.
pub uninterp spec fn alphanumeric(c: char) -> bool;

/// `char::is_alphanumeric`: on ASCII, exactly the letters and digits.
#[verifier::external_body]
pub fn is_alphanumeric(c: char) -> (b: bool)
    ensures
        b == alphanumeric(c),
        (c as u32) < 128 ==> (b <==> (('a' <= c && c <= 'z') || ('A' <= c && c <= 'Z') || ('0'
            <= c && c <= '9'))),
{
    c.is_alphanumeric()
}

/// ASCII lowercase of every character of `s`.
pub open spec fn ascii_lower_seq(s: Seq<char>) -> Seq<char> {
    s.map_values(|c: char| ascii_lower(c))
}

/// `str::to_ascii_lowercase`.
pub fn to_ascii_lowercase(s: &str) -> (out: String)
    ensures
        out@ == ascii_lower_seq(s@),
{
    let cs = to_chars(s);
    let mut out = String::new();
    let mut i: usize = 0;
    while i < cs.len()
        invariant
            cs@ == s@,
            i <= cs@.len(),
            out@ == ascii_lower_seq(cs@.take(i as int)),
        decreases cs@.len() - i,
    {
        push_char(&mut out, to_ascii_lower(cs[i]));
        proof {
            assert(ascii_lower_seq(cs@.take(i + 1)) =~= ascii_lower_seq(cs@.take(i as int)).push(
                ascii_lower(cs@[i as int]),
            ));
        }
        i = i + 1;
    }
    proof {
        assert(cs@.take(cs@.len() as int) =~= cs@);
    }
    out
}

/// `parts` joined by `sep` (`[..].join(sep)`).
pub open spec fn join(parts: Seq<Seq<char>>, sep: Seq<char>) -> Seq<char>
    decreases parts.len(),
{
    if parts.len() == 0 {
        Seq::empty()
    } else if parts.len() == 1 {
        parts[0]
    } else {
        join(parts.drop_last(), sep) + sep + parts.last()
    }
}

/// The character views of a list of strings.
pub open spec fn views(v: Seq<String>) -> Seq<Seq<char>> {
    v.map_values(|s: String| s@)
}

/// Append `s` to a list of strings.
pub fn push_string(v: &mut Vec<String>, s: String)
    ensures
        views(final(v)@) == views(old(v)@).push(s@),
{
    let ghost before = v@;
    v.push(s);
    proof {
        assert(views(v@) =~= views(before).push(s@));
    }
}

/// The strings `parts` joined by `sep`.
pub fn join_strings(parts: &Vec<String>, sep: &str) -> (out: String)
    ensures
        out@ == join(views(parts@), sep@),
{
    let mut out = String::new();
    let mut i: usize = 0;
    while i < parts.len()
        invariant
            i <= parts@.len(),
            out@ == join(views(parts@).take(i as int), sep@),
        decreases parts@.len() - i,
    {
        proof {
            let t = views(parts@).take(i + 1);
            assert(t.drop_last() =~= views(parts@).take(i as int));
            assert(t.last() == parts@[i as int]@);
        }
        if i > 0 {
            push_str(&mut out, sep);
        }
        push_str(&mut out, parts[i].as_str());
        i = i + 1;
        proof {
            if i == 1 {
                assert(views(parts@).take(1)[0] == parts@[0]@);
                assert(out@ =~= join(views(parts@).take(1), sep@));
            }
        }
    }
    proof {
        assert(views(parts@).take(parts@.len() as int) =~= views(parts@));
    }
    out
}

/// The number of characters of `s`.
pub fn char_count(s: &str) -> (n: usize)
    ensures
        n == s@.len(),
{
    let cs = to_chars(s);
    cs.len()
}

/// The decimal digits of a `u128`.
pub fn decimal_chars_u128(n: u128) -> (out: Vec<char>)
    ensures
        out@ == decimal(n as nat),
    decreases n,
{
    if n < 10 {
        let mut v: Vec<char> = Vec::new();
        v.push(digit_char(n as u64));
        proof {
            assert(v@ =~= seq![digit(n as nat)]);
        }
        v
    } else {
        let mut v = decimal_chars_u128(n / 10);
        v.push(digit_char((n % 10) as u64));
        v
    }
}

/// Append the chars `cs` to `s`.
pub fn push_chars(s: &mut String, cs: &[char])
    ensures
        final(s)@ == old(s)@ + cs@,
{
    let mut i: usize = 0;
    while i < cs.len()
        invariant
            i <= cs@.len(),
            s@ == old(s)@ + cs@.take(i as int),
        decreases cs@.len() - i,
    {
        push_char(s, cs[i]);
        i = i + 1;
        proof {
            assert(s@ =~= old(s)@ + cs@.take(i as int));
        }
    }
    proof {
        assert(cs@.take(cs@.len() as int) =~= cs@);
    }
}

/// `n` zeros.
pub open spec fn zeros(n: nat) -> Seq<char> {
    Seq::new(n, |i: int| '0')
}

/// The decimal rendering of `n`, left-padded with zeros to at least `width` characters
/// (`format!("{n:0width$}")`).
pub open spec fn padded(n: nat, width: nat) -> Seq<char> {
    let d = decimal(n);
    if d.len() >= width {
        d
    } else {
        zeros((width - d.len()) as nat) + d
    }
}

/// Append `n` zero-padded to `width` characters.
pub fn push_padded(s: &mut String, n: u64, width: usize)
    ensures
        final(s)@ == old(s)@ + padded(n as nat, width as nat),
{
    let d = decimal_chars(n);
    let ghost start = s@;
    if d.len() < width {
        let pad = width - d.len();
        let mut k: usize = 0;
        while k < pad
            invariant
                k <= pad,
                s@ == start + zeros(k as nat),
            decreases pad - k,
        {
            push_char(s, '0');
            k = k + 1;
            proof {
                assert(s@ =~= start + zeros(k as nat));
            }
        }
    }
    let ghost mid = s@;
    push_chars(s, d.as_slice());
    proof {
        assert(s@ =~= old(s)@ + padded(n as nat, width as nat));
    }
}

/// Every character of `decimal(n)` is an ASCII digit.
pub proof fn lemma_decimal_digits(n: nat)
    ensures
        forall|i: int|
            0 <= i < decimal(n).len() ==> '0' <= #[trigger] decimal(n)[i] && decimal(n)[i] <= '9',
        decimal(n).len() >= 1,
    decreases n,
{
    if n >= 10 {
        lemma_decimal_digits(n / 10);
    }
}


/// Two optional strings hold the same characters (or are both absent).
pub open spec fn same_opt(a: Option<String>, b: Option<String>) -> bool {
    match (a, b) {
        (Some(x), Some(y)) => x@ == y@,
        (None, None) => true,
        _ => false,
    }
}

/// Whether two optional strings hold the same characters.
pub fn opt_eq(a: &Option<String>, b: &Option<String>) -> (r: bool)
    ensures
        r == same_opt(*a, *b),
{
    match (a, b) {
        (Some(x), Some(y)) => str_eq(x.as_str(), y.as_str()),
        (None, None) => true,
        _ => false,
    }
}

/// A copy of an optional string.
pub fn opt_copy(a: &Option<String>) -> (r: Option<String>)
    ensures
        same_opt(r, *a),
{
    match a {
        Some(x) => Some(owned(x.as_str())),
        None => None,
    }
}

/// Whether two string lists hold the same strings in the same order.
pub fn strings_eq(a: &Vec<String>, b: &Vec<String>) -> (r: bool)
    ensures
        r == (views(a@) == views(b@)),
{
    if a.len() != b.len() {
        proof {
            assert(views(a@).len() != views(b@).len());
        }
        return false;
    }
    let mut i: usize = 0;
    while i < a.len()
        invariant
            a@.len() == b@.len(),
            i <= a@.len(),
            forall|j: int| 0 <= j < i ==> a@[j]@ == b@[j]@,
        decreases a@.len() - i,
    {
        if !str_eq(a[i].as_str(), b[i].as_str()) {
            proof {
                assert(views(a@)[i as int] != views(b@)[i as int]);
            }
            return false;
        }
        i = i + 1;
    }
    proof {
        assert(views(a@) =~= views(b@));
    }
    true
}

/// A copy of a string list.
pub fn strings_copy(a: &Vec<String>) -> (r: Vec<String>)
    ensures
        views(r@) == views(a@),
{
    let mut r: Vec<String> = Vec::new();
    let mut i: usize = 0;
    while i < a.len()
        invariant
            i <= a@.len(),
            views(r@) == views(a@).take(i as int),
        decreases a@.len() - i,
    {
        push_string(&mut r, owned(a[i].as_str()));
        i = i + 1;
        proof {
            assert(views(r@) =~= views(a@).take(i as int));
        }
    }
    proof {
        assert(views(a@).take(a@.len() as int) =~= views(a@));
    }
    r
}

/// Every character of `s` is an ASCII digit.
pub open spec fn all_digit_chars(s: Seq<char>) -> bool {
    forall|i: int| 0 <= i < s.len() ==> '0' <= #[trigger] s[i] && s[i] <= '9'
}

/// The number a run of ASCII digit characters spells.
pub open spec fn digit_value(s: Seq<char>) -> int
    decreases s.len(),
{
    if s.len() == 0 {
        0
    } else {
        digit_value(s.drop_last()) * 10 + (s.last() as int - 48)
    }
}

/// `10^w` for the widths a timestamp field uses.
pub open spec fn field_limit(w: nat) -> nat {
    if w <= 1 {
        10
    } else if w == 2 {
        100
    } else if w == 3 {
        1000
    } else {
        10000
    }
}

/// The digit character for `d < 10` has code `48 + d`.
proof fn lemma_digit_code(d: nat)
    requires
        d < 10,
    ensures
        digit(d) as int == 48 + d,
        '0' <= digit(d) <= '9',
{
}

/// `decimal(n)` is digits spelling `n`, one character per decimal place.
pub proof fn lemma_decimal_value(n: nat)
    ensures
        all_digit_chars(decimal(n)),
        digit_value(decimal(n)) == n,
        1 <= decimal(n).len(),
        n < 10 ==> decimal(n).len() == 1,
        n < 100 ==> decimal(n).len() <= 2,
        n < 1000 ==> decimal(n).len() <= 3,
        n < 10000 ==> decimal(n).len() <= 4,
    decreases n,
{
    if n < 10 {
        lemma_digit_code(n);
        assert(decimal(n).drop_last() =~= Seq::<char>::empty());
        assert(digit_value(Seq::<char>::empty()) == 0);
        assert(decimal(n).last() == digit(n));
    } else {
        lemma_decimal_value(n / 10);
        lemma_digit_code(n % 10);
        let d = decimal(n);
        assert(d.drop_last() =~= decimal(n / 10));
        assert(n == (n / 10) * 10 + n % 10);
        assert(d.last() == digit(n % 10));
        assert(digit_value(d) == digit_value(d.drop_last()) * 10 + (d.last() as int - 48));
        assert forall|i: int| 0 <= i < d.len() implies '0' <= #[trigger] d[i] && d[i] <= '9' by {
            if i < d.len() - 1 {
                assert(d[i] == decimal(n / 10)[i]);
            }
        }
    }
}

/// Leading zeros add nothing to a digit run's value.
pub proof fn lemma_zeros_value(k: nat, s: Seq<char>)
    ensures
        digit_value(zeros(k) + s) == digit_value(s),
        all_digit_chars(s) ==> all_digit_chars(zeros(k) + s),
    decreases s.len(), k,
{
    if s.len() > 0 {
        lemma_zeros_value(k, s.drop_last());
        assert((zeros(k) + s).drop_last() =~= zeros(k) + s.drop_last());
    } else if k > 0 {
        lemma_zeros_value((k - 1) as nat, s);
        assert((zeros(k) + s).drop_last() =~= zeros((k - 1) as nat) + s);
        assert(zeros(k) + s =~= zeros(k));
    } else {
        assert(zeros(0) + s =~= Seq::<char>::empty());
    }
}

/// A number below `10^w` padded to `w` places is exactly `w` digits spelling it.
pub proof fn lemma_padded_value(n: nat, w: nat)
    requires
        1 <= w <= 4,
        n < field_limit(w),
    ensures
        padded(n, w).len() == w,
        all_digit_chars(padded(n, w)),
        digit_value(padded(n, w)) == n,
{
    lemma_decimal_value(n);
    lemma_zeros_value((w - decimal(n).len()) as nat, decimal(n));
}

/// Key `a` sorts strictly before `b`: the lesser ascending, the greater descending.
pub open spec fn key_before(descending: bool, a: Seq<char>, b: Seq<char>) -> bool {
    if descending {
        lex_lt(b, a)
    } else {
        lex_lt(a, b)
    }
}

/// `order` arranges `keys` in key order (descending or ascending), keeping the input order
/// among equal keys: each position exactly once.
pub open spec fn keyed_order(keys: Seq<Seq<char>>, order: Seq<usize>, descending: bool) -> bool {
    &&& order.len() == keys.len()
    &&& forall|k: int| 0 <= k < order.len() ==> order[k] < keys.len()
    &&& forall|k: int, l: int|
        0 <= k < l < order.len() ==> (key_before(descending, keys[order[k] as int], keys[order[l] as int])
            || (!key_before(descending, keys[order[l] as int], keys[order[k] as int]) && order[k]
            < order[l]))
}

/// `order` arranges `keys` newest first (greatest key first), keeping the input order among
/// equal keys.
pub open spec fn newest_first_keys(keys: Seq<Seq<char>>, order: Seq<usize>) -> bool {
    keyed_order(keys, order, true)
}

/// `key_before` orders strictly and its ties are transitive.
proof fn lemma_key_order(descending: bool, a: Seq<char>, b: Seq<char>, c: Seq<char>)
    ensures
        !(key_before(descending, a, b) && key_before(descending, b, a)),
        key_before(descending, a, b) && key_before(descending, b, c) ==> key_before(descending, a, c),
        !key_before(descending, a, b) && !key_before(descending, b, a) && !key_before(descending, b, c)
            && !key_before(descending, c, b) ==> !key_before(descending, a, c) && !key_before(
            descending,
            c,
            a,
        ),
        key_before(descending, a, b) && !key_before(descending, b, c) && !key_before(descending, c, b)
            ==> key_before(descending, a, c),
        !key_before(descending, a, b) && !key_before(descending, b, a) && key_before(descending, b, c)
            ==> key_before(descending, a, c),
{
    lemma_lex_asymmetric(a, b);
    lemma_lex_total(a, b);
    lemma_lex_total(b, c);
    lemma_lex_total(a, c);
    if lex_lt(c, b) && lex_lt(b, a) {
        lemma_lex_transitive(c, b, a);
    }
    if lex_lt(a, b) && lex_lt(b, c) {
        lemma_lex_transitive(a, b, c);
    }
    lemma_lex_asymmetric(a, c);
    lemma_lex_asymmetric(b, c);
    lemma_lex_irreflexive(a);
}

/// Whether key `a` sorts strictly before `b`.
fn before_key(descending: bool, a: &str, b: &str) -> (r: bool)
    ensures
        r == key_before(descending, a@, b@),
{
    if descending {
        str_lt(b, a)
    } else {
        str_lt(a, b)
    }
}

/// The stable order of `keys`, descending or ascending (a stable sort by key).
pub fn keyed_sort_order(keys: &Vec<String>, descending: bool) -> (order: Vec<usize>)
    ensures
        keyed_order(views(keys@), order@, descending),
{
    let ghost ks = views(keys@);
    let mut order: Vec<usize> = Vec::new();
    let mut i: usize = 0;
    while i < keys.len()
        invariant
            ks == views(keys@),
            i <= keys@.len(),
            order@.len() == i,
            forall|k: int| 0 <= k < order@.len() ==> order@[k] < i,
            forall|k: int, l: int|
                0 <= k < l < order@.len() ==> (key_before(descending, ks[order@[k] as int], ks[order@[l] as int])
                    || (!key_before(descending, ks[order@[l] as int], ks[order@[k] as int]) && order@[k]
                    < order@[l])),
        decreases keys@.len() - i,
    {
        let mut p: usize = 0;
        while p < order.len() && !before_key(descending, keys[i].as_str(), keys[order[p]].as_str())
            invariant
                ks == views(keys@),
                p <= order@.len(),
                i < keys@.len(),
                forall|k: int| 0 <= k < order@.len() ==> order@[k] < i,
                forall|k: int| 0 <= k < p ==> !key_before(descending, ks[i as int], ks[order@[k] as int]),
            decreases order@.len() - p,
        {
            p = p + 1;
        }
        let ghost old_order = order@;
        proof {
            assert forall|k: int| p <= k < old_order.len() implies key_before(descending, 
                ks[i as int],
                ks[old_order[k] as int],
            ) by {
                if k > p {
                    let a = ks[i as int];
                    let b = ks[old_order[p as int] as int];
                    let c = ks[old_order[k] as int];
                    lemma_key_order(descending, a, b, c);
                    lemma_key_order(descending, b, c, a);
                    lemma_key_order(descending, c, a, b);
                }
            }
        }
        order.insert(p, i);
        proof {
            assert forall|k: int, l: int| 0 <= k < l < order@.len() implies (key_before(descending, 
                ks[order@[k] as int],
                ks[order@[l] as int],
            ) || (!key_before(descending, ks[order@[l] as int], ks[order@[k] as int]) && order@[k]
                < order@[l])) by {
                if k < p && l == p {
                    let a = ks[order@[k] as int];
                    let b = ks[i as int];
                    lemma_key_order(descending, a, b, a);
                } else if k < p && l > p {
                    assert(order@[l] == old_order[l - 1]);
                } else if k == p && l > p {
                    assert(order@[l] == old_order[l - 1]);
                } else if k > p {
                    assert(order@[k] == old_order[k - 1]);
                    assert(order@[l] == old_order[l - 1]);
                }
            }
        }
        i = i + 1;
    }
    order
}

/// The stable newest-first order of `keys` (a stable sort by descending key).
pub fn newest_first_order(keys: &Vec<String>) -> (order: Vec<usize>)
    ensures
        newest_first_keys(views(keys@), order@),
{
    keyed_sort_order(keys, true)
}

/// Where the first line of `t` ends: its first `\n`, or the end.
pub open spec fn line_end(t: Seq<char>, i: nat) -> nat
    decreases t.len() - i,
{
    if i >= t.len() {
        t.len()
    } else if t[i as int] == '\n' {
        i
    } else {
        line_end(t, i + 1)
    }
}

/// `line_end` lies at or after `i`, and no `\n` comes between.
pub proof fn lemma_line_end(t: Seq<char>, i: nat)
    requires
        i <= t.len(),
    ensures
        i <= line_end(t, i) <= t.len(),
        line_end(t, i) < t.len() ==> t[line_end(t, i) as int] == '\n',
        forall|j: int| i <= j < line_end(t, i) ==> t[j] != '\n',
    decreases t.len() - i,
{
    if i < t.len() && t[i as int] != '\n' {
        lemma_line_end(t, i + 1);
    }
}

} // verus!

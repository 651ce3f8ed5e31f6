//! Which link targets may be handed to the system's URL opener: web addresses only, and
//! never one holding a character that would paint differently from the bytes that open.

use vstd::prelude::*;

use crate::text::{ascii_lower, eq_ignore_case_spec, to_ascii_lower, to_chars, trim_spec, trim_str};

verus! {

/// A character a link may never carry: a C0 or C1 control code, or a bidirectional embedding,
/// override or isolate (U+202A–U+202E, U+2066–U+2069), which would let the painted link differ
/// from the bytes that open.
pub open spec fn hostile(c: char) -> bool {
    ||| (c as u32) < 0x20
    ||| (0x7f <= (c as u32) && (c as u32) < 0xa0)
    ||| (0x202a <= (c as u32) && (c as u32) <= 0x202e)
    ||| (0x2066 <= (c as u32) && (c as u32) <= 0x2069)
}

/// Whether `c` is a hostile character.
pub fn hostile_char(c: char) -> (b: bool)
    ensures
        b == hostile(c),
{
    let n = c as u32;
    n < 0x20 || (0x7f <= n && n < 0xa0) || (0x202a <= n && n <= 0x202e) || (0x2066 <= n && n
        <= 0x2069)
}

/// `http://` as characters.
pub open spec fn http_scheme() -> Seq<char> {
    seq!['h', 't', 't', 'p', ':', '/', '/']
}

/// `https://` as characters.
pub open spec fn https_scheme() -> Seq<char> {
    seq!['h', 't', 't', 'p', 's', ':', '/', '/']
}

/// A destination that starts, in any ASCII case, with `http://` or `https://` and has
/// something after the scheme.
pub open spec fn schemed(s: Seq<char>) -> bool {
    ||| (s.len() > 7 && eq_ignore_case_spec(s.take(7), http_scheme()))
    ||| (s.len() > 8 && eq_ignore_case_spec(s.take(8), https_scheme()))
}

/// A destination that may open: trimmed, schemed, and free of hostile characters.
pub open spec fn openable(s: Seq<char>) -> bool {
    let t = trim_spec(s);
    schemed(t) && forall|i: int| 0 <= i < t.len() ==> !hostile(#[trigger] t[i])
}

/// Whether `cs` starts, ignoring ASCII case, with `p` and has more after it.
fn prefixed_and_more(cs: &Vec<char>, p: &Vec<char>) -> (b: bool)
    ensures
        b == (cs@.len() > p@.len() && eq_ignore_case_spec(cs@.take(p@.len() as int), p@)),
{
    if cs.len() <= p.len() {
        return false;
    }
    let mut i: usize = 0;
    while i < p.len()
        invariant
            p@.len() < cs@.len(),
            i <= p@.len(),
            forall|j: int| 0 <= j < i ==> ascii_lower(cs@[j]) == ascii_lower(p@[j]),
        decreases p@.len() - i,
    {
        if to_ascii_lower(cs[i]) != to_ascii_lower(p[i]) {
            return false;
        }
        i = i + 1;
    }
    true
}

/// Gate a link destination before it reaches the opener: the trimmed destination when it is
/// `http://` or `https://` (any case) with something after the scheme and holds no hostile
/// character, else the refusal `unsupported link scheme`.
pub fn openable_url<'a>(url: &'a str) -> (r: Result<&'a str, &'static str>)
    ensures
        match r {
            Ok(t) => openable(url@) && t@ == trim_spec(url@),
            Err(e) => !openable(url@) && e@ == "unsupported link scheme"@,
        },
{
    let trimmed = trim_str(url);
    let cs = to_chars(trimmed);
    let mut hostile_seen = false;
    let mut i: usize = 0;
    while i < cs.len()
        invariant
            i <= cs@.len(),
            hostile_seen == exists|j: int| 0 <= j < i && hostile(#[trigger] cs@[j]),
        decreases cs@.len() - i,
    {
        if hostile_char(cs[i]) {
            hostile_seen = true;
        }
        i = i + 1;
    }
    let http = to_chars("http://");
    let https = to_chars("https://");
    proof {
        reveal_strlit("http://");
        reveal_strlit("https://");
        assert(http@ =~= http_scheme());
        assert(https@ =~= https_scheme());
    }
    let schemed_ok = prefixed_and_more(&cs, &http) || prefixed_and_more(&cs, &https);
    if !hostile_seen && schemed_ok {
        Ok(trimmed)
    } else {
        Err("unsupported link scheme")
    }
}

} // verus!

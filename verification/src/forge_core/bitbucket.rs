//! The Bitbucket Data Center backend's pure parts: the token decision, how a `curl` failure
//! classifies, the REST base path, and the normalisation of Bitbucket's lifecycle, merge,
//! build-status, and timestamp fields. Running `curl` and `git credential` is the
//! application's work.

use vstd::prelude::*;

use super::proc::RunFail;
use super::{ForgeError, PrSnapshot};
use crate::comments::{civil_from_days, days_from_civil, days_in_month};
use crate::editor::{lowercase, to_lowercase};
use crate::forge::gitlab::percent_spec;
use crate::forge::{
    all_digits, anchor_of, digits_value, finding_anchor, is_digit_byte,
    parse_iso_spec, Check, CheckStatus, Comment, CommentKind, Merge, PrState, Sync,
};
use crate::git::Forge;
use crate::json::{
    array_spec, at_spec, bool_field, bool_spec, flag_field, flag_of, get_spec, i64_spec, idx_spec,
    item, lemma_item_smaller, lemma_member_smaller, member, str_field, str_spec, text_field,
    text_of, u64_spec, Json,
};
use crate::text::{
    has_prefix, lemma_line_end, line_end, to_chars, all_digit_chars, contains_seq, contains_str, decimal, digit_value, ends_with,
    eq_ignore_ascii_case, eq_ignore_case_spec, has_suffix, lemma_padded_value, newest_first_keys,
    newest_first_order, owned, padded, push_char, push_padded, push_str, push_string, push_u64,
    str_eq, trim, trim_spec, views,
};
use vstd::utf8::{encode_utf8, is_ascii_chars, is_ascii_chars_encode_utf8};
use vstd::string::StringSliceAdditionalSpecFns;

verus! {

/// Bitbucket's PR state: `MERGED`, `DECLINED` (closed), anything else live.
pub open spec fn state_spec(s: Seq<char>) -> PrState {
    if s == "MERGED"@ {
        PrState::Merged
    } else if s == "DECLINED"@ {
        PrState::Closed
    } else {
        PrState::Open
    }
}

/// OPEN -> Open, MERGED -> Merged, DECLINED -> Closed; an unrecognised lifecycle reads as live.
pub fn parse_state(s: &str) -> (st: PrState)
    ensures
        st == state_spec(s@),
{
    if str_eq(s, "MERGED") {
        PrState::Merged
    } else if str_eq(s, "DECLINED") {
        PrState::Closed
    } else {
        PrState::Open
    }
}

/// The `/merge` endpoint folded: a conflict always wins; a veto without `canMerge` blocks;
/// everything else (a still-computing response too) is clean.
pub open spec fn merge_spec(v: Json) -> Merge {
    let conflicted = match bool_spec(at_spec(v, "conflicted"@)) {
        Some(b) => b,
        None => false,
    };
    let can_merge = match bool_spec(at_spec(v, "canMerge"@)) {
        Some(b) => b,
        None => true,
    };
    let vetoes_empty = match array_spec(at_spec(v, "vetoes"@)) {
        Some(items) => items.len() == 0,
        None => true,
    };
    if conflicted {
        Merge::Conflicting
    } else if !can_merge && !vetoes_empty {
        Merge::Blocked
    } else {
        Merge::Clean
    }
}

/// Fold the `/merge` endpoint's `{canMerge, conflicted, vetoes[]}` into a [`Merge`].
pub fn derive_merge(v: &Json) -> (m: Merge)
    ensures
        m == merge_spec(*v),
{
    let conflicted = match bool_field(v, "conflicted") {
        Some(b) => b,
        None => false,
    };
    let can_merge = match bool_field(v, "canMerge") {
        Some(b) => b,
        None => true,
    };
    let vetoes_empty = match v.get("vetoes") {
        Some(x) => match x.as_array() {
            Some(items) => items.len() == 0,
            None => true,
        },
        None => true,
    };
    if conflicted {
        Merge::Conflicting
    } else if !can_merge && !vetoes_empty {
        Merge::Blocked
    } else {
        Merge::Clean
    }
}

/// A build-status `state`: `UNKNOWN` and anything unrecognised read as still pending.
pub open spec fn check_status_spec(s: Seq<char>) -> CheckStatus {
    if s == "SUCCESSFUL"@ {
        CheckStatus::Success
    } else if s == "FAILED"@ {
        CheckStatus::Failure
    } else if s == "INPROGRESS"@ {
        CheckStatus::Running
    } else if s == "CANCELLED"@ {
        CheckStatus::Skipped
    } else {
        CheckStatus::Pending
    }
}

/// Normalise a build-status `state` to a [`CheckStatus`].
pub fn check_status(s: &str) -> (st: CheckStatus)
    ensures
        st == check_status_spec(s@),
{
    if str_eq(s, "SUCCESSFUL") {
        CheckStatus::Success
    } else if str_eq(s, "FAILED") {
        CheckStatus::Failure
    } else if str_eq(s, "INPROGRESS") {
        CheckStatus::Running
    } else if str_eq(s, "CANCELLED") {
        CheckStatus::Skipped
    } else {
        CheckStatus::Pending
    }
}

/// A listing response's `values` entries; none when absent or not an array.
pub open spec fn values_of(v: Json) -> Seq<Json> {
    match array_spec(at_spec(v, "values"@)) {
        Some(a) => a,
        None => Seq::empty(),
    }
}

/// The listing's `values` array, or an empty one.
fn values_vec(v: &Json) -> (out: Option<&Vec<Json>>)
    ensures
        match out {
            Some(a) => a@ == values_of(*v),
            None => values_of(*v) == Seq::<Json>::empty(),
        },
{
    match member(v, "values").as_array() {
        Some(a) => Some(a),
        None => None,
    }
}

/// An open PR listing entry as `(id, head commit)`: skipped without an unsigned `id`; the head
/// commit empty when absent.
pub open spec fn open_entry(p: Json) -> Option<(u64, Seq<char>)> {
    match u64_spec(at_spec(p, "id"@)) {
        Some(id) => Some((id, text_of(at_spec(at_spec(p, "fromRef"@), "latestCommit"@)))),
        None => None,
    }
}

/// The entries of the open PR listing `vals`, in order.
pub open spec fn open_entries_spec(vals: Seq<Json>) -> Seq<(u64, Seq<char>)>
    decreases vals.len(),
{
    if vals.len() == 0 {
        Seq::empty()
    } else {
        let rest = open_entries_spec(vals.drop_last());
        match open_entry(vals.last()) {
            Some(e) => rest.push(e),
            None => rest,
        }
    }
}

/// A list of `(number, text)` entries as plain values.
pub open spec fn entries_view(es: Seq<(u64, String)>) -> Seq<(u64, Seq<char>)> {
    es.map_values(|e: (u64, String)| (e.0, e.1@))
}

/// The open PRs one listing response names, as `(id, head commit)`, in order.
pub fn open_entries(v: &Json) -> (out: Vec<(u64, String)>)
    ensures
        entries_view(out@) == open_entries_spec(values_of(*v)),
{
    let mut out: Vec<(u64, String)> = Vec::new();
    let vals = match values_vec(v) {
        Some(a) => a,
        None => {
            proof {
                assert(entries_view(out@) =~= Seq::<(u64, Seq<char>)>::empty());
            }
            return out;
        },
    };
    let mut i: usize = 0;
    while i < vals.len()
        invariant
            i <= vals@.len(),
            entries_view(out@) == open_entries_spec(vals@.take(i as int)),
        decreases vals@.len() - i,
    {
        proof {
            assert(vals@.take(i + 1).drop_last() =~= vals@.take(i as int));
            assert(vals@.take(i + 1).last() == vals@[i as int]);
        }
        let p = &vals[i];
        match member(p, "id").as_u64() {
            Some(id) => {
                let commit = text_field(member(p, "fromRef"), "latestCommit");
                let ghost before = out@;
                out.push((id, owned(commit)));
                proof {
                    assert(entries_view(out@) =~= entries_view(before).push((id, commit@)));
                }
            },
            None => {},
        }
        i = i + 1;
    }
    proof {
        assert(vals@.take(vals@.len() as int) =~= vals@);
    }
    out
}

/// A historical listing entry as `(id, created)`: open PRs and entries without an unsigned
/// `id` or an integer `createdDate` are skipped.
pub open spec fn past_entry(p: Json) -> Option<(u64, i64)> {
    if str_spec(at_spec(p, "state"@)) == Some("OPEN"@) {
        None
    } else {
        match (u64_spec(at_spec(p, "id"@)), i64_spec(at_spec(p, "createdDate"@))) {
            (Some(id), Some(c)) => Some((id, c)),
            _ => None,
        }
    }
}

/// The newest-created entry of the historical listing `vals`; of equally new ones, the last.
pub open spec fn newest_past(vals: Seq<Json>) -> Option<(u64, i64)>
    decreases vals.len(),
{
    if vals.len() == 0 {
        None
    } else {
        let best = newest_past(vals.drop_last());
        match past_entry(vals.last()) {
            Some(c) => match best {
                Some(b) => if c.1 >= b.1 {
                    Some(c)
                } else {
                    best
                },
                None => Some(c),
            },
            None => best,
        }
    }
}

/// The newest-created non-open PR one historical listing response names, as `(id, created)`
/// with its creation time rendered as ISO-8601 (none when it names none).
pub fn past_entries(v: &Json) -> (out: Vec<(u64, String)>)
    ensures
        match newest_past(values_of(*v)) {
            Some((id, c)) => out@.len() == 1 && out@[0].0 == id && is_ms_iso(out@[0].1@, c as int),
            None => out@.len() == 0,
        },
{
    let mut best: Option<(u64, i64)> = None;
    let vals = match values_vec(v) {
        Some(a) => a,
        None => {
            return Vec::new();
        },
    };
    let mut i: usize = 0;
    while i < vals.len()
        invariant
            i <= vals@.len(),
            best == newest_past(vals@.take(i as int)),
        decreases vals@.len() - i,
    {
        proof {
            assert(vals@.take(i + 1).drop_last() =~= vals@.take(i as int));
            assert(vals@.take(i + 1).last() == vals@[i as int]);
        }
        let p = &vals[i];
        let open = match str_field(p, "state") {
            Some(st) => str_eq(st, "OPEN"),
            None => false,
        };
        if !open {
            match (member(p, "id").as_u64(), member(p, "createdDate").as_i64()) {
                (Some(id), Some(c)) => {
                    best = match best {
                        Some(b) => if c >= b.1 {
                            Some((id, c))
                        } else {
                            Some(b)
                        },
                        None => Some((id, c)),
                    };
                },
                _ => {},
            }
        }
        i = i + 1;
    }
    proof {
        assert(vals@.take(vals@.len() as int) =~= vals@);
    }
    let mut out: Vec<(u64, String)> = Vec::new();
    match best {
        Some((id, c)) => out.push((id, epoch_ms_to_iso(c))),
        None => {},
    }
    out
}

/// A build-status entry as a check: named by `name`, else `key` (skipped with neither), with
/// its `state` normalised.
pub open spec fn status_check(p: Json) -> Option<(Seq<char>, CheckStatus)> {
    let name = match str_spec(at_spec(p, "name"@)) {
        Some(n) => Some(n),
        None => str_spec(at_spec(p, "key"@)),
    };
    match name {
        Some(n) => Some((n, check_status_spec(text_of(at_spec(p, "state"@))))),
        None => None,
    }
}

/// The checks of the build-status listing `vals`, in order.
pub open spec fn status_checks_spec(vals: Seq<Json>) -> Seq<(Seq<char>, CheckStatus)>
    decreases vals.len(),
{
    if vals.len() == 0 {
        Seq::empty()
    } else {
        let rest = status_checks_spec(vals.drop_last());
        match status_check(vals.last()) {
            Some(c) => rest.push(c),
            None => rest,
        }
    }
}

/// Checks as plain values.
pub open spec fn checks_view(cs: Seq<Check>) -> Seq<(Seq<char>, CheckStatus)> {
    cs.map_values(|c: Check| (c.name@, c.status))
}

/// The head commit's build statuses, normalised to checks, in order.
pub fn status_checks(v: &Json) -> (out: Vec<Check>)
    ensures
        checks_view(out@) == status_checks_spec(values_of(*v)),
{
    let mut out: Vec<Check> = Vec::new();
    let vals = match values_vec(v) {
        Some(a) => a,
        None => {
            proof {
                assert(checks_view(out@) =~= Seq::<(Seq<char>, CheckStatus)>::empty());
            }
            return out;
        },
    };
    let mut i: usize = 0;
    while i < vals.len()
        invariant
            i <= vals@.len(),
            checks_view(out@) == status_checks_spec(vals@.take(i as int)),
        decreases vals@.len() - i,
    {
        proof {
            assert(vals@.take(i + 1).drop_last() =~= vals@.take(i as int));
            assert(vals@.take(i + 1).last() == vals@[i as int]);
        }
        let p = &vals[i];
        let name = match str_field(p, "name") {
            Some(n) => Some(n),
            None => str_field(p, "key"),
        };
        match name {
            Some(n) => {
                let status = check_status(text_field(p, "state"));
                let ghost before = out@;
                out.push(Check { name: owned(n), status });
                proof {
                    assert(checks_view(out@) =~= checks_view(before).push((n@, status)));
                }
            },
            None => {},
        }
        i = i + 1;
    }
    proof {
        assert(vals@.take(vals@.len() as int) =~= vals@);
    }
    out
}

/// The open PR listing for `branch` under `base`.
pub open spec fn open_listing_spec(base: Seq<char>, branch: &str) -> Seq<char> {
    base + "/pull-requests?state=OPEN&direction=OUTGOING&at=refs/heads/"@ + percent_spec(
        branch.spec_bytes(),
    ) + "&limit=100"@
}

/// The open PR listing for `branch` under `base`.
pub fn open_listing_url(base: &str, branch: &str) -> (url: String)
    ensures
        url@ == open_listing_spec(base@, branch),
{
    let mut u = owned(base);
    push_str(&mut u, "/pull-requests?state=OPEN&direction=OUTGOING&at=refs/heads/");
    let b = super::enc(branch);
    push_str(&mut u, b.as_str());
    push_str(&mut u, "&limit=100");
    u
}

/// The listing of every PR for `branch` under `base`, the newest twenty.
pub open spec fn past_listing_spec(base: Seq<char>, branch: &str) -> Seq<char> {
    base + "/pull-requests?state=ALL&direction=OUTGOING&at=refs/heads/"@ + percent_spec(
        branch.spec_bytes(),
    ) + "&limit=20"@
}

/// The listing of every PR for `branch` under `base`.
pub fn past_listing_url(base: &str, branch: &str) -> (url: String)
    ensures
        url@ == past_listing_spec(base@, branch),
{
    let mut u = owned(base);
    push_str(&mut u, "/pull-requests?state=ALL&direction=OUTGOING&at=refs/heads/");
    let b = super::enc(branch);
    push_str(&mut u, b.as_str());
    push_str(&mut u, "&limit=20");
    u
}

/// Where PR `id` lies under `base`, followed by `tail` (the detail itself, its `/merge`
/// state, or its `/activities?limit=100` feed).
pub open spec fn pr_url_spec(base: Seq<char>, id: u64, tail: Seq<char>) -> Seq<char> {
    base + "/pull-requests/"@ + decimal(id as nat) + tail
}

/// Where PR `id` lies under `base`, followed by `tail`.
pub fn pr_url(base: &str, id: u64, tail: &str) -> (url: String)
    ensures
        url@ == pr_url_spec(base@, id, tail@),
{
    let mut u = owned(base);
    push_str(&mut u, "/pull-requests/");
    push_u64(&mut u, id);
    push_str(&mut u, tail);
    u
}

/// The build statuses of commit `sha` on `host`: keyed by commit alone, outside any
/// project.
pub open spec fn checks_url_spec(host: Seq<char>, sha: Seq<char>) -> Seq<char> {
    "https://"@ + host + "/rest/build-status/latest/commits/"@ + sha + "?limit=100"@
}

/// The build statuses of commit `sha` on `host`.
pub fn checks_url(host: &str, sha: &str) -> (url: String)
    ensures
        url@ == checks_url_spec(host@, sha@),
{
    let mut u = owned("https://");
    push_str(&mut u, host);
    push_str(&mut u, "/rest/build-status/latest/commits/");
    push_str(&mut u, sha);
    push_str(&mut u, "?limit=100");
    u
}

/// The `curl` configuration that carries the bearer token on standard input, out of sight
/// of the process list.
pub fn curl_config(token: &str) -> (c: String)
    ensures
        c@ == "header = \"Authorization: Bearer "@ + token@ + "\"\n"@,
{
    let mut c = owned("header = \"Authorization: Bearer ");
    push_str(&mut c, token);
    push_str(&mut c, "\"\n");
    c
}

/// What `git credential fill` is asked for `host`.
pub fn credential_query(host: &str) -> (q: String)
    ensures
        q@ == "protocol=https\nhost="@ + host@ + "\n\n"@,
{
    let mut q = owned("protocol=https\nhost=");
    push_str(&mut q, host);
    push_str(&mut q, "\n\n");
    q
}

/// The `i`-th line of `t` onwards holds no `password=` line; else the value of the first: each
/// line as `str::lines` gives it (split at `\n`, a `\r` before it dropped).
pub open spec fn password_from(t: Seq<char>) -> Option<Seq<char>>
    decreases t.len(),
{
    if t.len() == 0 {
        None
    } else {
        let k = line_end(t, 0);
        let raw = t.take(k as int);
        let line = if k < t.len() && raw.len() > 0 && raw.last() == '\r' {
            raw.drop_last()
        } else {
            raw
        };
        if has_prefix(line, "password="@) {
            Some(line.skip(9))
        } else if k < t.len() {
            proof {
                lemma_line_end(t, 0);
            }
            password_from(t.skip((k + 1) as int))
        } else {
            None
        }
    }
}

/// The password `git credential fill` printed: the value of its first `password=` line.
pub fn credential_password_of(out: &str) -> (p: Option<String>)
    ensures
        opt_text(p) == password_from(out@),
{
    let cs = to_chars(out);
    let ghost full = cs@;
    let mut start: usize = 0;
    proof {
        reveal_strlit("password=");
        assert(full.skip(0) =~= full);
    }
    while start < cs.len()
        invariant
            cs@ == full,
            full == out@,
            start <= full.len(),
            password_from(full) == password_from(full.skip(start as int)),
            "password="@.len() == 9,
        decreases full.len() - start,
    {
        let ghost t = full.skip(start as int);
        let mut k = start;
        while k < cs.len() && cs[k] != '\n'
            invariant
                start <= k <= full.len(),
                cs@ == full,
                t == full.skip(start as int),
                line_end(t, (k - start) as nat) == line_end(t, 0),
            decreases full.len() - k,
        {
            k = k + 1;
        }
        proof {
            lemma_line_end(t, 0);
            assert(line_end(t, (k - start) as nat) == (k - start)) by {
                if k < full.len() {
                    assert(t[(k - start) as int] == full[k as int]);
                }
            }
        }
        let stop: usize = if k < cs.len() && k > start && cs[k - 1] == '\r' { k - 1 } else { k };
        let ghost raw = t.take((k - start) as int);
        let ghost line = full.subrange(start as int, stop as int);
        proof {
            if stop < k {
                assert(line =~= raw.drop_last());
            } else {
                assert(line =~= raw);
            }
        }
        if stop - start >= 9 && cs[start] == 'p' && cs[start + 1] == 'a' && cs[start + 2] == 's'
            && cs[start + 3] == 's' && cs[start + 4] == 'w' && cs[start + 5] == 'o'
            && cs[start + 6] == 'r' && cs[start + 7] == 'd' && cs[start + 8] == '=' {
            proof {
                reveal_strlit("password=");
                assert(line.take(9) =~= "password="@);
                assert(line.skip(9) =~= full.subrange(start + 9, stop as int));
            }
            let mut v = String::new();
            let mut j = start + 9;
            while j < stop
                invariant
                    start + 9 <= j <= stop <= full.len(),
                    cs@ == full,
                    v@ == full.subrange(start + 9, j as int),
                decreases stop - j,
            {
                push_char(&mut v, cs[j]);
                j = j + 1;
                proof {
                    assert(v@ =~= full.subrange(start + 9, j as int));
                }
            }
            return Some(v);
        }
        proof {
            if line.len() >= 9 {
                assert(line.take(9) != "password="@) by {
                    reveal_strlit("password=");
                    if line.take(9) == "password="@ {
                        let pw = seq!['p', 'a', 's', 's', 'w', 'o', 'r', 'd', '='];
                        assert("password="@ =~= pw);
                        assert(line.take(9) =~= pw);
                        assert(line.take(9)[0] == line[0] && line.take(9)[1] == line[1]
                            && line.take(9)[2] == line[2] && line.take(9)[3] == line[3]
                            && line.take(9)[4] == line[4] && line.take(9)[5] == line[5]
                            && line.take(9)[6] == line[6] && line.take(9)[7] == line[7]
                            && line.take(9)[8] == line[8]);
                        assert(line[0] == cs@[start as int] && line[8] == cs@[start + 8]);
                        assert(line[1] == cs@[start + 1] && line[2] == cs@[start + 2]
                            && line[3] == cs@[start + 3] && line[4] == cs@[start + 4]
                            && line[5] == cs@[start + 5] && line[6] == cs@[start + 6]
                            && line[7] == cs@[start + 7]);
                    }
                }
            }
        }
        if k >= cs.len() {
            return None;
        }
        proof {
            assert(t.skip((k - start) + 1) =~= full.skip(k + 1));
        }
        start = k + 1;
    }
    proof {
        assert(full.skip(start as int).len() == 0);
    }
    None
}

/// An optional string's text.
pub open spec fn opt_text(o: Option<String>) -> Option<Seq<char>> {
    match o {
        Some(s) => Some(s@),
        None => None,
    }
}

/// Whether a listing page was not the last (`isLastPage: false`).
pub fn is_truncated(v: &Json) -> (b: bool)
    ensures
        b == (bool_spec(at_spec(*v, "isLastPage"@)) == Some(false)),
{
    match bool_field(v, "isLastPage") {
        Some(last) => !last,
        None => false,
    }
}

/// Whether an optional string is present and non-empty.
pub open spec fn filled(o: Option<String>) -> bool {
    o is Some && o->0@.len() > 0
}

/// The auth decision: a non-empty env var wins, then a non-empty credential-helper password,
/// else no token. The helper is only invoked when the env var is absent or empty.
pub fn token_from<F: FnOnce() -> Option<String>>(
    env: Option<String>,
    credential_password: F,
) -> (r: Result<String, ForgeError>)
    requires
        !filled(env) ==> call_requires(credential_password, ()),
    ensures
        filled(env) ==> r == Ok::<String, ForgeError>(env->0),
        !filled(env) ==> exists|p: Option<String>|
            call_ensures(credential_password, (), p) && if filled(p) {
                r == Ok::<String, ForgeError>(p->0)
            } else {
                r matches Err(ForgeError::NoToken(h)) && h@.len() == 0
            },
{
    if let Some(t) = env {
        if !t.as_str().is_empty() {
            return Ok(t);
        }
    }
    let p = credential_password();
    let ghost pv = p;
    let r = match p {
        Some(pw) => if !pw.as_str().is_empty() {
            Ok(pw)
        } else {
            Err(ForgeError::NoToken(String::new()))
        },
        None => Err(ForgeError::NoToken(String::new())),
    };
    proof {
        assert(call_ensures(credential_password, (), pv) && if filled(pv) {
            r == Ok::<String, ForgeError>(pv->0)
        } else {
            r matches Err(ForgeError::NoToken(h)) && h@.len() == 0
        });
    }
    r
}

/// How a `curl` failure classifies: a missing binary, a cancellation or I/O failure, and a
/// failed run whose stderr names HTTP 401/403 (unauthenticated for the host) or anything else.
pub open spec fn classify_spec(f: RunFail, host: Seq<char>, out: ForgeError) -> bool {
    match f {
        RunFail::NotFound => out matches ForgeError::NoCli(t) && t@ == "curl"@,
        RunFail::Cancelled => out matches ForgeError::Other(m) && m@ == "request cancelled"@,
        RunFail::Io(message) => out == ForgeError::Other(message),
        RunFail::Failed { stderr } => {
            let s = lowercase(stderr@);
            if contains_seq(s, "401"@) || contains_seq(s, "403"@) {
                out matches ForgeError::NotAuthed { forge, host: h } && forge == Forge::Bitbucket
                    && h@ == host
            } else {
                out matches ForgeError::Other(m) && m@ == trim_spec(stderr@)
            }
        },
    }
}

/// Classify a failed `curl` run for `host`.
pub fn classify(f: RunFail, host: &str) -> (out: ForgeError)
    ensures
        classify_spec(f, host@, out),
{
    match f {
        RunFail::NotFound => ForgeError::NoCli("curl"),
        RunFail::Cancelled => ForgeError::Other(owned("request cancelled")),
        RunFail::Io(message) => ForgeError::Other(message),
        RunFail::Failed { stderr } => {
            let lower = to_lowercase(stderr.as_str());
            if contains_str(lower.as_str(), "401") || contains_str(lower.as_str(), "403") {
                ForgeError::NotAuthed { forge: Forge::Bitbucket, host: owned(host) }
            } else {
                ForgeError::Other(trim(stderr.as_str()))
            }
        },
    }
}

/// The project/repo base every REST call shares, with the project key and repository slug
/// percent-encoded.
pub open spec fn base_spec(host: Seq<char>, owner: &str, name: &str) -> Seq<char> {
    "https://"@ + host + "/rest/api/latest/projects/"@ + percent_spec(owner.spec_bytes())
        + "/repos/"@ + percent_spec(name.spec_bytes())
}

/// `https://{host}/rest/api/latest/projects/{owner}/repos/{name}`.
pub fn base(host: &str, owner: &str, name: &str) -> (out: String)
    ensures
        out@ == base_spec(host@, owner, name),
{
    let mut s = owned("https://");
    push_str(&mut s, host);
    push_str(&mut s, "/rest/api/latest/projects/");
    let o = super::enc(owner);
    push_str(&mut s, o.as_str());
    push_str(&mut s, "/repos/");
    let n = super::enc(name);
    push_str(&mut s, n.as_str());
    s
}

/// A year as `{y:04}` renders it: zero-padded to four characters, the sign counting as one.
pub open spec fn year_text(y: int) -> Seq<char> {
    if y >= 0 {
        padded(y as nat, 4)
    } else {
        seq!['-'] + padded((-y) as nat, 3)
    }
}

/// `floor(a / b)` for a positive `b`.
pub open spec fn floor_div(a: int, b: int) -> int {
    a / b
}

/// The rendering `YYYY-MM-DDTHH:MM:SSZ` of a civil date and a second of its day.
pub open spec fn iso_text(y: int, m: nat, d: nat, tod: int) -> Seq<char> {
    year_text(y) + seq!['-'] + padded(m, 2) + seq!['-'] + padded(d, 2) + seq!['T'] + padded(
        (tod / 3600) as nat,
        2,
    ) + seq![':'] + padded((tod % 3600 / 60) as nat, 2) + seq![':'] + padded((tod % 60) as nat, 2)
        + seq!['Z']
}

/// Whether `out` renders the Unix millisecond `ms`, whose civil year is `y`: the civil date of
/// its day and the clock time of its second, both floored.
pub open spec fn ms_iso_in_year(out: Seq<char>, ms: int, y: int) -> bool {
    let secs = ms / 1000;
    let days = secs / 86_400;
    exists|m: nat, d: nat|
        #![trigger days_from_civil(y, m as int, d as int)]
        days_from_civil(y, m as int, d as int) == days && 1 <= m <= 12 && 1 <= d
            <= days_in_month(y, m as int) && out == iso_text(y, m, d, secs % 86_400)
}

/// Whether `out` renders the Unix millisecond `ms` as `YYYY-MM-DDTHH:MM:SSZ`.
pub open spec fn is_ms_iso(out: Seq<char>, ms: int) -> bool {
    exists|y: int| ms_iso_in_year(out, ms, y)
}

/// `floor(ms / 1000)`.
fn seconds_of(ms: i64) -> (q: i64)
    ensures
        q == ms as int / 1000,
{
    let q = ms / 1000;
    if ms % 1000 < 0 {
        q - 1
    } else {
        q
    }
}

/// `floor(secs / 86400)`.
fn days_of(secs: i64) -> (q: i64)
    ensures
        q == secs as int / 86_400,
{
    let q = secs / 86400;
    if secs % 86400 < 0 {
        q - 1
    } else {
        q
    }
}

/// `createdDate` epoch milliseconds as ISO-8601 `YYYY-MM-DDTHH:MM:SSZ` (Howard Hinnant's
/// `civil_from_days`), so sorting and `relative_age` work unchanged.
pub fn epoch_ms_to_iso(ms: i64) -> (out: String)
    ensures
        is_ms_iso(out@, ms as int),
{
    let secs = seconds_of(ms);
    let days = days_of(secs);
    let tod = secs - days * 86400;
    assert(tod == secs as int % 86_400);
    let (h, mi, se) = (tod / 3600, (tod % 3600) / 60, tod % 60);
    let (y, m, d) = civil_from_days(days);
    let mut out = String::new();
    if y >= 0 {
        push_padded(&mut out, y as u64, 4);
    } else {
        push_char(&mut out, '-');
        push_padded(&mut out, (-y) as u64, 3);
    }
    push_char(&mut out, '-');
    push_padded(&mut out, m as u64, 2);
    push_char(&mut out, '-');
    push_padded(&mut out, d as u64, 2);
    push_char(&mut out, 'T');
    push_padded(&mut out, h as u64, 2);
    push_char(&mut out, ':');
    push_padded(&mut out, mi as u64, 2);
    push_char(&mut out, ':');
    push_padded(&mut out, se as u64, 2);
    push_char(&mut out, 'Z');
    proof {
        assert(out@ =~= year_text(y as int) + seq!['-'] + padded(m as nat, 2) + seq!['-']
            + padded(d as nat, 2) + seq!['T'] + padded((tod / 3600) as nat, 2) + seq![':']
            + padded((tod % 3600 / 60) as nat, 2) + seq![':'] + padded((tod % 60) as nat, 2)
            + seq!['Z']);
        assert(days_from_civil(y as int, m as int, d as int) == days);
        assert(ms_iso_in_year(out@, ms as int, y as int));
    }
    out
}


/// The nested replies directly under a comment: its `comments` array, or none.
pub open spec fn replies_of(comment: Json) -> Seq<Json> {
    match get_spec(comment, "comments"@) {
        Some(Json::Array(items)) => items@,
        _ => Seq::empty(),
    }
}

/// The thread size below `comment` counting only its first `n` direct replies: each reply
/// and, recursively, everything below it.
pub open spec fn replies_upto(comment: Json, n: nat) -> nat
    decreases comment, n,
{
    let kids = replies_of(comment);
    if n == 0 || n > kids.len() {
        0
    } else {
        proof {
            lemma_reply_smaller(comment, n - 1);
        }
        replies_upto(comment, (n - 1) as nat) + 1 + replies_upto(
            kids[n - 1],
            replies_of(kids[n - 1]).len(),
        )
    }
}

/// The whole thread size below `comment`.
pub open spec fn replies_spec(comment: Json) -> nat {
    replies_upto(comment, replies_of(comment).len())
}

/// A reply is structurally smaller than the comment it answers.
pub proof fn lemma_reply_smaller(comment: Json, i: int)
    requires
        0 <= i < replies_of(comment).len(),
    ensures
        decreases_to!(comment => replies_of(comment)[i]),
{
    lemma_member_smaller(comment, "comments"@);
    let arr = get_spec(comment, "comments"@)->0;
    lemma_item_smaller(arr, i);
}

/// `min(a + b, u32::MAX)`.
fn add_saturating(a: u32, b: u32) -> (r: u32)
    ensures
        r == if a + b > u32::MAX { u32::MAX as int } else { a + b },
{
    a.saturating_add(b)
}

/// Count every nested `comments[]` entry under `comment`, recursively, saturating at
/// `u32::MAX`: a reply can itself carry replies, so this is the whole thread below the root.
pub fn count_replies(comment: &Json) -> (n: u32)
    ensures
        n == if replies_spec(*comment) > u32::MAX { u32::MAX as int } else { replies_spec(*comment) as int },
    decreases *comment,
{
    let arr = match comment.get("comments") {
        Some(Json::Array(items)) => items,
        _ => {
            return 0;
        },
    };
    assert(arr@ == replies_of(*comment));
    let mut total: u32 = 0;
    let mut i: usize = 0;
    while i < arr.len()
        invariant
            arr@ == replies_of(*comment),
            i <= arr@.len(),
            total == if replies_upto(*comment, i as nat) > u32::MAX {
                u32::MAX as int
            } else {
                replies_upto(*comment, i as nat) as int
            },
        decreases arr@.len() - i,
    {
        proof {
            lemma_reply_smaller(*comment, i as int);
        }
        let below = count_replies(&arr[i]);
        total = add_saturating(add_saturating(total, 1), below);
        i = i + 1;
    }
    total
}

/// An author name that marks a bot when the payload gives no account type.
pub open spec fn bot_suffixed(name: Seq<char>) -> bool {
    has_suffix(name, "-bot"@) || has_suffix(name, "_bot"@)
}

/// Whether a comment's author is a bot: a `SERVICE` account, or, without an account type, a
/// name ending in `-bot` or `_bot`.
pub open spec fn author_is_bot_spec(author: Json) -> bool {
    match str_spec(at_spec(author, "type"@)) {
        Some(t) => t == "SERVICE"@,
        None => bot_suffixed(text_of(at_spec(author, "name"@))),
    }
}

/// An activity that carries a comment: a `COMMENTED` action with a non-null `comment`.
pub open spec fn is_commented(a: Json) -> bool {
    str_spec(at_spec(a, "action"@)) == Some("COMMENTED"@) && at_spec(a, "comment"@) != Json::Null
}

/// The activities that carry comments, in order.
pub open spec fn commented(activities: Json) -> Seq<Json> {
    match array_spec(activities) {
        Some(items) => items.filter(|a: Json| is_commented(a)),
        None => Seq::empty(),
    }
}

/// How one commented activity reads as a comment: an anchored one (a non-null
/// `commentAnchor`) is a finding at `path:line`, outdated when the anchor is orphaned;
/// otherwise a plain `comment`. The author is `comment.author.name`, the body the trimmed
/// text, the time the ISO rendering of `createdDate` (empty when absent), resolved when the
/// state is `RESOLVED` or the thread is, and the reply count the whole thread below it.
pub open spec fn activity_comment(a: Json, c: Comment) -> bool {
    let comment = at_spec(a, "comment"@);
    let author = at_spec(comment, "author"@);
    &&& c.author@ == text_of(at_spec(author, "name"@))
    &&& c.author_is_bot == author_is_bot_spec(author)
    &&& c.body@ == trim_spec(text_of(at_spec(comment, "text"@)))
    &&& c.snippet is None
    &&& match i64_spec(at_spec(comment, "createdDate"@)) {
        Some(ms) => is_ms_iso(c.created_at@, ms as int),
        None => c.created_at@ == Seq::<char>::empty(),
    }
    &&& c.is_resolved == (str_spec(at_spec(comment, "state"@)) == Some("RESOLVED"@) || flag_of(
        at_spec(comment, "threadResolved"@),
    ))
    &&& c.reply_count == if replies_spec(comment) > u32::MAX {
        u32::MAX as int
    } else {
        replies_spec(comment) as int
    }
    &&& match get_spec(a, "commentAnchor"@) {
        Some(anchor) if anchor != Json::Null => {
            &&& c.kind == CommentKind::Finding
            &&& c.anchor@ == finding_anchor(anchor)
            &&& c.is_outdated == flag_of(at_spec(anchor, "orphaned"@))
        },
        _ => {
            &&& c.kind == CommentKind::Comment
            &&& c.anchor@ == "comment"@
            &&& !c.is_outdated
        },
    }
}

/// The post times of `m`, in order.
pub open spec fn times_of(m: Seq<Comment>) -> Seq<Seq<char>> {
    Seq::new(m.len(), |i: int| m[i].created_at@)
}

/// `order` arranges `m` newest first, keeping the input order among equal times.
pub open spec fn newest_first(m: Seq<Comment>, order: Seq<usize>) -> bool {
    newest_first_keys(times_of(m), order)
}

/// Read one commented activity as a comment.
fn activity_to_comment(a: &Json) -> (c: Comment)
    requires
        is_commented(*a),
    ensures
        activity_comment(*a, c),
{
    let comment = member(a, "comment");
    let author = member(comment, "author");
    let author_name = owned(text_field(author, "name"));
    let author_is_bot = match str_field(author, "type") {
        Some(t) => str_eq(t, "SERVICE"),
        None => ends_with(author_name.as_str(), "-bot") || ends_with(author_name.as_str(), "_bot"),
    };
    let body = trim(text_field(comment, "text"));
    let created_at = match member(comment, "createdDate").as_i64() {
        Some(ms) => epoch_ms_to_iso(ms),
        None => String::new(),
    };
    let is_resolved = match str_field(comment, "state") {
        Some(st) => str_eq(st, "RESOLVED"),
        None => false,
    } || flag_field(comment, "threadResolved");
    let reply_count = count_replies(comment);
    let anchor = match a.get("commentAnchor") {
        Some(x) => if x.is_null() {
            None
        } else {
            Some(x)
        },
        None => None,
    };
    match anchor {
        Some(anchor) => {
            let anchor_str = anchor_of(anchor);
            Comment {
                kind: CommentKind::Finding,
                author: author_name,
                author_is_bot,
                anchor: anchor_str,
                body,
                snippet: None,
                created_at,
                is_resolved,
                is_outdated: flag_field(anchor, "orphaned"),
                reply_count,
            }
        },
        None => {
            let label = owned("comment");
            Comment {
                kind: CommentKind::Comment,
                author: author_name,
                author_is_bot,
                anchor: label,
                body,
                snippet: None,
                created_at,
                is_resolved,
                is_outdated: false,
                reply_count,
            }
        },
    }
}

/// Bitbucket activities as comments: each `COMMENTED` activity with a comment, read as
/// [`activity_comment`] says, arranged newest first (equal times keep their order); every
/// other activity is dropped.
pub fn map_activities(activities: &Json) -> (out: Vec<Comment>)
    ensures
        exists|m: Seq<Comment>, order: Seq<usize>|
            {
                &&& m.len() == commented(*activities).len()
                &&& forall|i: int|
                    0 <= i < m.len() ==> activity_comment(commented(*activities)[i], #[trigger] m[i])
                &&& newest_first(m, order)
                &&& out@ == Seq::new(order.len(), |k: int| m[order[k] as int])
            },
{
    let mut m: Vec<Comment> = Vec::new();
    match activities.as_array() {
        Some(items) => {
            let ghost all = items@;
            let mut i: usize = 0;
            while i < items.len()
                invariant
                    all == items@,
                    i <= all.len(),
                    m@.len() == all.take(i as int).filter(|a: Json| is_commented(a)).len(),
                    forall|j: int|
                        0 <= j < m@.len() ==> activity_comment(
                            all.take(i as int).filter(|a: Json| is_commented(a))[j],
                            #[trigger] m@[j],
                        ),
                decreases all.len() - i,
            {
                proof {
                    assert(all.take(i + 1) =~= all.take(i as int).push(all[i as int]));
                    all.take(i as int).lemma_filter_push(all[i as int], |a: Json| is_commented(a));
                }
                let a = &items[i];
                let keep = match str_field(a, "action") {
                    Some(act) => str_eq(act, "COMMENTED"),
                    None => false,
                } && !member(a, "comment").is_null();
                if keep {
                    let c = activity_to_comment(a);
                    m.push(c);
                }
                i = i + 1;
            }
            proof {
                assert(all.take(all.len() as int) =~= all);
            }
        },
        None => {},
    }
    let mut times: Vec<String> = Vec::new();
    let mut t: usize = 0;
    while t < m.len()
        invariant
            t <= m@.len(),
            views(times@) == times_of(m@).take(t as int),
        decreases m@.len() - t,
    {
        push_string(&mut times, owned(m[t].created_at.as_str()));
        t = t + 1;
        proof {
            assert(views(times@) =~= times_of(m@).take(t as int));
        }
    }
    proof {
        assert(times_of(m@).take(m@.len() as int) =~= times_of(m@));
    }
    let order = newest_first_order(&times);
    let mut out: Vec<Comment> = Vec::new();
    let mut k: usize = 0;
    while k < order.len()
        invariant
            newest_first(m@, order@),
            k <= order@.len(),
            out@ == Seq::new(k as nat, |j: int| m@[order@[j] as int]),
        decreases order@.len() - k,
    {
        out.push(m[order[k]].duplicate());
        k = k + 1;
        proof {
            assert(out@ =~= Seq::new(k as nat, |j: int| m@[order@[j] as int]));
        }
    }
    proof {
        assert(m@.len() == commented(*activities).len());
        assert(forall|i: int|
            0 <= i < m@.len() ==> activity_comment(commented(*activities)[i], #[trigger] m@[i]));
        assert(out@ == Seq::new(order@.len(), |j: int| m@[order@[j] as int]));
    }
    out
}

/// A PR's head lives in another repository: the two repositories' project keys differ
/// (ignoring ASCII case) or their slugs differ.
pub open spec fn fork_spec(detail: Json) -> bool {
    let from_repo = at_spec(at_spec(detail, "fromRef"@), "repository"@);
    let to_repo = at_spec(at_spec(detail, "toRef"@), "repository"@);
    !eq_ignore_case_spec(
        text_of(at_spec(at_spec(from_repo, "project"@), "key"@)),
        text_of(at_spec(at_spec(to_repo, "project"@), "key"@)),
    ) || text_of(at_spec(from_repo, "slug"@)) != text_of(at_spec(to_repo, "slug"@))
}

/// The snapshot a PR detail assembles into, with the separately read merge state, checks,
/// comments, sync and truncation: the `id`, `title`, first self link, lifecycle (`OPEN` when
/// absent), draft flag (`false` when absent), head and base display names, and fork test.
pub open spec fn snapshot_spec(
    detail: Json,
    merge: Merge,
    checks: Vec<Check>,
    comments: Vec<Comment>,
    sync: Sync,
    truncated: bool,
    s: PrSnapshot,
) -> bool {
    &&& s.number == match u64_spec(at_spec(detail, "id"@)) {
        Some(n) => n,
        None => 0,
    }
    &&& s.title@ == text_of(at_spec(detail, "title"@))
    &&& s.url@ == text_of(
        at_spec(idx_spec(at_spec(at_spec(detail, "links"@), "self"@), 0), "href"@),
    )
    &&& s.state == state_spec(
        match str_spec(at_spec(detail, "state"@)) {
            Some(t) => t,
            None => "OPEN"@,
        },
    )
    &&& s.is_draft == flag_of(at_spec(detail, "draft"@))
    &&& s.head_ref@ == text_of(at_spec(at_spec(detail, "fromRef"@), "displayId"@))
    &&& s.base_ref@ == text_of(at_spec(at_spec(detail, "toRef"@), "displayId"@))
    &&& s.head_is_fork == fork_spec(detail)
    &&& s.merge == merge
    &&& s.sync == sync
    &&& s.checks == checks
    &&& s.comments == comments
    &&& s.truncated == truncated
}

/// Assemble a snapshot from a PR detail and the separately read surfaces.
pub fn build_snapshot(
    detail: &Json,
    merge: Merge,
    checks: Vec<Check>,
    comments: Vec<Comment>,
    sync: Sync,
    truncated: bool,
) -> (s: PrSnapshot)
    ensures
        snapshot_spec(*detail, merge, checks, comments, sync, truncated, s),
{
    let from_ref = member(detail, "fromRef");
    let to_ref = member(detail, "toRef");
    let from_repo = member(from_ref, "repository");
    let to_repo = member(to_ref, "repository");
    let from_key = text_field(member(from_repo, "project"), "key");
    let to_key = text_field(member(to_repo, "project"), "key");
    let from_slug = text_field(from_repo, "slug");
    let to_slug = text_field(to_repo, "slug");
    let head_is_fork = !eq_ignore_ascii_case(from_key, to_key) || !str_eq(from_slug, to_slug);
    let number = match member(detail, "id").as_u64() {
        Some(n) => n,
        None => 0,
    };
    let state = match str_field(detail, "state") {
        Some(t) => parse_state(t),
        None => parse_state("OPEN"),
    };
    let url = owned(text_field(item(member(member(detail, "links"), "self"), 0), "href"));
    PrSnapshot {
        number,
        title: owned(text_field(detail, "title")),
        url,
        state,
        is_draft: flag_field(detail, "draft"),
        head_ref: owned(text_field(from_ref, "displayId")),
        head_is_fork,
        base_ref: owned(text_field(to_ref, "displayId")),
        merge,
        sync,
        checks,
        comments,
        truncated,
    }
}

/// The bytes of an ASCII character run, one per character.
pub open spec fn ascii_bytes(s: Seq<char>) -> Seq<u8> {
    Seq::new(s.len(), |i: int| s[i] as u8)
}

/// A run of digit characters reads, byte for byte, as the same digit run.
proof fn lemma_digit_bytes(s: Seq<char>)
    requires
        all_digit_chars(s),
    ensures
        all_digits(ascii_bytes(s)),
        digits_value(ascii_bytes(s)) == digit_value(s),
    decreases s.len(),
{
    assert forall|i: int| 0 <= i < s.len() implies (s[i] as u8) as int == s[i] as int by {
        let c = s[i];
        assert('0' <= c <= '9');
    }
    if s.len() > 0 {
        lemma_digit_bytes(s.drop_last());
        assert(ascii_bytes(s).drop_last() =~= ascii_bytes(s.drop_last()));
    }
}

/// Joining two ASCII runs stays ASCII.
proof fn lemma_ascii_concat(a: Seq<char>, b: Seq<char>)
    requires
        is_ascii_chars(a),
        is_ascii_chars(b),
    ensures
        is_ascii_chars(a + b),
{
    assert forall|i: int| 0 <= i < (a + b).len() implies '\0' <= #[trigger] (a + b)[i] <= '\u{7f}' by {
        if i < a.len() {
            assert((a + b)[i] == a[i]);
        } else {
            assert((a + b)[i] == b[i - a.len()]);
        }
    }
}

/// Digits are ASCII.
proof fn lemma_digits_ascii(s: Seq<char>)
    requires
        all_digit_chars(s),
    ensures
        is_ascii_chars(s),
{
    assert forall|i: int| 0 <= i < s.len() implies '\0' <= #[trigger] s[i] <= '\u{7f}' by {
        assert('0' <= s[i] <= '9');
    }
}

/// A year of the common era up to 9999 renders as four digits that read back as the year.
proof fn lemma_year_field(y: int)
    requires
        0 <= y <= 9999,
    ensures
        year_text(y).len() == 4,
        is_ascii_chars(year_text(y)),
        all_digits(ascii_bytes(year_text(y))),
        digits_value(ascii_bytes(year_text(y))) == y,
{
    lemma_padded_value(y as nat, 4);
    lemma_digits_ascii(year_text(y));
    lemma_digit_bytes(year_text(y));
}

/// A two-place field reads back as its value.
proof fn lemma_two_place_field(n: nat)
    requires
        n < 100,
    ensures
        padded(n, 2).len() == 2,
        is_ascii_chars(padded(n, 2)),
        all_digits(ascii_bytes(padded(n, 2))),
        digits_value(ascii_bytes(padded(n, 2))) == n,
{
    lemma_padded_value(n, 2);
    lemma_digits_ascii(padded(n, 2));
    lemma_digit_bytes(padded(n, 2));
}

/// A second of the day splits back into its hour, minute and second.
proof fn lemma_clock(tod: int)
    requires
        0 <= tod < 86_400,
    ensures
        (tod / 3600) * 3600 + (tod % 3600 / 60) * 60 + tod % 60 == tod,
        tod / 3600 < 24,
        tod % 3600 / 60 < 60,
{
    assert((tod / 3600) * 3600 + (tod % 3600 / 60) * 60 + tod % 60 == tod) by (nonlinear_arith)
        requires
            0 <= tod < 86_400,
    ;
}

/// The rendering of a real date of the common era up to year 9999 and a second of its day
/// reads back as that moment.
pub proof fn lemma_iso_text_parses(y: int, m: nat, d: nat, tod: int)
    requires
        0 <= y <= 9999,
        1 <= m <= 12,
        1 <= d <= days_in_month(y, m as int),
        0 <= tod < 86_400,
    ensures
        parse_iso_spec(encode_utf8(iso_text(y, m, d, tod))) == Some(
            days_from_civil(y, m as int, d as int) * 86_400 + tod,
        ),
{
    let out = iso_text(y, m, d, tod);
    lemma_clock(tod);
    let h = (tod / 3600) as nat;
    let mi = (tod % 3600 / 60) as nat;
    let se = (tod % 60) as nat;
    lemma_year_field(y);
    lemma_two_place_field(m);
    lemma_two_place_field(d);
    lemma_two_place_field(h);
    lemma_two_place_field(mi);
    lemma_two_place_field(se);
    let yt = year_text(y);
    let dash: Seq<char> = seq!['-'];
    let tee: Seq<char> = seq!['T'];
    let colon: Seq<char> = seq![':'];
    let zed: Seq<char> = seq!['Z'];
    assert(is_ascii_chars(dash) && is_ascii_chars(tee) && is_ascii_chars(colon) && is_ascii_chars(
        zed,
    )) by {
        assert(dash[0] == '-' && tee[0] == 'T' && colon[0] == ':' && zed[0] == 'Z');
    }
    let s1 = yt + dash;
    lemma_ascii_concat(yt, dash);
    let s2 = s1 + padded(m, 2);
    lemma_ascii_concat(s1, padded(m, 2));
    let s3 = s2 + dash;
    lemma_ascii_concat(s2, dash);
    let s4 = s3 + padded(d, 2);
    lemma_ascii_concat(s3, padded(d, 2));
    let s5 = s4 + tee;
    lemma_ascii_concat(s4, tee);
    let s6 = s5 + padded(h, 2);
    lemma_ascii_concat(s5, padded(h, 2));
    let s7 = s6 + colon;
    lemma_ascii_concat(s6, colon);
    let s8 = s7 + padded(mi, 2);
    lemma_ascii_concat(s7, padded(mi, 2));
    let s9 = s8 + colon;
    lemma_ascii_concat(s8, colon);
    let s10 = s9 + padded(se, 2);
    lemma_ascii_concat(s9, padded(se, 2));
    let s11 = s10 + zed;
    lemma_ascii_concat(s10, zed);
    assert(out == s11);
    assert(out.len() == 20);
    is_ascii_chars_encode_utf8(out);
    let b = encode_utf8(out);
    assert(b =~= ascii_bytes(out));
    assert(out.subrange(0, 4) =~= yt);
    assert(out.subrange(5, 7) =~= padded(m, 2));
    assert(out.subrange(8, 10) =~= padded(d, 2));
    assert(out.subrange(11, 13) =~= padded(h, 2));
    assert(out.subrange(14, 16) =~= padded(mi, 2));
    assert(out.subrange(17, 19) =~= padded(se, 2));
    assert(b.subrange(0, 4) =~= ascii_bytes(yt));
    assert(b.subrange(5, 7) =~= ascii_bytes(padded(m, 2)));
    assert(b.subrange(8, 10) =~= ascii_bytes(padded(d, 2)));
    assert(b.subrange(11, 13) =~= ascii_bytes(padded(h, 2)));
    assert(b.subrange(14, 16) =~= ascii_bytes(padded(mi, 2)));
    assert(b.subrange(17, 19) =~= ascii_bytes(padded(se, 2)));
    assert(out[4] == '-' && out[7] == '-' && out[10] == 'T' && out[13] == ':' && out[16] == ':');
    assert(b[4] == 45 && b[7] == 45 && b[10] == 84 && b[13] == 58 && b[16] == 58);
    assert(out[19] == 'Z' && b[19] == 90);
    assert(tod == h * 3600 + mi * 60 + se);
}

/// Rendering a Unix millisecond and reading it back gives its whole second, whenever its civil
/// year is one of the common era that fits the four-digit field (years 0 through 9999).
pub proof fn law_epoch_ms_round_trips_through_parse_iso(ms: int, out: Seq<char>, y: int)
    requires
        ms_iso_in_year(out, ms, y),
        0 <= y <= 9999,
    ensures
        parse_iso_spec(encode_utf8(out)) == Some(ms / 1000),
{
    let secs = ms / 1000;
    let days = secs / 86_400;
    let tod = secs % 86_400;
    let (m, d) = choose|m: nat, d: nat|
        #![trigger days_from_civil(y, m as int, d as int)]
        days_from_civil(y, m as int, d as int) == days && 1 <= m <= 12 && 1 <= d
            <= days_in_month(y, m as int) && out == iso_text(y, m, d, tod);
    lemma_iso_text_parses(y, m, d, tod);
    assert(secs == days * 86_400 + tod);
}
} // verus!

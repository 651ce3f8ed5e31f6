//! The GitLab backend's pure parts: stderr classification, percent-encoding of REST path
//! components, and the normalisation of GitLab's lifecycle, merge, and job fields.

use vstd::prelude::*;
use vstd::string::StringSliceAdditionalSpecFns;

use super::{
    arranged_newest_first, check_model, dedup_bot_prose, find_check, keeps, lemma_name_index,
    nodes_of, push_unique, sort_newest_first, upsert, AssocPr, Association, Check, CheckStatus,
    CliError, Comment, CommentKind, Merge, PrSnapshot, PrState, Sync,
};
use crate::json::{
    at_spec, flag_field, flag_of, idx_spec, item, member, str_field, str_spec, text_field, text_of,
    u64_spec, Json,
};
use crate::editor::{lowercase, to_lowercase};
use crate::git::Forge;
use crate::text::{
    all_digit_chars, contains_seq, contains_str, decimal, digit_value, owned, push_char, push_u64,
    str_eq, to_chars, trim, trim_spec,
};

verus! {

/// How `glab`'s stderr classifies: sign-in wording or an HTTP 401 is an authentication
/// failure for the host, anything else a transient error carrying the trimmed stderr.
pub open spec fn classify_spec(stderr: Seq<char>, host: Seq<char>, out: CliError) -> bool {
    let s = lowercase(stderr);
    if contains_seq(s, "glab auth login"@) || contains_seq(s, "unauthorized"@) || contains_seq(
        s,
        "http 401"@,
    ) {
        out matches CliError::NotAuthed(f, h) && f == Forge::GitLab && h@ == host
    } else {
        out matches CliError::Other(m) && m@ == trim_spec(stderr)
    }
}

/// Map a failed `glab`'s stderr to a degraded state by its wording.
pub fn classify_failure(stderr: &str, host: &str) -> (out: CliError)
    ensures
        classify_spec(stderr@, host@, out),
{
    let lower = to_lowercase(stderr);
    let s = lower.as_str();
    if contains_str(s, "glab auth login") || contains_str(s, "unauthorized") || contains_str(
        s,
        "http 401",
    ) {
        CliError::NotAuthed(Forge::GitLab, owned(host))
    } else {
        CliError::Other(trim(stderr))
    }
}

/// An RFC 3986 unreserved byte: ASCII letters, digits, `-`, `.`, `_`, `~`.
pub open spec fn is_unreserved(b: u8) -> bool {
    (65 <= b <= 90) || (97 <= b <= 122) || (48 <= b <= 57) || b == 45 || b == 46 || b == 95 || b
        == 126
}

/// An uppercase hexadecimal digit.
pub open spec fn hex_upper(d: int) -> char {
    if d < 10 {
        (48 + d) as char
    } else {
        (55 + d) as char
    }
}

/// One byte as it appears in an encoded component: itself when unreserved, else `%XX`.
pub open spec fn encode_byte(b: u8) -> Seq<char> {
    if is_unreserved(b) {
        seq![b as char]
    } else {
        seq!['%', hex_upper((b / 16) as int), hex_upper((b % 16) as int)]
    }
}

/// The percent-encoding of a byte string.
pub open spec fn percent_spec(bytes: Seq<u8>) -> Seq<char>
    decreases bytes.len(),
{
    if bytes.len() == 0 {
        Seq::empty()
    } else {
        percent_spec(bytes.drop_last()) + encode_byte(bytes.last())
    }
}

/// An uppercase hexadecimal digit.
fn hex_digit(d: u8) -> (c: char)
    requires
        d < 16,
    ensures
        c == hex_upper(d as int),
{
    if d < 10 {
        (48 + d) as char
    } else {
        (55 + d) as char
    }
}

/// Percent-encode one URL path or query component: the unreserved set is kept, every other
/// byte of its UTF-8 encoding becomes `%XX`, so a project path's `/` separators encode.
pub fn percent_encode(component: &str) -> (out: String)
    ensures
        out@ == percent_spec(component.spec_bytes()),
{
    let bytes = component.as_bytes();
    let mut out = String::new();
    let mut i: usize = 0;
    while i < bytes.len()
        invariant
            i <= bytes@.len(),
            out@ == percent_spec(bytes@.take(i as int)),
        decreases bytes@.len() - i,
    {
        let b = bytes[i];
        if (65 <= b && b <= 90) || (97 <= b && b <= 122) || (48 <= b && b <= 57) || b == 45 || b
            == 46 || b == 95 || b == 126 {
            push_char(&mut out, b as char);
        } else {
            push_char(&mut out, '%');
            push_char(&mut out, hex_digit(b / 16));
            push_char(&mut out, hex_digit(b % 16));
        }
        proof {
            assert(bytes@.take(i + 1).drop_last() =~= bytes@.take(i as int));
            assert(out@ =~= percent_spec(bytes@.take(i + 1)));
        }
        i = i + 1;
    }
    proof {
        assert(bytes@.take(bytes@.len() as int) =~= bytes@);
    }
    out
}

/// A component made only of unreserved bytes passes through encoding unchanged.
pub proof fn law_unreserved_passes_through(bytes: Seq<u8>)
    requires
        forall|i: int| 0 <= i < bytes.len() ==> is_unreserved(#[trigger] bytes[i]),
    ensures
        percent_spec(bytes) == Seq::new(bytes.len(), |i: int| bytes[i] as char),
    decreases bytes.len(),
{
    if bytes.len() > 0 {
        law_unreserved_passes_through(bytes.drop_last());
        assert(percent_spec(bytes) =~= Seq::new(bytes.len(), |i: int| bytes[i] as char));
    } else {
        assert(percent_spec(bytes) =~= Seq::new(bytes.len(), |i: int| bytes[i] as char));
    }
}

/// GitLab's MR state: `merged` and `closed`, anything else (opened, locked) live.
pub open spec fn state_spec(s: Seq<char>) -> PrState {
    if s == "merged"@ {
        PrState::Merged
    } else if s == "closed"@ {
        PrState::Closed
    } else {
        PrState::Open
    }
}

/// GitLab's MR state, defaulting to the live case.
pub fn parse_state(s: &str) -> (st: PrState)
    ensures
        st == state_spec(s@),
{
    if str_eq(s, "merged") {
        PrState::Merged
    } else if str_eq(s, "closed") {
        PrState::Closed
    } else {
        PrState::Open
    }
}

/// The merge states a person reviewing can act on.
pub open spec fn actionable_block(s: Seq<char>) -> bool {
    s == "BLOCKED_STATUS"@ || s == "DISCUSSIONS_NOT_RESOLVED"@ || s == "EXTERNAL_STATUS_CHECKS"@
        || s == "JIRA_ASSOCIATION"@ || s == "NOT_APPROVED"@ || s == "POLICIES_DENIED"@ || s
        == "REQUESTED_CHANGES"@
}

/// Conflicts (flagged, or the `CONFLICT` status) win; the actionable gates block; everything
/// else folds into `Clean`.
pub open spec fn merge_spec(conflicts: bool, status: Option<Seq<char>>) -> Merge {
    if conflicts || status == Some("CONFLICT"@) {
        Merge::Conflicting
    } else if status is Some && actionable_block(status->0) {
        Merge::Blocked
    } else {
        Merge::Clean
    }
}

/// Fold GitLab's `conflicts` and `detailedMergeStatus` into a [`Merge`].
pub fn derive_merge(conflicts: bool, status: Option<&str>) -> (m: Merge)
    ensures
        m == merge_spec(
            conflicts,
            match status {
                Some(s) => Some(s@),
                None => None,
            },
        ),
{
    match status {
        Some(s) => {
            if conflicts || str_eq(s, "CONFLICT") {
                Merge::Conflicting
            } else if str_eq(s, "BLOCKED_STATUS") || str_eq(s, "DISCUSSIONS_NOT_RESOLVED")
                || str_eq(s, "EXTERNAL_STATUS_CHECKS") || str_eq(s, "JIRA_ASSOCIATION") || str_eq(
                s,
                "NOT_APPROVED",
            ) || str_eq(s, "POLICIES_DENIED") || str_eq(s, "REQUESTED_CHANGES") {
                Merge::Blocked
            } else {
                Merge::Clean
            }
        },
        None => if conflicts {
            Merge::Conflicting
        } else {
            Merge::Clean
        },
    }
}

/// One `CiJobStatus`: a manual gate is a skip, a canceled job a failure, queued work pending.
pub open spec fn job_status_spec(s: Seq<char>) -> CheckStatus {
    if s == "SUCCESS"@ {
        CheckStatus::Success
    } else if s == "FAILED"@ || s == "CANCELED"@ || s == "CANCELING"@ {
        CheckStatus::Failure
    } else if s == "RUNNING"@ {
        CheckStatus::Running
    } else if s == "SKIPPED"@ || s == "MANUAL"@ {
        CheckStatus::Skipped
    } else {
        CheckStatus::Pending
    }
}

/// Normalise one job status to a [`CheckStatus`].
pub fn check_status(s: &str) -> (st: CheckStatus)
    ensures
        st == job_status_spec(s@),
{
    if str_eq(s, "SUCCESS") {
        CheckStatus::Success
    } else if str_eq(s, "FAILED") || str_eq(s, "CANCELED") || str_eq(s, "CANCELING") {
        CheckStatus::Failure
    } else if str_eq(s, "RUNNING") {
        CheckStatus::Running
    } else if str_eq(s, "SKIPPED") || str_eq(s, "MANUAL") {
        CheckStatus::Skipped
    } else {
        CheckStatus::Pending
    }
}


/// The checks of a pipeline's jobs: one per job name, in the order names first appear, each
/// with the status of its last row; unnamed jobs are skipped.
pub open spec fn jobs_fold(nodes: Seq<Json>) -> Seq<(Seq<char>, CheckStatus)>
    decreases nodes.len(),
{
    if nodes.len() == 0 {
        Seq::empty()
    } else {
        let prev = jobs_fold(nodes.drop_last());
        let name = text_of(at_spec(nodes.last(), "name"@));
        if name.len() == 0 {
            prev
        } else {
            upsert(prev, name, job_status_spec(text_of(at_spec(nodes.last(), "status"@))))
        }
    }
}

/// The latest job per name from the head pipeline.
pub fn normalize_checks(jobs: &Json) -> (out: Vec<Check>)
    ensures
        check_model(out@) == jobs_fold(nodes_of(*jobs)),
{
    let mut out: Vec<Check> = Vec::new();
    match jobs.as_array() {
        Some(nodes) => {
            let ghost all = nodes@;
            let mut i: usize = 0;
            while i < nodes.len()
                invariant
                    all == nodes@,
                    i <= all.len(),
                    check_model(out@) == jobs_fold(all.take(i as int)),
                decreases all.len() - i,
            {
                proof {
                    assert(all.take(i + 1).drop_last() =~= all.take(i as int));
                }
                let node = &nodes[i];
                let name = text_field(node, "name");
                if !name.is_empty() {
                    let status = check_status(text_field(node, "status"));
                    match find_check(&out, name) {
                        Some(k) => {
                            proof {
                                lemma_name_index(check_model(out@), name@, 0);
                            }
                            out.set(k, Check { name: owned(name), status });
                            proof {
                                assert(check_model(out@) =~= jobs_fold(all.take(i + 1)));
                            }
                        },
                        None => {
                            out.push(Check { name: owned(name), status });
                            proof {
                                assert(check_model(out@) =~= jobs_fold(all.take(i + 1)));
                            }
                        },
                    }
                }
                i = i + 1;
            }
            proof {
                assert(all.take(all.len() as int) =~= all);
            }
        },
        None => {
            proof {
                assert(check_model(out@) =~= jobs_fold(nodes_of(*jobs)));
            }
        },
    }
    out
}

/// A discussion's root note.
pub open spec fn root_note(d: Json) -> Json {
    idx_spec(at_spec(at_spec(d, "notes"@), "nodes"@), 0)
}

/// A discussion worth a card: its root is not a system note and its trimmed body is not empty.
pub open spec fn discussion_kept(d: Json) -> bool {
    !flag_of(at_spec(root_note(d), "system"@)) && trim_spec(text_of(at_spec(root_note(d), "body"@))).len()
        > 0
}

/// A positioned note's anchor: `path:line` on the new line, else the old line, else the
/// path alone.
pub open spec fn note_anchor(position: Json, path: Seq<char>) -> Seq<char> {
    match u64_spec(at_spec(position, "newLine"@)) {
        Some(line) => path + seq![':'] + decimal(line as nat),
        None => match u64_spec(at_spec(position, "oldLine"@)) {
            Some(line) => path + seq![':'] + decimal(line as nat),
            None => path,
        },
    }
}

/// How a kept discussion reads: a root with a file position is a finding at its line,
/// resolved as the discussion is and with every later note a reply; any other root a plain
/// `comment`. The author is the account's username, a bot by the account's own flag. GitLab
/// has no outdated flag and no diff hunk, so neither is claimed.
pub open spec fn discussion_card(d: Json, c: Comment) -> bool {
    let root = root_note(d);
    let position = at_spec(root, "position"@);
    let count = match u64_spec(at_spec(at_spec(d, "notes"@), "count"@)) {
        Some(n) => n as int,
        None => 1,
    };
    &&& c.author@ == text_of(at_spec(at_spec(root, "author"@), "username"@))
    &&& c.author_is_bot == flag_of(at_spec(at_spec(root, "author"@), "bot"@))
    &&& c.body@ == trim_spec(text_of(at_spec(root, "body"@)))
    &&& c.snippet is None
    &&& c.created_at@ == text_of(at_spec(root, "createdAt"@))
    &&& !c.is_outdated
    &&& match str_spec(at_spec(position, "filePath"@)) {
        Some(path) => {
            &&& c.kind == CommentKind::Finding
            &&& c.anchor@ == note_anchor(position, path)
            &&& c.is_resolved == flag_of(at_spec(d, "resolved"@))
            &&& c.reply_count == ((if count >= 1 { count - 1 } else { 0 }) as u64) as u32
        },
        None => {
            &&& c.kind == CommentKind::Comment
            &&& c.anchor@ == "comment"@
            &&& !c.is_resolved
            &&& c.reply_count == 0
        },
    }
}

/// The kept discussions, in order.
pub open spec fn kept_discussions(discussions: Json) -> Seq<Json> {
    nodes_of(discussions).filter(|d: Json| discussion_kept(d))
}

/// Whether `cards` reads the kept discussions, in order.
pub open spec fn cards_from(discussions: Json, cards: Seq<Comment>) -> bool {
    &&& cards.len() == kept_discussions(discussions).len()
    &&& forall|i: int|
        0 <= i < cards.len() ==> discussion_card(kept_discussions(discussions)[i], #[trigger] cards[i])
}

/// Read one kept discussion.
fn discussion_comment(d: &Json) -> (c: Comment)
    ensures
        discussion_card(*d, c),
{
    let root = item(member(member(d, "notes"), "nodes"), 0);
    let author = member(root, "author");
    let login = owned(text_field(author, "username"));
    let author_is_bot = flag_field(author, "bot");
    let body = trim(text_field(root, "body"));
    let created_at = owned(text_field(root, "createdAt"));
    let position = member(root, "position");
    match str_field(position, "filePath") {
        Some(path) => {
            let line = match member(position, "newLine").as_u64() {
                Some(l) => Some(l),
                None => member(position, "oldLine").as_u64(),
            };
            let mut anchor = owned(path);
            match line {
                Some(l) => {
                    push_char(&mut anchor, ':');
                    push_u64(&mut anchor, l);
                    proof {
                        assert(anchor@ =~= path@ + seq![':'] + decimal(l as nat));
                    }
                },
                None => {},
            }
            let count: u64 = match member(member(d, "notes"), "count").as_u64() {
                Some(n) => n,
                None => 1,
            };
            Comment {
                kind: CommentKind::Finding,
                author: login,
                author_is_bot,
                anchor,
                body,
                snippet: None,
                created_at,
                is_resolved: flag_field(d, "resolved"),
                is_outdated: false,
                reply_count: count.saturating_sub(1) as u32,
            }
        },
        None => Comment {
            kind: CommentKind::Comment,
            author: login,
            author_is_bot,
            anchor: owned("comment"),
            body,
            snippet: None,
            created_at,
            is_resolved: false,
            is_outdated: false,
            reply_count: 0,
        },
    }
}

/// One newest-first list from the discussion roots: positioned roots are findings, the rest
/// plain comments, system notes dropped; a bot's MR-level posts collapse to its latest.
pub fn merge_comments(discussions: &Json) -> (out: Vec<Comment>)
    ensures
        exists|cards: Seq<Comment>|
            #[trigger] cards_from(*discussions, cards) && arranged_newest_first(
                cards.filter(|c: Comment| keeps(cards, c)),
                out@,
            ),
{
    let mut cards: Vec<Comment> = Vec::new();
    match discussions.as_array() {
        Some(nodes) => {
            let ghost all = nodes@;
            let mut i: usize = 0;
            while i < nodes.len()
                invariant
                    all == nodes@,
                    i <= all.len(),
                    cards@.len() == all.take(i as int).filter(|d: Json| discussion_kept(d)).len(),
                    forall|j: int|
                        0 <= j < cards@.len() ==> discussion_card(
                            all.take(i as int).filter(|d: Json| discussion_kept(d))[j],
                            #[trigger] cards@[j],
                        ),
                decreases all.len() - i,
            {
                proof {
                    assert(all.take(i + 1) =~= all.take(i as int).push(all[i as int]));
                    all.take(i as int).lemma_filter_push(all[i as int], |d: Json| discussion_kept(d));
                }
                let d = &nodes[i];
                let root = item(member(member(d, "notes"), "nodes"), 0);
                let keep = !flag_field(root, "system") && !trim(text_field(root, "body")).as_str().is_empty();
                if keep {
                    cards.push(discussion_comment(d));
                }
                i = i + 1;
            }
            proof {
                assert(all.take(all.len() as int) =~= all);
            }
        },
        None => {},
    }
    let ghost all_cards = cards@;
    assert(cards_from(*discussions, all_cards));
    dedup_bot_prose(&mut cards);
    sort_newest_first(cards)
}

/// What `u64::from_str` reads: an optional `+`, then one or more ASCII digits whose value
/// fits 64 bits.
pub open spec fn parse_u64_spec(s: Seq<char>) -> Option<u64> {
    let digits = if s.len() > 0 && s[0] == '+' {
        s.drop_first()
    } else {
        s
    };
    if digits.len() > 0 && all_digit_chars(digits) && digit_value(digits) <= u64::MAX {
        Some(digit_value(digits) as u64)
    } else {
        None
    }
}

/// `u64::from_str`.
pub fn parse_u64(s: &str) -> (r: Option<u64>)
    ensures
        r == parse_u64_spec(s@),
{
    let cs = to_chars(s);
    let start: usize = if cs.len() > 0 && cs[0] == '+' { 1 } else { 0 };
    let ghost digits = cs@.subrange(start as int, cs@.len() as int);
    proof {
        if start == 1 {
            assert(digits =~= cs@.drop_first());
        } else {
            assert(digits =~= cs@);
        }
    }
    if start == cs.len() {
        return None;
    }
    let mut v: u64 = 0;
    let mut overflow = false;
    let mut i = start;
    while i < cs.len()
        invariant
            cs@ == s@,
            start <= i <= cs@.len(),
            start == (if cs@.len() > 0 && cs@[0] == '+' { 1usize } else { 0usize }),
            start == 1 ==> digits == cs@.drop_first(),
            start == 0 ==> digits == cs@,
            digits == cs@.subrange(start as int, cs@.len() as int),
            all_digit_chars(cs@.subrange(start as int, i as int)),
            !overflow ==> v == digit_value(cs@.subrange(start as int, i as int)),
            overflow ==> digit_value(cs@.subrange(start as int, i as int)) > u64::MAX,
        decreases cs@.len() - i,
    {
        let c = cs[i];
        if !('0' <= c && c <= '9') {
            proof {
                assert(!all_digit_chars(digits)) by {
                    assert(digits[i - start] == c);
                }
            }
            return None;
        }
        let d = (c as u32 - 48) as u64;
        proof {
            assert(cs@.subrange(start as int, i + 1).drop_last() =~= cs@.subrange(start as int, i as int));
            assert(cs@.subrange(start as int, i + 1).last() == c);
            lemma_digit_value_nonneg(cs@.subrange(start as int, i as int));
        }
        if !overflow {
            if v > (u64::MAX - d) / 10 {
                overflow = true;
                assert(v * 10 + d > u64::MAX) by (nonlinear_arith)
                    requires
                        v > (u64::MAX - d) / 10,
                        d <= 9,
                ;
            } else {
                assert(v * 10 + d <= u64::MAX) by (nonlinear_arith)
                    requires
                        v <= (u64::MAX - d) / 10,
                        d <= 9,
                ;
                v = v * 10 + d;
            }
        } else {
            assert(digit_value(cs@.subrange(start as int, i as int)) * 10 + d > u64::MAX) by (nonlinear_arith)
                requires
                    digit_value(cs@.subrange(start as int, i as int)) > u64::MAX,
                    d >= 0,
            ;
        }
        proof {
            assert forall|k: int| 0 <= k < cs@.subrange(start as int, i + 1).len() implies '0' <= #[trigger] cs@.subrange(start as int, i + 1)[k] && cs@.subrange(start as int, i + 1)[k] <= '9' by {
                if k < i - start {
                    assert(cs@.subrange(start as int, i + 1)[k] == cs@.subrange(start as int, i as int)[k]);
                }
            }
        }
        i = i + 1;
    }
    if overflow {
        None
    } else {
        Some(v)
    }
}

/// The value of a digit run is never negative.
proof fn lemma_digit_value_nonneg(s: Seq<char>)
    requires
        all_digit_chars(s),
    ensures
        digit_value(s) >= 0,
    decreases s.len(),
{
    if s.len() > 0 {
        assert(all_digit_chars(s.drop_last())) by {
            assert forall|k: int| 0 <= k < s.drop_last().len() implies '0' <= #[trigger] s.drop_last()[k] && s.drop_last()[k] <= '9' by {
                assert(s.drop_last()[k] == s[k]);
            }
        }
        lemma_digit_value_nonneg(s.drop_last());
        assert('0' <= s.last() <= '9');
    }
}

/// Whether a connection reports a next page.
pub open spec fn next_page(conn: Json) -> bool {
    flag_of(at_spec(at_spec(conn, "pageInfo"@), "hasNextPage"@))
}

/// The snapshot a GraphQL MR node assembles into with the computed sync: the string `iid`
/// read as a number (0 when unreadable), its text fields, lifecycle (`opened` when absent),
/// draft flag, a fork when the source project's id differs from the target's (a deleted
/// source counts), the merge fold, the latest job per name, the discussion cards, and whether
/// the jobs or discussions have a next page.
pub open spec fn snapshot_spec(node: Json, sync: Sync, s: PrSnapshot) -> bool {
    let jobs = at_spec(at_spec(node, "headPipeline"@), "jobs"@);
    &&& s.forge == Forge::GitLab
    &&& s.number == match str_spec(at_spec(node, "iid"@)) {
        Some(t) => match parse_u64_spec(t) {
            Some(n) => n,
            None => 0,
        },
        None => 0,
    }
    &&& s.title@ == text_of(at_spec(node, "title"@))
    &&& s.url@ == text_of(at_spec(node, "webUrl"@))
    &&& s.body@ == text_of(at_spec(node, "description"@))
    &&& s.state == state_spec(
        match str_spec(at_spec(node, "state"@)) {
            Some(t) => t,
            None => "opened"@,
        },
    )
    &&& s.is_draft == flag_of(at_spec(node, "draft"@))
    &&& s.head_ref@ == text_of(at_spec(node, "sourceBranch"@))
    &&& s.head_is_fork == (text_of(at_spec(at_spec(node, "sourceProject"@), "id"@)) != text_of(
        at_spec(at_spec(node, "targetProject"@), "id"@),
    ))
    &&& s.base_ref@ == text_of(at_spec(node, "targetBranch"@))
    &&& s.merge == merge_spec(
        flag_of(at_spec(node, "conflicts"@)),
        str_spec(at_spec(node, "detailedMergeStatus"@)),
    )
    &&& s.sync == sync
    &&& check_model(s.checks@) == jobs_fold(nodes_of(at_spec(jobs, "nodes"@)))
    &&& exists|cards: Seq<Comment>|
        #[trigger] cards_from(at_spec(at_spec(node, "discussions"@), "nodes"@), cards)
            && arranged_newest_first(cards.filter(|c: Comment| keeps(cards, c)), s.comments@)
    &&& s.truncated == (next_page(jobs) || next_page(at_spec(node, "discussions"@)))
}

/// Assemble the snapshot from the GraphQL MR node and the computed sync.
pub fn build_snapshot(node: &Json, sync: Sync) -> (s: PrSnapshot)
    ensures
        snapshot_spec(*node, sync, s),
{
    let jobs = member(member(node, "headPipeline"), "jobs");
    let truncated = flag_field(member(jobs, "pageInfo"), "hasNextPage") || flag_field(
        member(member(node, "discussions"), "pageInfo"),
        "hasNextPage",
    );
    let source_project = text_field(member(node, "sourceProject"), "id");
    let target_project = text_field(member(node, "targetProject"), "id");
    let number = match str_field(node, "iid") {
        Some(t) => match parse_u64(t) {
            Some(n) => n,
            None => 0,
        },
        None => 0,
    };
    let state = match str_field(node, "state") {
        Some(t) => parse_state(t),
        None => parse_state("opened"),
    };
    PrSnapshot {
        forge: Forge::GitLab,
        number,
        title: owned(text_field(node, "title")),
        url: owned(text_field(node, "webUrl")),
        body: owned(text_field(node, "description")),
        state,
        is_draft: flag_field(node, "draft"),
        head_ref: owned(text_field(node, "sourceBranch")),
        head_is_fork: !str_eq(source_project, target_project),
        base_ref: owned(text_field(node, "targetBranch")),
        merge: derive_merge(flag_field(node, "conflicts"), str_field(node, "detailedMergeStatus")),
        sync,
        checks: normalize_checks(member(jobs, "nodes")),
        comments: merge_comments(member(member(node, "discussions"), "nodes")),
        truncated,
    }
}

/// Which admission class a commit lookup belongs to.
#[derive(Clone, Copy)]
pub enum OidClass<'a> {
    /// A publication point: containment admits open and merged MRs.
    Point,
    /// An absorbed candidate: only a merged MR whose head is exactly an absorbed commit.
    Absorbed(&'a [String]),
    /// The pinned `HEAD`: only an MR whose head is exactly this commit.
    Head(&'a str),
}

/// An MR row that carries an `iid`.
pub open spec fn has_iid(row: Json) -> bool {
    u64_spec(at_spec(row, "iid"@)) is Some
}

/// How an MR row reads as an association entry: the `iid` is its number, `sha` its head.
pub open spec fn mr_entry(row: Json, pr: AssocPr) -> bool {
    &&& has_iid(row)
    &&& pr.number == u64_spec(at_spec(row, "iid"@))->0
    &&& pr.head_oid@ == text_of(at_spec(row, "sha"@))
    &&& pr.head_ref@ == text_of(at_spec(row, "source_branch"@))
    &&& pr.merged_at@ == text_of(at_spec(row, "merged_at"@))
    &&& pr.created_at@ == text_of(at_spec(row, "created_at"@))
}

/// Read an MR row.
pub fn mr_of(row: &Json) -> (pr: Option<AssocPr>)
    ensures
        match pr {
            Some(p) => mr_entry(*row, p),
            None => !has_iid(*row),
        },
{
    match member(row, "iid").as_u64() {
        Some(number) => Some(
            AssocPr {
                number,
                head_oid: owned(text_field(row, "sha")),
                head_ref: owned(text_field(row, "source_branch")),
                merged_at: owned(text_field(row, "merged_at")),
                created_at: owned(text_field(row, "created_at")),
            },
        ),
        None => None,
    }
}

/// Whether an MR row lands in `bucket` (0 open, 1 merged) under an admission class: it must
/// carry an `iid` and target the target project; an absorbed lookup admits only a merged MR
/// whose head is an absorbed commit; a head lookup only an MR whose head is exactly the head;
/// otherwise an `opened` MR is open and a `merged` one merged.
pub open spec fn row_admits(row: Json, target_id: u64, class: OidClass, bucket: int) -> bool {
    let state = str_spec(at_spec(row, "state"@));
    let head = text_of(at_spec(row, "sha"@));
    &&& u64_spec(at_spec(row, "target_project_id"@)) == Some(target_id)
    &&& has_iid(row)
    &&& match class {
        OidClass::Absorbed(absorbed) => bucket == 1 && (exists|k: int|
            0 <= k < absorbed@.len() && (#[trigger] absorbed@[k])@ == head) && state == Some(
            "merged"@,
        ),
        OidClass::Head(h) => h@ == head && ((bucket == 0 && state == Some("opened"@)) || (bucket
            == 1 && state == Some("merged"@))),
        OidClass::Point => (bucket == 0 && state == Some("opened"@)) || (bucket == 1 && state
            == Some("merged"@)),
    }
}

/// The numbers of a bucket.
pub open spec fn bucket_numbers(bucket: Seq<AssocPr>) -> Seq<u64> {
    Seq::new(bucket.len(), |i: int| bucket[i].number)
}

/// `rows`, keeping each `iid` at its first occurrence and dropping those in `seed`.
pub open spec fn fresh_rows(seed: Seq<u64>, rows: Seq<Json>) -> Seq<Json>
    decreases rows.len(),
{
    if rows.len() == 0 {
        Seq::empty()
    } else {
        let prev = fresh_rows(seed, rows.drop_last());
        let n = u64_spec(at_spec(rows.last(), "iid"@))->0;
        if seed.contains(n) || exists|k: int|
            0 <= k < prev.len() && u64_spec(at_spec(#[trigger] prev[k], "iid"@))->0 == n {
            prev
        } else {
            prev.push(rows.last())
        }
    }
}

/// Whether `after` is `before` extended by the fresh entries of `rows`.
pub open spec fn extended_by(before: Seq<AssocPr>, rows: Seq<Json>, after: Seq<AssocPr>) -> bool {
    let fresh = fresh_rows(bucket_numbers(before), rows);
    &&& after.len() == before.len() + fresh.len()
    &&& forall|k: int| 0 <= k < before.len() ==> after[k] == before[k]
    &&& forall|k: int| 0 <= k < fresh.len() ==> mr_entry(fresh[k], #[trigger] after[before.len() + k])
}

/// The rows admitted to `bucket`, in order.
pub open spec fn admitted_rows(rows: Json, target_id: u64, class: OidClass, bucket: int) -> Seq<Json> {
    nodes_of(rows).filter(|r: Json| row_admits(r, target_id, class, bucket))
}

/// Push an admitted row's entry unless its number is already there.
fn add_mr(bucket: &mut Vec<AssocPr>, pr: AssocPr, Ghost(before): Ghost<Seq<AssocPr>>, Ghost(rows): Ghost<Seq<Json>>, Ghost(row): Ghost<Json>)
    requires
        extended_by(before, rows, old(bucket)@),
        mr_entry(row, pr),
    ensures
        extended_by(before, rows.push(row), final(bucket)@),
{
    proof {
        assert(rows.push(row).drop_last() =~= rows);
        let fresh = fresh_rows(bucket_numbers(before), rows);
        let n = pr.number;
        if bucket_numbers(before).contains(n) || exists|k: int|
            0 <= k < fresh.len() && u64_spec(at_spec(#[trigger] fresh[k], "iid"@))->0 == n {
            if bucket_numbers(before).contains(n) {
                let k = choose|k: int| 0 <= k < bucket_numbers(before).len() && bucket_numbers(before)[k] == n;
                assert(old(bucket)@[k].number == n);
            } else {
                let k = choose|k: int|
                    0 <= k < fresh.len() && u64_spec(at_spec(#[trigger] fresh[k], "iid"@))->0 == n;
                assert(mr_entry(fresh[k], old(bucket)@[before.len() + k]));
                assert(old(bucket)@[before.len() + k].number == n);
            }
        } else {
            assert forall|k: int| 0 <= k < old(bucket)@.len() implies (#[trigger] old(bucket)@[k]).number != n by {
                if k < before.len() {
                    assert(bucket_numbers(before)[k] == before[k].number);
                } else {
                    assert(mr_entry(fresh[k - before.len()], old(bucket)@[before.len() + (k - before.len())]));
                }
            }
        }
    }
    push_unique(bucket, pr);
}

/// Admit one commit lookup's MR rows into the association under its class's rule; each
/// bucket gains, in order, the entries of its admitted rows whose numbers it lacks.
pub fn admit_commit_mrs(assoc: &mut Association, rows: &Json, target_id: u64, class: OidClass)
    ensures
        extended_by(old(assoc).open@, admitted_rows(*rows, target_id, class, 0), final(assoc).open@),
        extended_by(old(assoc).merged@, admitted_rows(*rows, target_id, class, 1), final(assoc).merged@),
        final(assoc).closed@ == old(assoc).closed@,
{
    proof {
        reveal_strlit("opened");
        reveal_strlit("merged");
    }
    let ghost open0 = assoc.open@;
    let ghost merged0 = assoc.merged@;
    let ghost p0 = |r: Json| row_admits(r, target_id, class, 0);
    let ghost p1 = |r: Json| row_admits(r, target_id, class, 1);
    proof {
        assert(fresh_rows(bucket_numbers(open0), Seq::empty()) =~= Seq::<Json>::empty());
        assert(fresh_rows(bucket_numbers(merged0), Seq::empty()) =~= Seq::<Json>::empty());
    }
    match rows.as_array() {
        Some(nodes) => {
            let ghost s = nodes@;
            let mut j: usize = 0;
            while j < nodes.len()
                invariant
                    s == nodes@,
                    p0 == (|r: Json| row_admits(r, target_id, class, 0)),
                    p1 == (|r: Json| row_admits(r, target_id, class, 1)),
                    j <= s.len(),
                    extended_by(open0, s.take(j as int).filter(p0), assoc.open@),
                    extended_by(merged0, s.take(j as int).filter(p1), assoc.merged@),
                    assoc.closed@ == old(assoc).closed@,
                decreases s.len() - j,
            {
                proof {
                    reveal_strlit("opened");
                    reveal_strlit("merged");
                    assert(s.take(j + 1) =~= s.take(j as int).push(s[j as int]));
                    s.take(j as int).lemma_filter_push(s[j as int], p0);
                    s.take(j as int).lemma_filter_push(s[j as int], p1);
                }
                let row = &nodes[j];
                let on_target = match member(row, "target_project_id").as_u64() {
                    Some(id) => id == target_id,
                    None => false,
                };
                if on_target {
                    match mr_of(row) {
                        Some(mr) => {
                            let state = str_field(row, "state");
                            let is_open = match state {
                                Some(t) => str_eq(t, "opened"),
                                None => false,
                            };
                            let is_merged = match state {
                                Some(t) => str_eq(t, "merged"),
                                None => false,
                            };
                            assert("opened"@[0] != "merged"@[0]);
                            match class {
                                OidClass::Absorbed(absorbed) => {
                                    let mut exact = false;
                                    let mut k: usize = 0;
                                    while k < absorbed.len()
                                        invariant
                                            k <= absorbed@.len(),
                                            exact == exists|q: int| 0 <= q < k && (#[trigger] absorbed@[q])@ == mr.head_oid@,
                                        decreases absorbed@.len() - k,
                                    {
                                        if str_eq(absorbed[k].as_str(), mr.head_oid.as_str()) {
                                            exact = true;
                                        }
                                        k = k + 1;
                                    }
                                    if exact && is_merged {
                                        add_mr(&mut assoc.merged, mr, Ghost(merged0), Ghost(s.take(j as int).filter(p1)), Ghost(s[j as int]));
                                    }
                                },
                                OidClass::Head(head) => {
                                    if str_eq(mr.head_oid.as_str(), head) {
                                        if is_open {
                                            add_mr(&mut assoc.open, mr, Ghost(open0), Ghost(s.take(j as int).filter(p0)), Ghost(s[j as int]));
                                        } else if is_merged {
                                            add_mr(&mut assoc.merged, mr, Ghost(merged0), Ghost(s.take(j as int).filter(p1)), Ghost(s[j as int]));
                                        }
                                    }
                                },
                                OidClass::Point => {
                                    if is_open {
                                        add_mr(&mut assoc.open, mr, Ghost(open0), Ghost(s.take(j as int).filter(p0)), Ghost(s[j as int]));
                                    } else if is_merged {
                                        add_mr(&mut assoc.merged, mr, Ghost(merged0), Ghost(s.take(j as int).filter(p1)), Ghost(s[j as int]));
                                    }
                                },
                            }
                        },
                        None => {},
                    }
                }
                j = j + 1;
            }
            proof {
                assert(s.take(s.len() as int) =~= s);
            }
        },
        None => {
            proof {
                assert(admitted_rows(*rows, target_id, class, 0) =~= Seq::<Json>::empty());
                assert(admitted_rows(*rows, target_id, class, 1) =~= Seq::<Json>::empty());
            }
        },
    }
}
} // verus!

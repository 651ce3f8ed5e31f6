//! The GitHub backend's pure parts: stderr classification, GraphQL arguments, and the
//! normalisation of GitHub's lifecycle, merge, and check fields.

use vstd::prelude::*;

use super::{
    check_model, find_check, lemma_name_index, nodes_of, upsert, anchor_of, arranged_newest_first, dedup_bot_prose, push_unique, AssocPr, Association, finding_anchor, keeps, sort_newest_first, Check,
    CheckStatus, CliError, Comment, CommentKind, Merge, PrSnapshot, PrState, Sync,
};
use crate::editor::{lowercase, to_lowercase};
use crate::git::{Forge, PublicationPoint, RepoTarget};
use crate::json::{
    array_spec, at_spec, flag_field, flag_of, idx_spec, item, member, str_field, str_spec,
    text_field, text_of, u64_spec, Json,
};
use crate::text::{
    contains_seq, contains_str, decimal, ends_with, has_suffix, owned, push_char, push_str,
    push_string, push_u64, str_eq, trim, trim_spec, views,
};

verus! {

/// How `gh`'s stderr classifies: sign-in wording is an authentication failure for the host,
/// anything else is a transient error carrying the trimmed stderr.
pub open spec fn classify_spec(stderr: Seq<char>, host: Seq<char>, out: CliError) -> bool {
    let s = lowercase(stderr);
    if contains_seq(s, "not logged"@) || contains_seq(s, "authentication"@) || contains_seq(
        s,
        "gh auth login"@,
    ) {
        out matches CliError::NotAuthed(f, h) && f == Forge::GitHub && h@ == host
    } else {
        out matches CliError::Other(m) && m@ == trim_spec(stderr)
    }
}

/// Map a failed `gh`'s stderr to a degraded state by its wording.
pub fn classify_failure(stderr: &str, host: &str) -> (out: CliError)
    ensures
        classify_spec(stderr@, host@, out),
{
    let lower = to_lowercase(stderr);
    let s = lower.as_str();
    if contains_str(s, "not logged") || contains_str(s, "authentication") || contains_str(
        s,
        "gh auth login",
    ) {
        CliError::NotAuthed(Forge::GitHub, owned(host))
    } else {
        CliError::Other(trim(stderr))
    }
}

/// GitHub's PR state: `MERGED` and `CLOSED`, anything else live.
pub open spec fn state_spec(s: Seq<char>) -> PrState {
    if s == "MERGED"@ {
        PrState::Merged
    } else if s == "CLOSED"@ {
        PrState::Closed
    } else {
        PrState::Open
    }
}

/// GitHub's PR state, defaulting to the live case.
pub fn parse_state(s: &str) -> (st: PrState)
    ensures
        st == state_spec(s@),
{
    if str_eq(s, "MERGED") {
        PrState::Merged
    } else if str_eq(s, "CLOSED") {
        PrState::Closed
    } else {
        PrState::Open
    }
}

/// The actionable merge blockers: a conflict (`CONFLICTING`, or a `DIRTY` merge state) or a
/// `BLOCKED` required gate; everything else folds into `Clean`.
pub open spec fn merge_spec(mergeable: Option<Seq<char>>, state: Option<Seq<char>>) -> Merge {
    if mergeable == Some("CONFLICTING"@) || state == Some("DIRTY"@) {
        Merge::Conflicting
    } else if state == Some("BLOCKED"@) {
        Merge::Blocked
    } else {
        Merge::Clean
    }
}

/// The view of an optional string.
pub open spec fn opt_seq(o: Option<&str>) -> Option<Seq<char>> {
    match o {
        Some(s) => Some(s@),
        None => None,
    }
}

/// Whether an optional string is `lit`.
fn is_some_of(o: Option<&str>, lit: &str) -> (b: bool)
    ensures
        b == (opt_seq(o) == Some(lit@)),
{
    match o {
        Some(s) => str_eq(s, lit),
        None => false,
    }
}

/// Fold GitHub's `mergeable` and `mergeStateStatus` into a [`Merge`].
pub fn derive_merge(mergeable: Option<&str>, state: Option<&str>) -> (m: Merge)
    ensures
        m == merge_spec(opt_seq(mergeable), opt_seq(state)),
{
    if is_some_of(mergeable, "CONFLICTING") || is_some_of(state, "DIRTY") {
        Merge::Conflicting
    } else if is_some_of(state, "BLOCKED") {
        Merge::Blocked
    } else {
        Merge::Clean
    }
}

/// Whether a GitHub login is an app/bot (`...[bot]`).
pub fn is_bot(login: &str) -> (b: bool)
    ensures
        b == has_suffix(login@, "[bot]"@),
{
    ends_with(login, "[bot]")
}

/// The `-f key=value` pairs of the GraphQL variables, in order.
pub open spec fn var_args(vars: Seq<(String, String)>) -> Seq<Seq<char>>
    decreases vars.len(),
{
    if vars.len() == 0 {
        Seq::empty()
    } else {
        var_args(vars.drop_last()) + seq!["-f"@, vars.last().0@ + "="@ + vars.last().1@]
    }
}

/// The `gh api graphql` arguments: always pinned to the canonical host, the query, then every
/// variable as a raw string field.
pub open spec fn graphql_args_spec(host: Seq<char>, query: Seq<char>, vars: Seq<(String, String)>)
    -> Seq<Seq<char>> {
    seq!["api"@, "graphql"@, "--hostname"@, host, "-f"@, "query="@ + query] + var_args(vars)
}

/// The `gh api graphql` arguments for `query` with `vars` against `host`.
pub fn graphql_args(host: &str, query: &str, vars: &[(String, String)]) -> (args: Vec<String>)
    ensures
        views(args@) == graphql_args_spec(host@, query@, vars@),
{
    let mut args: Vec<String> = Vec::new();
    push_string(&mut args, owned("api"));
    push_string(&mut args, owned("graphql"));
    push_string(&mut args, owned("--hostname"));
    push_string(&mut args, owned(host));
    push_string(&mut args, owned("-f"));
    let mut q = owned("query=");
    push_str(&mut q, query);
    push_string(&mut args, q);
    proof {
        assert(views(args@) =~= graphql_args_spec(host@, query@, vars@.take(0)));
    }
    let mut i: usize = 0;
    while i < vars.len()
        invariant
            i <= vars@.len(),
            views(args@) == graphql_args_spec(host@, query@, vars@.take(i as int)),
        decreases vars@.len() - i,
    {
        push_string(&mut args, owned("-f"));
        let mut kv = vars[i].0.clone();
        push_str(&mut kv, "=");
        push_str(&mut kv, vars[i].1.as_str());
        push_string(&mut args, kv);
        proof {
            assert(vars@.take(i + 1).drop_last() =~= vars@.take(i as int));
            assert(views(args@) =~= graphql_args_spec(host@, query@, vars@.take(i + 1)));
        }
        i = i + 1;
    }
    proof {
        assert(vars@.take(vars@.len() as int) =~= vars@);
    }
    args
}

/// One check node's status: a commit status reads its `state`; a check run reads its
/// `status` and, once completed, its `conclusion`.
pub open spec fn check_status_spec(node: Json) -> CheckStatus {
    match str_spec(at_spec(node, "state"@)) {
        Some(state) => if state == "SUCCESS"@ {
            CheckStatus::Success
        } else if state == "FAILURE"@ || state == "ERROR"@ {
            CheckStatus::Failure
        } else {
            CheckStatus::Pending
        },
        None => {
            let status = str_spec(at_spec(node, "status"@));
            if status == Some("COMPLETED"@) {
                let conclusion = str_spec(at_spec(node, "conclusion"@));
                if conclusion == Some("SUCCESS"@) {
                    CheckStatus::Success
                } else if conclusion == Some("SKIPPED"@) || conclusion == Some("NEUTRAL"@) {
                    CheckStatus::Skipped
                } else {
                    CheckStatus::Failure
                }
            } else if status == Some("IN_PROGRESS"@) {
                CheckStatus::Running
            } else {
                CheckStatus::Pending
            }
        },
    }
}

/// Normalise one check node, a check run or a commit status, to a [`CheckStatus`].
pub fn check_status(node: &Json) -> (s: CheckStatus)
    ensures
        s == check_status_spec(*node),
{
    match str_field(node, "state") {
        Some(state) => {
            if str_eq(state, "SUCCESS") {
                CheckStatus::Success
            } else if str_eq(state, "FAILURE") || str_eq(state, "ERROR") {
                CheckStatus::Failure
            } else {
                CheckStatus::Pending
            }
        },
        None => {
            let status = str_field(node, "status");
            if is_some_of(status, "COMPLETED") {
                let conclusion = str_field(node, "conclusion");
                if is_some_of(conclusion, "SUCCESS") {
                    CheckStatus::Success
                } else if is_some_of(conclusion, "SKIPPED") || is_some_of(conclusion, "NEUTRAL") {
                    CheckStatus::Skipped
                } else {
                    CheckStatus::Failure
                }
            } else if is_some_of(status, "IN_PROGRESS") {
                CheckStatus::Running
            } else {
                CheckStatus::Pending
            }
        },
    }
}


/// A check node's name: its `name`, else its `context`, else empty.
pub open spec fn node_name(node: Json) -> Seq<char> {
    match str_spec(at_spec(node, "name"@)) {
        Some(n) => n,
        None => text_of(at_spec(node, "context"@)),
    }
}

/// The checks of a rollup's nodes: one per name, in the order names first appear, each with
/// the status of its last node; unnamed nodes are skipped.
pub open spec fn checks_fold(nodes: Seq<Json>) -> Seq<(Seq<char>, CheckStatus)>
    decreases nodes.len(),
{
    if nodes.len() == 0 {
        Seq::empty()
    } else {
        let prev = checks_fold(nodes.drop_last());
        let name = node_name(nodes.last());
        if name.len() == 0 {
            prev
        } else {
            upsert(prev, name, check_status_spec(nodes.last()))
        }
    }
}

/// The latest run per check name, from check runs and commit statuses.
pub fn normalize_checks(rollup: &Json) -> (out: Vec<Check>)
    ensures
        check_model(out@) == checks_fold(nodes_of(*rollup)),
{
    let mut out: Vec<Check> = Vec::new();
    match rollup.as_array() {
        Some(nodes) => {
            let ghost all = nodes@;
            let mut i: usize = 0;
            while i < nodes.len()
                invariant
                    all == nodes@,
                    i <= all.len(),
                    check_model(out@) == checks_fold(all.take(i as int)),
                decreases all.len() - i,
            {
                proof {
                    assert(all.take(i + 1).drop_last() =~= all.take(i as int));
                }
                let node = &nodes[i];
                let name = match str_field(node, "name") {
                    Some(n) => n,
                    None => text_field(node, "context"),
                };
                if !name.is_empty() {
                    let status = check_status(node);
                    match find_check(&out, name) {
                        Some(k) => {
                            proof {
                                lemma_name_index(check_model(out@), name@, 0);
                            }
                            out.set(k, Check { name: owned(name), status });
                            proof {
                                assert(check_model(out@) =~= checks_fold(all.take(i + 1)));
                            }
                        },
                        None => {
                            out.push(Check { name: owned(name), status });
                            proof {
                                assert(check_model(out@) =~= checks_fold(all.take(i + 1)));
                            }
                        },
                    }
                }
                i = i + 1;
            }
            proof {
                assert(all.take(all.len() as int) =~= all);
            }
        },
        None => {
            proof {
                assert(check_model(out@) =~= checks_fold(nodes_of(*rollup)));
            }
        },
    }
    out
}

/// A review or conversation comment worth a card: its trimmed body is not empty.
pub open spec fn prose_kept(r: Json) -> bool {
    trim_spec(text_of(at_spec(r, "body"@))).len() > 0
}

/// The nodes of a surface that make cards, in order.
pub open spec fn kept_prose(v: Json) -> Seq<Json> {
    nodes_of(v).filter(|r: Json| prose_kept(r))
}

/// How a review (`Review`, at `submittedAt`) or a conversation comment (`Comment`, at
/// `createdAt`) reads: its author's login (a bot when it ends in `[bot]`), the literal anchor
/// `review` or `comment`, the trimmed body, no snippet, nothing resolved, outdated or replied.
pub open spec fn prose_card(kind: CommentKind, r: Json, c: Comment) -> bool {
    let login = text_of(at_spec(at_spec(r, "author"@), "login"@));
    &&& c.kind == kind
    &&& c.author@ == login
    &&& c.author_is_bot == has_suffix(login, "[bot]"@)
    &&& c.anchor@ == (if kind == CommentKind::Review {
        "review"@
    } else {
        "comment"@
    })
    &&& c.body@ == trim_spec(text_of(at_spec(r, "body"@)))
    &&& c.snippet is None
    &&& c.created_at@ == text_of(
        at_spec(r, if kind == CommentKind::Review {
            "submittedAt"@
        } else {
            "createdAt"@
        }),
    )
    &&& !c.is_resolved
    &&& !c.is_outdated
    &&& c.reply_count == 0
}

/// How a review thread reads as a finding: its first comment's author, body (trimmed), post
/// time and non-empty diff hunk; `path:line`; resolved and outdated as flagged; and every
/// comment after the first counted as a reply (a missing total counts the root alone).
pub open spec fn thread_card(t: Json, c: Comment) -> bool {
    let root = idx_spec(at_spec(at_spec(t, "comments"@), "nodes"@), 0);
    let login = text_of(at_spec(at_spec(root, "author"@), "login"@));
    let total = match u64_spec(at_spec(at_spec(t, "comments"@), "totalCount"@)) {
        Some(n) => n as int,
        None => 1,
    };
    &&& c.kind == CommentKind::Finding
    &&& c.author@ == login
    &&& c.author_is_bot == has_suffix(login, "[bot]"@)
    &&& c.anchor@ == finding_anchor(t)
    &&& c.body@ == trim_spec(text_of(at_spec(root, "body"@)))
    &&& match str_spec(at_spec(root, "diffHunk"@)) {
        Some(h) => if h.len() > 0 {
            c.snippet matches Some(x) && x@ == h
        } else {
            c.snippet is None
        },
        None => c.snippet is None,
    }
    &&& c.created_at@ == text_of(at_spec(root, "createdAt"@))
    &&& c.is_resolved == flag_of(at_spec(t, "isResolved"@))
    &&& c.is_outdated == flag_of(at_spec(t, "isOutdated"@))
    &&& c.reply_count == ((if total >= 1 { total - 1 } else { 0 }) as u64) as u32
}

/// Whether `cards` reads the three surfaces in order: the reviews, then the conversation
/// comments, then the review threads.
pub open spec fn cards_from(reviews: Json, issues: Json, threads: Json, cards: Seq<Comment>) -> bool {
    let rs = kept_prose(reviews);
    let cs = kept_prose(issues);
    let ts = nodes_of(threads);
    &&& cards.len() == rs.len() + cs.len() + ts.len()
    &&& forall|i: int| 0 <= i < rs.len() ==> prose_card(CommentKind::Review, rs[i], #[trigger] cards[i])
    &&& forall|i: int|
        0 <= i < cs.len() ==> prose_card(CommentKind::Comment, cs[i], #[trigger] cards[rs.len() + i])
    &&& forall|i: int|
        0 <= i < ts.len() ==> thread_card(ts[i], #[trigger] cards[rs.len() + cs.len() + i])
}

/// Read one prose card.
fn prose_comment(kind: CommentKind, r: &Json) -> (c: Comment)
    requires
        kind != CommentKind::Finding,
    ensures
        prose_card(kind, *r, c),
{
    let login = text_field(member(r, "author"), "login");
    let anchor = if matches!(kind, CommentKind::Review) {
        owned("review")
    } else {
        owned("comment")
    };
    let created = if matches!(kind, CommentKind::Review) {
        text_field(r, "submittedAt")
    } else {
        text_field(r, "createdAt")
    };
    Comment {
        kind,
        author: owned(login),
        author_is_bot: is_bot(login),
        anchor,
        body: trim(text_field(r, "body")),
        snippet: None,
        created_at: owned(created),
        is_resolved: false,
        is_outdated: false,
        reply_count: 0,
    }
}

/// Read one review thread.
fn thread_comment(t: &Json) -> (c: Comment)
    ensures
        thread_card(*t, c),
{
    let comments = member(t, "comments");
    let root = item(member(comments, "nodes"), 0);
    let login = text_field(member(root, "author"), "login");
    let snippet = match str_field(root, "diffHunk") {
        Some(h) => if h.is_empty() {
            None
        } else {
            Some(owned(h))
        },
        None => None,
    };
    let total: u64 = match member(comments, "totalCount").as_u64() {
        Some(n) => n,
        None => 1,
    };
    Comment {
        kind: CommentKind::Finding,
        author: owned(login),
        author_is_bot: is_bot(login),
        anchor: anchor_of(t),
        body: trim(text_field(root, "body")),
        snippet,
        created_at: owned(text_field(root, "createdAt")),
        is_resolved: flag_field(t, "isResolved"),
        is_outdated: flag_field(t, "isOutdated"),
        reply_count: total.saturating_sub(1) as u32,
    }
}

/// Append the cards of one prose surface.
fn push_prose(out: &mut Vec<Comment>, kind: CommentKind, v: &Json)
    requires
        kind != CommentKind::Finding,
    ensures
        final(out)@.len() == old(out)@.len() + kept_prose(*v).len(),
        forall|i: int| 0 <= i < old(out)@.len() ==> final(out)@[i] == old(out)@[i],
        forall|i: int|
            0 <= i < kept_prose(*v).len() ==> prose_card(
                kind,
                #[trigger] kept_prose(*v)[i],
                final(out)@[old(out)@.len() + i],
            ),
{
    let ghost start = out@;
    match v.as_array() {
        Some(nodes) => {
            let ghost all = nodes@;
            let mut i: usize = 0;
            while i < nodes.len()
                invariant
                    all == nodes@,
                    nodes_of(*v) == all,
                    kind != CommentKind::Finding,
                    i <= all.len(),
                    out@.len() == start.len() + all.take(i as int).filter(|r: Json| prose_kept(r)).len(),
                    forall|j: int| 0 <= j < start.len() ==> out@[j] == start[j],
                    forall|j: int|
                        0 <= j < all.take(i as int).filter(|r: Json| prose_kept(r)).len()
                            ==> prose_card(
                            kind,
                            all.take(i as int).filter(|r: Json| prose_kept(r))[j],
                            #[trigger] out@[start.len() + j],
                        ),
                decreases all.len() - i,
            {
                proof {
                    assert(all.take(i + 1) =~= all.take(i as int).push(all[i as int]));
                    all.take(i as int).lemma_filter_push(all[i as int], |r: Json| prose_kept(r));
                }
                let body = trim(text_field(&nodes[i], "body"));
                if !body.as_str().is_empty() {
                    out.push(prose_comment(kind, &nodes[i]));
                }
                i = i + 1;
            }
            proof {
                assert(all.take(all.len() as int) =~= all);
            }
        },
        None => {},
    }
}

/// Merge the three comment surfaces (reviews, conversation comments, review threads) into one
/// newest-first list, keeping only a bot's latest PR-level post and every human's.
pub fn merge_comments(reviews: &Json, issues: &Json, threads: &Json) -> (out: Vec<Comment>)
    ensures
        exists|cards: Seq<Comment>|
            cards_from(*reviews, *issues, *threads, cards) && arranged_newest_first(
                cards.filter(|c: Comment| keeps(cards, c)),
                out@,
            ),
{
    let mut out: Vec<Comment> = Vec::new();
    push_prose(&mut out, CommentKind::Review, reviews);
    let ghost after_reviews = out@;
    push_prose(&mut out, CommentKind::Comment, issues);
    let ghost after_comments = out@;
    match threads.as_array() {
        Some(nodes) => {
            let mut i: usize = 0;
            while i < nodes.len()
                invariant
                    nodes_of(*threads) == nodes@,
                    i <= nodes@.len(),
                    out@.len() == after_comments.len() + i,
                    forall|j: int| 0 <= j < after_comments.len() ==> out@[j] == after_comments[j],
                    forall|j: int|
                        0 <= j < i ==> thread_card(nodes@[j], #[trigger] out@[after_comments.len() + j]),
                decreases nodes@.len() - i,
            {
                out.push(thread_comment(&nodes[i]));
                i = i + 1;
            }
        },
        None => {},
    }
    let ghost cards = out@;
    proof {
        let rs = kept_prose(*reviews);
        let cs = kept_prose(*issues);
        assert forall|i: int| 0 <= i < rs.len() implies prose_card(
            CommentKind::Review,
            rs[i],
            #[trigger] cards[i],
        ) by {
            assert(cards[i] == after_comments[i]);
            assert(after_comments[i] == after_reviews[i]);
        }
        assert forall|i: int| 0 <= i < cs.len() implies prose_card(
            CommentKind::Comment,
            cs[i],
            #[trigger] cards[rs.len() + i],
        ) by {
            assert(cards[rs.len() + i] == after_comments[rs.len() + i]);
        }
        assert(cards_from(*reviews, *issues, *threads, cards));
    }
    dedup_bot_prose(&mut out);
    let sorted = sort_newest_first(out);
    sorted
}

/// Whether a connection reports more rows in the direction it pages.
pub open spec fn has_more(conn: Json) -> bool {
    flag_of(at_spec(at_spec(conn, "pageInfo"@), "hasNextPage"@)) || flag_of(
        at_spec(at_spec(conn, "pageInfo"@), "hasPreviousPage"@),
    )
}

/// The check contexts of a PR node's head commit.
pub open spec fn contexts_of(node: Json) -> Json {
    at_spec(
        at_spec(
            at_spec(idx_spec(at_spec(at_spec(node, "commits"@), "nodes"@), 0), "commit"@),
            "statusCheckRollup"@,
        ),
        "contexts"@,
    )
}

/// The snapshot a PR node assembles into with the computed sync: its identity and text
/// fields, lifecycle (`OPEN` when absent), draft and fork flags, the merge fold, the latest run
/// per check, the merged comment surfaces, and whether any capped surface has more rows.
pub open spec fn snapshot_spec(node: Json, sync: Sync, s: PrSnapshot) -> bool {
    let contexts = contexts_of(node);
    &&& s.forge == Forge::GitHub
    &&& s.number == match u64_spec(at_spec(node, "number"@)) {
        Some(n) => n,
        None => 0,
    }
    &&& s.title@ == text_of(at_spec(node, "title"@))
    &&& s.url@ == text_of(at_spec(node, "url"@))
    &&& s.body@ == text_of(at_spec(node, "body"@))
    &&& s.state == state_spec(
        match str_spec(at_spec(node, "state"@)) {
            Some(t) => t,
            None => "OPEN"@,
        },
    )
    &&& s.is_draft == flag_of(at_spec(node, "isDraft"@))
    &&& s.head_ref@ == text_of(at_spec(node, "headRefName"@))
    &&& s.head_is_fork == flag_of(at_spec(node, "isCrossRepository"@))
    &&& s.base_ref@ == text_of(at_spec(node, "baseRefName"@))
    &&& s.merge == merge_spec(
        str_spec(at_spec(node, "mergeable"@)),
        str_spec(at_spec(node, "mergeStateStatus"@)),
    )
    &&& s.sync == sync
    &&& check_model(s.checks@) == checks_fold(nodes_of(at_spec(contexts, "nodes"@)))
    &&& exists|cards: Seq<Comment>|
        cards_from(
            at_spec(at_spec(node, "reviews"@), "nodes"@),
            at_spec(at_spec(node, "comments"@), "nodes"@),
            at_spec(at_spec(node, "reviewThreads"@), "nodes"@),
            cards,
        ) && arranged_newest_first(cards.filter(|c: Comment| keeps(cards, c)), s.comments@)
    &&& s.truncated == (has_more(contexts) || has_more(at_spec(node, "reviews"@)) || has_more(
        at_spec(node, "comments"@),
    ) || has_more(at_spec(node, "reviewThreads"@)))
}

/// Whether a connection reports more rows.
fn more(conn: &Json) -> (b: bool)
    ensures
        b == has_more(*conn),
{
    let info = member(conn, "pageInfo");
    flag_field(info, "hasNextPage") || flag_field(info, "hasPreviousPage")
}

/// Assemble the snapshot from a PR node and the computed sync.
pub fn build_snapshot(node: &Json, sync: Sync) -> (s: PrSnapshot)
    ensures
        snapshot_spec(*node, sync, s),
{
    let contexts = member(
        member(member(item(member(member(node, "commits"), "nodes"), 0), "commit"), "statusCheckRollup"),
        "contexts",
    );
    let truncated = more(contexts) || more(member(node, "reviews")) || more(member(node, "comments"))
        || more(member(node, "reviewThreads"));
    let state = match str_field(node, "state") {
        Some(t) => parse_state(t),
        None => parse_state("OPEN"),
    };
    PrSnapshot {
        forge: Forge::GitHub,
        number: match member(node, "number").as_u64() {
            Some(n) => n,
            None => 0,
        },
        title: owned(text_field(node, "title")),
        url: owned(text_field(node, "url")),
        body: owned(text_field(node, "body")),
        state,
        is_draft: flag_field(node, "isDraft"),
        head_ref: owned(text_field(node, "headRefName")),
        head_is_fork: flag_field(node, "isCrossRepository"),
        base_ref: owned(text_field(node, "baseRefName")),
        merge: derive_merge(str_field(node, "mergeable"), str_field(node, "mergeStateStatus")),
        sync,
        checks: normalize_checks(member(contexts, "nodes")),
        comments: merge_comments(
            member(member(node, "reviews"), "nodes"),
            member(member(node, "comments"), "nodes"),
            member(member(node, "reviewThreads"), "nodes"),
        ),
        truncated,
    }
}

/// Every `(point, tip name)` pair, by point then name: the point's position, the name's
/// position, and the name.
pub open spec fn name_pairs(points: Seq<PublicationPoint>) -> Seq<(int, int, Seq<char>)>
    decreases points.len(),
{
    if points.len() == 0 {
        Seq::empty()
    } else {
        let i = points.len() - 1;
        name_pairs(points.drop_last()) + Seq::new(
            points[i].names@.len(),
            |j: int| (i, j, points[i].names@[j]@),
        )
    }
}

/// The cap on closed-name lookups in one query.
pub const CLOSED_CAP: usize = 8;

/// The alias text `{prefix}{i}_{j}`.
pub open spec fn pair_alias(prefix: char, i: int, j: int) -> Seq<char> {
    seq![prefix] + decimal(i as nat) + seq!['_'] + decimal(j as nat)
}

/// Whether `out` holds the first eight pairs as `(c{i}_{j}, b{i}_{j}, i, name)`.
pub open spec fn closed_aliases_spec(points: Seq<PublicationPoint>, out: Seq<(String, String, usize, String)>) -> bool {
    let pairs = name_pairs(points);
    &&& out.len() == if pairs.len() < 8 {
        pairs.len()
    } else {
        8
    }
    &&& forall|q: int|
        0 <= q < out.len() ==> {
            let (i, j, name) = #[trigger] pairs[q];
            &&& out[q].0@ == pair_alias('c', i, j)
            &&& out[q].1@ == pair_alias('b', i, j)
            &&& out[q].2 == i
            &&& out[q].3@ == name
        }
}

/// The alias text for a pair.
fn alias_text(prefix: char, i: usize, j: usize) -> (out: String)
    ensures
        out@ == pair_alias(prefix, i as int, j as int),
{
    let mut out = String::new();
    push_char(&mut out, prefix);
    push_u64(&mut out, i as u64);
    push_char(&mut out, '_');
    push_u64(&mut out, j as u64);
    proof {
        assert(out@ =~= pair_alias(prefix, i as int, j as int));
    }
    out
}

/// `name_pairs` over the first `k` points.
proof fn lemma_pairs_take(points: Seq<PublicationPoint>, k: int)
    requires
        0 <= k < points.len(),
    ensures
        name_pairs(points.take(k + 1)) == name_pairs(points.take(k)) + Seq::new(
            points[k].names@.len(),
            |j: int| (k, j, points[k].names@[j]@),
        ),
{
    assert(points.take(k + 1).drop_last() =~= points.take(k));
}

/// The closed-name lookups for the publication points: one per `(point, tip name)` pair, in
/// order, capped at eight, each with its query alias and variable name.
pub fn closed_aliases(points: &[PublicationPoint]) -> (out: Vec<(String, String, usize, String)>)
    ensures
        closed_aliases_spec(points@, out@),
{
    let mut out: Vec<(String, String, usize, String)> = Vec::new();
    let ghost mut done: Seq<(int, int, Seq<char>)> = Seq::empty();
    let mut i: usize = 0;
    while i < points.len() && out.len() < CLOSED_CAP
        invariant
            i <= points@.len(),
            done == name_pairs(points@.take(i as int)),
            out@.len() == if done.len() < 8 { done.len() } else { 8 },
            forall|q: int|
                0 <= q < out@.len() ==> {
                    let (pi, pj, name) = #[trigger] done[q];
                    &&& out@[q].0@ == pair_alias('c', pi, pj)
                    &&& out@[q].1@ == pair_alias('b', pi, pj)
                    &&& out@[q].2 == pi
                    &&& out@[q].3@ == name
                },
        decreases points@.len() - i,
    {
        let names = &points[i].names;
        proof {
            lemma_pairs_take(points@, i as int);
        }
        let ghost next = done + Seq::new(names@.len(), |j: int| (i as int, j, names@[j]@));
        let mut j: usize = 0;
        while j < names.len() && out.len() < CLOSED_CAP
            invariant
                names@ == points@[i as int].names@,
                j <= names@.len(),
                next == done + Seq::new(names@.len(), |q: int| (i as int, q, names@[q]@)),
                done.len() < 8 ==> out@.len() == if done.len() + j < 8 { done.len() + j } else { 8 },
                done.len() >= 8 ==> out@.len() == 8,
                out@.len() <= 8,
                forall|q: int|
                    0 <= q < out@.len() ==> {
                        let (pi, pj, name) = #[trigger] next[q];
                        &&& out@[q].0@ == pair_alias('c', pi, pj)
                        &&& out@[q].1@ == pair_alias('b', pi, pj)
                        &&& out@[q].2 == pi
                        &&& out@[q].3@ == name
                    },
            decreases names@.len() - j,
        {
            out.push((alias_text('c', i, j), alias_text('b', i, j), i, names[j].clone()));
            j = j + 1;
        }
        proof {
            done = next;
        }
        i = i + 1;
    }
    proof {
        if i < points@.len() {
            // The cap was reached: later pairs only extend beyond it.
            let all = name_pairs(points@);
            lemma_pairs_prefix(points@, i as int);
            assert forall|q: int| 0 <= q < out@.len() implies all[q] == done[q] by {}
        } else {
            assert(points@.take(points@.len() as int) =~= points@);
        }
    }
    out
}

/// The pairs of a prefix of the points are a prefix of all the pairs.
proof fn lemma_pairs_prefix(points: Seq<PublicationPoint>, k: int)
    requires
        0 <= k <= points.len(),
    ensures
        name_pairs(points.take(k)).len() <= name_pairs(points).len(),
        forall|q: int|
            0 <= q < name_pairs(points.take(k)).len() ==> #[trigger] name_pairs(points)[q]
                == name_pairs(points.take(k))[q],
    decreases points.len() - k,
{
    if k < points.len() {
        lemma_pairs_prefix(points, k + 1);
        lemma_pairs_take(points, k);
    } else {
        assert(points.take(k) =~= points);
    }
}

/// The declarations of the first `n` commit variables: `,$p{i}:GitObjectID!` each.
pub open spec fn oid_decls(n: nat) -> Seq<char>
    decreases n,
{
    if n == 0 {
        Seq::empty()
    } else {
        oid_decls((n - 1) as nat) + ",$p"@ + decimal((n - 1) as nat) + ":GitObjectID!"@
    }
}

/// The association block of the first `n` commits.
pub open spec fn object_blocks(n: nat) -> Seq<char>
    decreases n,
{
    if n == 0 {
        Seq::empty()
    } else {
        let i = decimal((n - 1) as nat);
        object_blocks((n - 1) as nat) + "p"@ + i + ":object(oid:$p"@ + i
            + "){... on Commit{associatedPullRequests(first:100){nodes{number state headRefOid headRefName createdAt mergedAt baseRepository{id}}}}} "@
    }
}

/// The declarations of the closed-name variables: `,${var}:String!` each.
pub open spec fn name_decls(closed: Seq<(String, String, usize, String)>) -> Seq<char>
    decreases closed.len(),
{
    if closed.len() == 0 {
        Seq::empty()
    } else {
        name_decls(closed.drop_last()) + ",$"@ + closed.last().1@ + ":String!"@
    }
}

/// The closed-name lookups against the target.
pub open spec fn closed_blocks(closed: Seq<(String, String, usize, String)>) -> Seq<char>
    decreases closed.len(),
{
    if closed.len() == 0 {
        Seq::empty()
    } else {
        closed_blocks(closed.drop_last()) + closed.last().0@ + ":pullRequests(headRefName:$"@
            + closed.last().1@
            + ", states:[CLOSED], first:10, orderBy:{field:CREATED_AT, direction:DESC}){nodes{number headRefOid headRefName createdAt}} "@
    }
}

/// The aliased association query: one `object` lookup per nominated commit against the source
/// repository, and one closed-PR lookup per closed name against the target, whose block always
/// carries `id`. Values ride as variables, never in the query text.
pub open spec fn association_query_spec(oids: nat, closed: Seq<(String, String, usize, String)>) -> Seq<char> {
    "query($so:String!,$sn:String!,$to:String!,$tn:String!"@ + oid_decls(oids) + name_decls(closed)
        + "){src:repository(owner:$so,name:$sn){"@ + object_blocks(oids)
        + "} tgt:repository(owner:$to,name:$tn){id "@ + closed_blocks(closed) + "}}"@
}

/// Build the aliased association query for `oids` commits and the closed-name lookups.
pub fn build_association_query(oids: usize, closed: &[(String, String, usize, String)]) -> (q: String)
    ensures
        q@ == association_query_spec(oids as nat, closed@),
{
    let mut q = owned("query($so:String!,$sn:String!,$to:String!,$tn:String!");
    let ghost head = q@;
    let mut i: usize = 0;
    while i < oids
        invariant
            i <= oids,
            q@ == head + oid_decls(i as nat),
        decreases oids - i,
    {
        push_str(&mut q, ",$p");
        push_u64(&mut q, i as u64);
        push_str(&mut q, ":GitObjectID!");
        i = i + 1;
        proof {
            assert(q@ =~= head + oid_decls(i as nat));
        }
    }
    let ghost with_oids = q@;
    let mut k: usize = 0;
    while k < closed.len()
        invariant
            k <= closed@.len(),
            q@ == with_oids + name_decls(closed@.take(k as int)),
        decreases closed@.len() - k,
    {
        push_str(&mut q, ",$");
        push_str(&mut q, closed[k].1.as_str());
        push_str(&mut q, ":String!");
        k = k + 1;
        proof {
            assert(closed@.take(k as int).drop_last() =~= closed@.take(k - 1));
            assert(q@ =~= with_oids + name_decls(closed@.take(k as int)));
        }
    }
    proof {
        assert(closed@.take(closed@.len() as int) =~= closed@);
    }
    push_str(&mut q, "){src:repository(owner:$so,name:$sn){");
    let ghost before_blocks = q@;
    let mut i: usize = 0;
    while i < oids
        invariant
            i <= oids,
            q@ == before_blocks + object_blocks(i as nat),
        decreases oids - i,
    {
        push_str(&mut q, "p");
        push_u64(&mut q, i as u64);
        push_str(&mut q, ":object(oid:$p");
        push_u64(&mut q, i as u64);
        push_str(
            &mut q,
            "){... on Commit{associatedPullRequests(first:100){nodes{number state headRefOid headRefName createdAt mergedAt baseRepository{id}}}}} ",
        );
        i = i + 1;
        proof {
            assert(q@ =~= before_blocks + object_blocks(i as nat));
        }
    }
    push_str(&mut q, "} tgt:repository(owner:$to,name:$tn){id ");
    let ghost before_closed = q@;
    let mut k: usize = 0;
    while k < closed.len()
        invariant
            k <= closed@.len(),
            q@ == before_closed + closed_blocks(closed@.take(k as int)),
        decreases closed@.len() - k,
    {
        push_str(&mut q, closed[k].0.as_str());
        push_str(&mut q, ":pullRequests(headRefName:$");
        push_str(&mut q, closed[k].1.as_str());
        push_str(
            &mut q,
            ", states:[CLOSED], first:10, orderBy:{field:CREATED_AT, direction:DESC}){nodes{number headRefOid headRefName createdAt}} ",
        );
        k = k + 1;
        proof {
            assert(closed@.take(k as int).drop_last() =~= closed@.take(k - 1));
            assert(q@ =~= before_closed + closed_blocks(closed@.take(k as int)));
        }
    }
    push_str(&mut q, "}}");
    proof {
        assert(closed@.take(closed@.len() as int) =~= closed@);
        assert(q@ =~= association_query_spec(oids as nat, closed@));
    }
    q
}

/// The target repository's node id in an association response.
pub open spec fn target_id(v: Json) -> Seq<char> {
    text_of(at_spec(at_spec(at_spec(v, "data"@), "tgt"@), "id"@))
}

/// The PRs associated with commit alias `p{i}` in the source block.
pub open spec fn src_nodes(v: Json, i: nat) -> Seq<Json> {
    nodes_of(
        at_spec(
            at_spec(at_spec(at_spec(at_spec(v, "data"@), "src"@), "p"@ + decimal(i)), "associatedPullRequests"@),
            "nodes"@,
        ),
    )
}

/// The PRs a closed-name alias found in the target block.
pub open spec fn tgt_nodes(v: Json, alias: Seq<char>) -> Seq<Json> {
    nodes_of(at_spec(at_spec(at_spec(at_spec(v, "data"@), "tgt"@), alias), "nodes"@))
}

/// A PR node based on the target repository (by node id, which survives renames).
pub open spec fn based_on_target(v: Json, node: Json) -> bool {
    let base = text_of(at_spec(at_spec(node, "baseRepository"@), "id"@));
    base.len() > 0 && base == target_id(v)
}

/// A PR node that carries a number.
pub open spec fn numbered(node: Json) -> bool {
    u64_spec(at_spec(node, "number"@)) is Some
}

/// A PR node's head commit.
pub open spec fn node_head(node: Json) -> Seq<char> {
    text_of(at_spec(node, "headRefOid"@))
}

/// Whether `oid` is one of the absorbed candidates.
pub open spec fn absorbed_has(absorbed: Seq<String>, oid: Seq<char>) -> bool {
    exists|k: int| 0 <= k < absorbed.len() && (#[trigger] absorbed[k])@ == oid
}

/// Whether alias `p{i}`'s node lands in `bucket` (0 open, 1 merged). Aliases run points, then
/// absorbed candidates, then the pinned head. Only PRs based on the target and carrying a
/// number count. An absorbed alias admits only a merged PR whose head is an absorbed commit;
/// the head alias only a PR whose head is exactly the pinned head; otherwise an open PR is open
/// and a merged one merged.
pub open spec fn admits(
    v: Json,
    points: nat,
    absorbed: Seq<String>,
    head: Option<Seq<char>>,
    i: nat,
    node: Json,
    bucket: int,
) -> bool {
    let state = str_spec(at_spec(node, "state"@));
    &&& based_on_target(v, node)
    &&& numbered(node)
    &&& if points <= i < points + absorbed.len() {
        bucket == 1 && absorbed_has(absorbed, node_head(node)) && state == Some("MERGED"@)
    } else {
        &&& (i >= points + absorbed.len() ==> head == Some(node_head(node)))
        &&& ((bucket == 0 && state == Some("OPEN"@)) || (bucket == 1 && state == Some(
            "MERGED"@,
        )))
    }
}

/// The admitted nodes of `bucket` from the first `n` aliases, in order.
pub open spec fn admitted_upto(
    v: Json,
    points: nat,
    absorbed: Seq<String>,
    head: Option<Seq<char>>,
    n: nat,
    bucket: int,
) -> Seq<Json>
    decreases n,
{
    if n == 0 {
        Seq::empty()
    } else {
        admitted_upto(v, points, absorbed, head, (n - 1) as nat, bucket) + src_nodes(
            v,
            (n - 1) as nat,
        ).filter(|node: Json| admits(v, points, absorbed, head, (n - 1) as nat, node, bucket))
    }
}

/// The nodes of closed lookup `q`: numbered, and headed exactly at its point's tip.
pub open spec fn closed_hits(v: Json, points: Seq<PublicationPoint>, c: (String, String, usize, String)) -> Seq<Json> {
    tgt_nodes(v, c.0@).filter(
        |node: Json| numbered(node) && node_head(node) == points[c.2 as int].oid@,
    )
}

/// The closed hits of the first `n` lookups, in order.
pub open spec fn closed_upto(v: Json, points: Seq<PublicationPoint>, closed: Seq<(String, String, usize, String)>, n: int) -> Seq<Json>
    decreases n,
{
    if n <= 0 {
        Seq::empty()
    } else {
        closed_upto(v, points, closed, n - 1) + closed_hits(v, points, closed[n - 1])
    }
}

/// The number a PR node carries.
pub open spec fn node_number(node: Json) -> u64 {
    u64_spec(at_spec(node, "number"@))->0
}

/// `nodes` with each number kept at its first occurrence.
pub open spec fn dedup_numbers(nodes: Seq<Json>) -> Seq<Json>
    decreases nodes.len(),
{
    if nodes.len() == 0 {
        Seq::empty()
    } else {
        let prev = dedup_numbers(nodes.drop_last());
        if exists|k: int| 0 <= k < prev.len() && node_number(#[trigger] prev[k]) == node_number(
            nodes.last(),
        ) {
            prev
        } else {
            prev.push(nodes.last())
        }
    }
}

/// How a PR node reads as an association entry.
pub open spec fn assoc_entry(node: Json, pr: AssocPr) -> bool {
    &&& numbered(node)
    &&& pr.number == node_number(node)
    &&& pr.head_oid@ == node_head(node)
    &&& pr.head_ref@ == text_of(at_spec(node, "headRefName"@))
    &&& pr.merged_at@ == text_of(at_spec(node, "mergedAt"@))
    &&& pr.created_at@ == text_of(at_spec(node, "createdAt"@))
}

/// Whether a bucket reads `nodes`, position by position.
pub open spec fn bucket_reads(bucket: Seq<AssocPr>, nodes: Seq<Json>) -> bool {
    bucket.len() == nodes.len() && forall|k: int|
        0 <= k < bucket.len() ==> assoc_entry(nodes[k], #[trigger] bucket[k])
}

/// Read a numbered PR node.
fn pr_of(node: &Json) -> (pr: Option<AssocPr>)
    ensures
        match pr {
            Some(p) => assoc_entry(*node, p),
            None => !numbered(*node),
        },
{
    match member(node, "number").as_u64() {
        Some(number) => Some(
            AssocPr {
                number,
                head_oid: owned(text_field(node, "headRefOid")),
                head_ref: owned(text_field(node, "headRefName")),
                merged_at: owned(text_field(node, "mergedAt")),
                created_at: owned(text_field(node, "createdAt")),
            },
        ),
        None => None,
    }
}

/// Push `pr`, read from `node`, unless its number is already in the bucket.
fn add_entry(bucket: &mut Vec<AssocPr>, pr: AssocPr, Ghost(nodes): Ghost<Seq<Json>>, Ghost(node): Ghost<Json>)
    requires
        bucket_reads(old(bucket)@, dedup_numbers(nodes)),
        assoc_entry(node, pr),
    ensures
        bucket_reads(final(bucket)@, dedup_numbers(nodes.push(node))),
{
    proof {
        assert(nodes.push(node).drop_last() =~= nodes);
        let prev = dedup_numbers(nodes);
        if exists|k: int| 0 <= k < prev.len() && node_number(#[trigger] prev[k]) == node_number(node) {
            let k = choose|k: int| 0 <= k < prev.len() && node_number(#[trigger] prev[k]) == node_number(node);
            assert(old(bucket)@[k].number == pr.number);
        } else {
            assert forall|k: int| 0 <= k < old(bucket)@.len() implies (#[trigger] old(bucket)@[k]).number != pr.number by {
                assert(assoc_entry(prev[k], old(bucket)@[k]));
            }
        }
    }
    push_unique(bucket, pr);
}

/// Whether `oid` is an absorbed candidate.
fn absorbed_contains(absorbed: &[String], oid: &str) -> (b: bool)
    ensures
        b == absorbed_has(absorbed@, oid@),
{
    let mut k: usize = 0;
    while k < absorbed.len()
        invariant
            k <= absorbed@.len(),
            forall|q: int| 0 <= q < k ==> absorbed@[q]@ != oid@,
        decreases absorbed@.len() - k,
    {
        if str_eq(absorbed[k].as_str(), oid) {
            return true;
        }
        k = k + 1;
    }
    false
}

/// One more element through a filter, after a fixed prefix.
proof fn lemma_filter_step(a: Seq<Json>, s: Seq<Json>, j: int, p: spec_fn(Json) -> bool)
    requires
        0 <= j < s.len(),
    ensures
        a + s.take(j + 1).filter(p) == if p(s[j]) {
            (a + s.take(j).filter(p)).push(s[j])
        } else {
            a + s.take(j).filter(p)
        },
{
    assert(s.take(j + 1) =~= s.take(j).push(s[j]));
    s.take(j).lemma_filter_push(s[j], p);
    if p(s[j]) {
        assert(a + s.take(j).filter(p).push(s[j]) =~= (a + s.take(j).filter(p)).push(s[j]));
    }
}

/// The whole of `s` through a filter.
proof fn lemma_filter_all(a: Seq<Json>, s: Seq<Json>, p: spec_fn(Json) -> bool)
    ensures
        a + s.take(s.len() as int).filter(p) == a + s.filter(p),
{
    assert(s.take(s.len() as int) =~= s);
}

/// The commit alias `p{i}`.
fn commit_alias(i: usize) -> (out: String)
    ensures
        out@ == "p"@ + decimal(i as nat),
{
    let mut out = owned("p");
    push_u64(&mut out, i as u64);
    out
}

/// Split the association response by lifecycle: alias by alias, the open and merged PRs each
/// alias admits (see [`admits`]), then the closed lookups' exact-head hits; each bucket keeps
/// a PR number at its first occurrence.
pub fn parse_association(
    v: &Json,
    points: &[PublicationPoint],
    absorbed: &[String],
    head: Option<&str>,
    closed: &[(String, String, usize, String)],
) -> (a: Association)
    requires
        forall|q: int| 0 <= q < closed@.len() ==> (#[trigger] closed@[q]).2 < points@.len(),
        points@.len() + absorbed@.len() < usize::MAX,
    ensures
        ({
            let n = points@.len() + absorbed@.len() + if head is Some { 1nat } else { 0nat };
            &&& bucket_reads(
                a.open@,
                dedup_numbers(admitted_upto(*v, points@.len(), absorbed@, opt_seq(head), n, 0)),
            )
            &&& bucket_reads(
                a.merged@,
                dedup_numbers(admitted_upto(*v, points@.len(), absorbed@, opt_seq(head), n, 1)),
            )
            &&& bucket_reads(
                a.closed@,
                dedup_numbers(closed_upto(*v, points@, closed@, closed@.len() as int)),
            )
        }),
{
    let ghost np = points@.len();
    let ghost hd = opt_seq(head);
    proof {
        reveal_strlit("OPEN");
        reveal_strlit("MERGED");
    }
    let target = text_field(member(member(v, "data"), "tgt"), "id");
    let src = member(member(v, "data"), "src");
    let mut open: Vec<AssocPr> = Vec::new();
    let mut merged: Vec<AssocPr> = Vec::new();
    let n = points.len() + absorbed.len() + if head.is_some() { 1 } else { 0 };
    let mut i: usize = 0;
    while i < n
        invariant
            np == points@.len(),
            hd == opt_seq(head),
            n == points@.len() + absorbed@.len() + if head is Some { 1nat } else { 0nat },
            target@ == target_id(*v),
            *src == at_spec(at_spec(*v, "data"@), "src"@),
            i <= n,
            bucket_reads(open@, dedup_numbers(admitted_upto(*v, np, absorbed@, hd, i as nat, 0))),
            bucket_reads(merged@, dedup_numbers(admitted_upto(*v, np, absorbed@, hd, i as nat, 1))),
        decreases n - i,
    {
        let from_absorbed = i >= points.len() && i < points.len() + absorbed.len();
        let from_head = i >= points.len() + absorbed.len();
        let alias = commit_alias(i);
        let nodes_value = member(member(member(src, alias.as_str()), "associatedPullRequests"), "nodes");
        let ghost s = src_nodes(*v, i as nat);
        let ghost p0 = |node: Json| admits(*v, np, absorbed@, hd, i as nat, node, 0);
        let ghost p1 = |node: Json| admits(*v, np, absorbed@, hd, i as nat, node, 1);
        let ghost a0 = admitted_upto(*v, np, absorbed@, hd, i as nat, 0);
        let ghost a1 = admitted_upto(*v, np, absorbed@, hd, i as nat, 1);
        match nodes_value.as_array() {
            Some(nodes) => {
                assert(nodes@ == s);
                let mut j: usize = 0;
                while j < nodes.len()
                    invariant
                        nodes@ == s,
                        np == points@.len(),
                        hd == opt_seq(head),
                        target@ == target_id(*v),
                        i < n,
                        n == points@.len() + absorbed@.len() + if head is Some { 1nat } else { 0nat },
                        from_absorbed == (np <= i < np + absorbed@.len()),
                        from_head == (i >= np + absorbed@.len()),
                        p0 == (|node: Json| admits(*v, np, absorbed@, hd, i as nat, node, 0)),
                        p1 == (|node: Json| admits(*v, np, absorbed@, hd, i as nat, node, 1)),
                        j <= s.len(),
                        bucket_reads(open@, dedup_numbers(a0 + s.take(j as int).filter(p0))),
                        bucket_reads(merged@, dedup_numbers(a1 + s.take(j as int).filter(p1))),
                    decreases s.len() - j,
                {
                    let node = &nodes[j];
                    proof {
                        reveal_strlit("OPEN");
                        reveal_strlit("MERGED");
                        lemma_filter_step(a0, s, j as int, p0);
                        lemma_filter_step(a1, s, j as int, p1);
                    }
                    let base = text_field(member(node, "baseRepository"), "id");
                    if !base.is_empty() && str_eq(base, target) {
                        match pr_of(node) {
                            Some(pr) => {
                                let state = str_field(node, "state");
                                let is_open = match state {
                                    Some(t) => str_eq(t, "OPEN"),
                                    None => false,
                                };
                                let is_merged = match state {
                                    Some(t) => str_eq(t, "MERGED"),
                                    None => false,
                                };
                                if from_absorbed {
                                    if absorbed_contains(absorbed, pr.head_oid.as_str()) && is_merged {
                                        add_entry(
                                            &mut merged,
                                            pr,
                                            Ghost(a1 + s.take(j as int).filter(p1)),
                                            Ghost(s[j as int]),
                                        );
                                    }
                                } else if from_head && !(match head {
                                    Some(h) => str_eq(h, pr.head_oid.as_str()),
                                    None => false,
                                }) {
                                } else if is_open {
                                    assert("OPEN"@.len() != "MERGED"@.len());
                                    add_entry(
                                        &mut open,
                                        pr,
                                        Ghost(a0 + s.take(j as int).filter(p0)),
                                        Ghost(s[j as int]),
                                    );
                                } else if is_merged {
                                    add_entry(
                                        &mut merged,
                                        pr,
                                        Ghost(a1 + s.take(j as int).filter(p1)),
                                        Ghost(s[j as int]),
                                    );
                                }
                            },
                            None => {},
                        }
                    }
                    j = j + 1;
                }
                proof {
                    lemma_filter_all(a0, s, p0);
                    lemma_filter_all(a1, s, p1);
                }
            },
            None => {
                proof {
                    assert(s =~= Seq::<Json>::empty());
                    assert(s.filter(p0) =~= Seq::<Json>::empty());
                    assert(s.filter(p1) =~= Seq::<Json>::empty());
                    assert(a0 + s.filter(p0) =~= a0);
                    assert(a1 + s.filter(p1) =~= a1);
                }
            },
        }
        i = i + 1;
    }
    let tgt = member(member(v, "data"), "tgt");
    let mut closed_bucket: Vec<AssocPr> = Vec::new();
    let mut q: usize = 0;
    while q < closed.len()
        invariant
            forall|k: int| 0 <= k < closed@.len() ==> (#[trigger] closed@[k]).2 < points@.len(),
            *tgt == at_spec(at_spec(*v, "data"@), "tgt"@),
            q <= closed@.len(),
            bucket_reads(closed_bucket@, dedup_numbers(closed_upto(*v, points@, closed@, q as int))),
        decreases closed@.len() - q,
    {
        let c = &closed[q];
        let ghost s = tgt_nodes(*v, c.0@);
        let ghost cp = |node: Json| numbered(node) && node_head(node) == points@[c.2 as int].oid@;
        let ghost base = closed_upto(*v, points@, closed@, q as int);
        assert(closed_hits(*v, points@, closed@[q as int]) == s.filter(cp));
        match member(member(tgt, c.0.as_str()), "nodes").as_array() {
            Some(nodes) => {
                let mut j: usize = 0;
                while j < nodes.len()
                    invariant
                        nodes@ == s,
                        c.2 < points@.len(),
                        cp == (|node: Json| numbered(node) && node_head(node) == points@[c.2 as int].oid@),
                        j <= s.len(),
                        bucket_reads(closed_bucket@, dedup_numbers(base + s.take(j as int).filter(cp))),
                    decreases s.len() - j,
                {
                    proof {
                        lemma_filter_step(base, s, j as int, cp);
                    }
                    match pr_of(&nodes[j]) {
                        Some(pr) => {
                            if str_eq(pr.head_oid.as_str(), points[c.2].oid.as_str()) {
                                add_entry(
                                    &mut closed_bucket,
                                    pr,
                                    Ghost(base + s.take(j as int).filter(cp)),
                                    Ghost(s[j as int]),
                                );
                            }
                        },
                        None => {},
                    }
                    j = j + 1;
                }
                proof {
                    lemma_filter_all(base, s, cp);
                }
            },
            None => {
                proof {
                    assert(s =~= Seq::<Json>::empty());
                    assert(s.filter(cp) =~= Seq::<Json>::empty());
                    assert(base + s.filter(cp) =~= base);
                }
            },
        }
        q = q + 1;
    }
    Association { open, merged, closed: closed_bucket }
}

/// The commits an association query nominates, in alias order: every publication point's
/// tip, then the absorbed candidates, then the pinned head.
pub open spec fn nominated_oids(points: Seq<PublicationPoint>, absorbed: Seq<String>, head: Option<Seq<char>>) -> Seq<Seq<char>> {
    Seq::new(points.len(), |i: int| points[i].oid@) + Seq::new(absorbed.len(), |i: int| absorbed[i]@)
        + match head {
        Some(h) => seq![h],
        None => Seq::empty(),
    }
}

/// The GraphQL variables of an association query: the source and target repositories, one
/// `p{i}` per nominated commit, and each closed-name variable with its name.
pub open spec fn association_vars_spec(
    source: RepoTarget,
    target_owner: Seq<char>,
    target_name: Seq<char>,
    points: Seq<PublicationPoint>,
    absorbed: Seq<String>,
    head: Option<Seq<char>>,
    closed: Seq<(String, String, usize, String)>,
) -> Seq<(Seq<char>, Seq<char>)> {
    let oids = nominated_oids(points, absorbed, head);
    seq![("so"@, source.owner@), ("sn"@, source.name@), ("to"@, target_owner), ("tn"@, target_name)]
        + Seq::new(oids.len(), |i: int| ("p"@ + decimal(i as nat), oids[i])) + Seq::new(
        closed.len(),
        |q: int| (closed[q].1@, closed[q].3@),
    )
}

/// The name/value views of a variable list.
pub open spec fn pair_views(vars: Seq<(String, String)>) -> Seq<(Seq<char>, Seq<char>)> {
    Seq::new(vars.len(), |i: int| (vars[i].0@, vars[i].1@))
}

/// Append one variable.
fn push_var(vars: &mut Vec<(String, String)>, key: String, value: String)
    ensures
        pair_views(final(vars)@) == pair_views(old(vars)@).push((key@, value@)),
{
    vars.push((key, value));
    proof {
        assert(pair_views(final(vars)@) =~= pair_views(old(vars)@).push((key@, value@)));
    }
}

/// The variables of an association query.
pub fn association_vars(
    source: &RepoTarget,
    target_owner: &str,
    target_name: &str,
    points: &[PublicationPoint],
    absorbed: &[String],
    head: Option<&str>,
    closed: &[(String, String, usize, String)],
) -> (vars: Vec<(String, String)>)
    requires
        points@.len() + absorbed@.len() < usize::MAX,
    ensures
        pair_views(vars@) == association_vars_spec(
            *source,
            target_owner@,
            target_name@,
            points@,
            absorbed@,
            opt_seq(head),
            closed@,
        ),
{
    let ghost oids = nominated_oids(points@, absorbed@, opt_seq(head));
    let mut vars: Vec<(String, String)> = Vec::new();
    push_var(&mut vars, owned("so"), owned(source.owner.as_str()));
    push_var(&mut vars, owned("sn"), owned(source.name.as_str()));
    push_var(&mut vars, owned("to"), owned(target_owner));
    push_var(&mut vars, owned("tn"), owned(target_name));
    let ghost fixed = pair_views(vars@);
    let n = points.len() + absorbed.len() + if head.is_some() { 1 } else { 0 };
    assert(oids.len() == n);
    let mut i: usize = 0;
    while i < n
        invariant
            i <= n,
            n == oids.len(),
            oids == nominated_oids(points@, absorbed@, opt_seq(head)),
            pair_views(vars@) == fixed + Seq::new(i as nat, |k: int| ("p"@ + decimal(k as nat), oids[k])),
        decreases n - i,
    {
        let oid = if i < points.len() {
            owned(points[i].oid.as_str())
        } else if i < points.len() + absorbed.len() {
            owned(absorbed[i - points.len()].as_str())
        } else {
            match head {
                Some(h) => owned(h),
                None => String::new(),
            }
        };
        assert(oid@ == oids[i as int]);
        push_var(&mut vars, commit_alias(i), oid);
        i = i + 1;
        proof {
            assert(pair_views(vars@) =~= fixed + Seq::new(
                i as nat,
                |k: int| ("p"@ + decimal(k as nat), oids[k]),
            ));
        }
    }
    let ghost with_oids = pair_views(vars@);
    let mut q: usize = 0;
    while q < closed.len()
        invariant
            q <= closed@.len(),
            pair_views(vars@) == with_oids + Seq::new(q as nat, |k: int| (closed@[k].1@, closed@[k].3@)),
        decreases closed@.len() - q,
    {
        push_var(&mut vars, owned(closed[q].1.as_str()), owned(closed[q].3.as_str()));
        q = q + 1;
        proof {
            assert(pair_views(vars@) =~= with_oids + Seq::new(
                q as nat,
                |k: int| (closed@[k].1@, closed@[k].3@),
            ));
        }
    }
    proof {
        assert(pair_views(vars@) =~= association_vars_spec(
            *source,
            target_owner@,
            target_name@,
            points@,
            absorbed@,
            opt_seq(head),
            closed@,
        ));
    }
    vars
}

/// A commit status (a node with a text `state`) is a success when its state is `SUCCESS`, a
/// failure when it is `FAILURE` or `ERROR`, and pending for any other state.
pub proof fn law_commit_status_states(node: Json)
    requires
        str_spec(at_spec(node, "state"@)) is Some,
    ensures
        ({
            let state = str_spec(at_spec(node, "state"@))->0;
            &&& (check_status_spec(node) == CheckStatus::Success) <==> state == "SUCCESS"@
            &&& (check_status_spec(node) == CheckStatus::Failure) <==> (state == "FAILURE"@ || state
                == "ERROR"@)
            &&& (check_status_spec(node) == CheckStatus::Pending) <==> !(state == "SUCCESS"@ || state
                == "FAILURE"@ || state == "ERROR"@)
        }),
{
    reveal_strlit("SUCCESS");
    reveal_strlit("FAILURE");
    reveal_strlit("ERROR");
    assert("ERROR"@.len() != "SUCCESS"@.len());
    assert("FAILURE"@[0] != "SUCCESS"@[0]);
}

/// A check run (a node without a text `state`) that completed is a success on `SUCCESS`,
/// skipped on `SKIPPED` or `NEUTRAL`, and a failure on any other conclusion or none; one in
/// progress is running; any other is pending.
pub proof fn law_check_run_statuses(node: Json)
    requires
        str_spec(at_spec(node, "state"@)) is None,
    ensures
        ({
            let status = str_spec(at_spec(node, "status"@));
            let conclusion = str_spec(at_spec(node, "conclusion"@));
            &&& status == Some("COMPLETED"@) ==> ((check_status_spec(node) == CheckStatus::Success)
                <==> conclusion == Some("SUCCESS"@))
            &&& status == Some("COMPLETED"@) ==> ((check_status_spec(node) == CheckStatus::Skipped)
                <==> (conclusion == Some("SKIPPED"@) || conclusion == Some("NEUTRAL"@)))
            &&& status == Some("COMPLETED"@) ==> ((check_status_spec(node) == CheckStatus::Failure)
                <==> !(conclusion == Some("SUCCESS"@) || conclusion == Some("SKIPPED"@) || conclusion
                == Some("NEUTRAL"@)))
            &&& status == Some("IN_PROGRESS"@) ==> check_status_spec(node) == CheckStatus::Running
            &&& !(status == Some("COMPLETED"@) || status == Some("IN_PROGRESS"@)) ==> check_status_spec(
                node,
            ) == CheckStatus::Pending
        }),
{
    reveal_strlit("COMPLETED");
    reveal_strlit("IN_PROGRESS");
    reveal_strlit("SUCCESS");
    reveal_strlit("SKIPPED");
    reveal_strlit("NEUTRAL");
    assert("IN_PROGRESS"@.len() != "COMPLETED"@.len());
    assert("SKIPPED"@[1] != "SUCCESS"@[1]);
    assert("NEUTRAL"@[0] != "SUCCESS"@[0]);
}

} // verus!

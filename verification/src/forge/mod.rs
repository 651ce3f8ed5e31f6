//! Read-only forge access: the pull request's identity, state, checks, and comments.
//!
//! A fetch derives a [`PrFetchInput`] from local Git, passes the gates here, asks the forge
//! which PRs contain the branch's publication points, picks one, and reads its detail. The
//! forge calls are the application's; reading their output, the gates, the pick, and the
//! snapshot model are here.
//! Degradation is in-band as [`PrView`].

pub mod github;
pub mod gitlab;

use vstd::prelude::*;
use vstd::string::StringSliceAdditionalSpecFns;

use crate::git::{Forge, PrFetchInput, PrLocalState, PublicationPoint, RepoTarget, RepositoryIdentity};
use crate::comments::{days_from_civil, days_in_month, is_iso_of, iso_spec, month_length};
use crate::forge_core::bitbucket::{iso_text, lemma_iso_text_parses};
use vstd::utf8::encode_utf8;
use crate::json::{array_spec, at_spec, json_parse, member, parse_json, text_field, text_of, u64_spec, Json};
use crate::text::{
    contains_seq, contains_str, decimal, lex_lt, newest_first_keys, newest_first_order, owned, push_char, push_str,
    push_string, push_u64, str_eq, str_lt, views,
};

verus! {

/// What the `PR` tab shows: the resolved snapshot, or a degraded state with its own remedy.
#[derive(Clone, Debug, PartialEq, Eq)]
pub enum PrView {
    /// Work is pending but has not crossed the loading-indicator delay.
    Pending,
    /// Work crossed the loading-indicator delay without producing a snapshot.
    Loading,
    /// An open (or merged/closed) PR resolved through the worktree's publication points.
    Pr(Box<PrSnapshot>),
    /// No PR contains the worktree's published work.
    NoPr,
    /// `HEAD` is detached, so there is no branch identity to query.
    Detached,
    /// Two or more open PRs contain the published work and no tiebreak decides.
    Ambiguous(usize),
    /// The target forge's CLI is not on `PATH`.
    NoCli(Forge),
    /// The forge CLI is installed but not authenticated for this canonical host.
    NotAuthed(Forge, String),
    /// Neither `upstream` nor `origin` names a supported hosted Git repository.
    NeedsForgeRemote,
    /// The fallback `origin` names a hosted forge outside the supported hosts.
    UnsupportedHost(String),
    /// The fallback `origin` names a supported host but not an owner/repository path.
    MalformedOrigin(String),
    /// A local Git read failed before the forge fetch could start.
    GitError(String),
    /// Any other forge-CLI failure (rate limit, offline, ...).
    Error(String),
}

/// The retry hint of a retryable view, for the refresh key `refresh`.
pub open spec fn retry_remedy_spec(v: PrView, refresh: Seq<char>) -> Option<Seq<char>> {
    match v {
        PrView::NoCli(forge) => Some(
            forge.name_spec() + " CLI not found. Install `"@ + forge.cli_spec() + "`, then press "@
                + refresh + "."@,
        ),
        PrView::NotAuthed(forge, host) => Some(
            "Not signed in to "@ + host@ + ". Run `"@ + forge.cli_spec() + " auth login --hostname "@
                + host@ + "`, then press "@ + refresh + "."@,
        ),
        PrView::GitError(message) => Some(
            "Git read failed: "@ + message@ + ". Press "@ + refresh + " to retry."@,
        ),
        PrView::Error(message) => Some(
            "Forge unavailable: "@ + message@ + ". Press "@ + refresh + " to retry."@,
        ),
        _ => None,
    }
}

impl PrView {
    /// A same-input failure that can be retried without discarding the visible snapshot;
    /// `refresh` is the hint text of the key bound to refresh.
    pub fn retry_remedy(&self, refresh: &str) -> (out: Option<String>)
        ensures
            match out {
                Some(s) => retry_remedy_spec(*self, refresh@) == Some(s@),
                None => retry_remedy_spec(*self, refresh@) is None,
            },
    {
        match self {
            PrView::NoCli(forge) => {
                let mut s = String::new();
                push_str(&mut s, forge.name());
                push_str(&mut s, " CLI not found. Install `");
                push_str(&mut s, forge.cli());
                push_str(&mut s, "`, then press ");
                push_str(&mut s, refresh);
                push_str(&mut s, ".");
                Some(s)
            },
            PrView::NotAuthed(forge, host) => {
                let mut s = String::new();
                push_str(&mut s, "Not signed in to ");
                push_str(&mut s, host.as_str());
                push_str(&mut s, ". Run `");
                push_str(&mut s, forge.cli());
                push_str(&mut s, " auth login --hostname ");
                push_str(&mut s, host.as_str());
                push_str(&mut s, "`, then press ");
                push_str(&mut s, refresh);
                push_str(&mut s, ".");
                Some(s)
            },
            PrView::GitError(message) => {
                let mut s = String::new();
                push_str(&mut s, "Git read failed: ");
                push_str(&mut s, message.as_str());
                push_str(&mut s, ". Press ");
                push_str(&mut s, refresh);
                push_str(&mut s, " to retry.");
                Some(s)
            },
            PrView::Error(message) => {
                let mut s = String::new();
                push_str(&mut s, "Forge unavailable: ");
                push_str(&mut s, message.as_str());
                push_str(&mut s, ". Press ");
                push_str(&mut s, refresh);
                push_str(&mut s, " to retry.");
                Some(s)
            },
            _ => None,
        }
    }
}

/// One pull request's state, read fresh from the forge each poll.
#[derive(Clone, Debug, PartialEq, Eq)]
pub struct PrSnapshot {
    /// The forge this snapshot was read from.
    pub forge: Forge,
    pub number: u64,
    pub title: String,
    pub url: String,
    /// The PR description, empty when none.
    pub body: String,
    pub state: PrState,
    pub is_draft: bool,
    /// The PR's head branch name.
    pub head_ref: String,
    /// The head branch lives in another repository.
    pub head_is_fork: bool,
    pub base_ref: String,
    pub merge: Merge,
    pub sync: Sync,
    pub checks: Vec<Check>,
    pub comments: Vec<Comment>,
    /// A capped surface had more rows than the fetch returned.
    pub truncated: bool,
}

/// The PR lifecycle.
#[derive(Clone, Copy, Debug, PartialEq, Eq, Structural)]
pub enum PrState {
    Open,
    Merged,
    Closed,
}

/// Whether the PR has a merge blocker worth surfacing.
#[derive(Clone, Copy, Debug, PartialEq, Eq, Structural)]
pub enum Merge {
    Clean,
    Conflicting,
    Blocked,
}

/// The local branch's position relative to the PR head.
#[derive(Clone, Copy, Debug, PartialEq, Eq, Structural)]
pub enum Sync {
    InSync,
    /// Local `HEAD` is ahead of the PR head by N commits.
    Unpushed(u32),
    /// The PR head is ahead of local `HEAD` by N commits.
    Behind(u32),
    /// The PR head object is not available locally.
    Unknown,
}

/// One CI check, the latest run for its name.
#[derive(Clone, Debug, PartialEq, Eq)]
pub struct Check {
    pub name: String,
    pub status: CheckStatus,
}

/// A check's outcome, normalised across check runs and commit statuses.
#[derive(Clone, Copy, Debug, PartialEq, Eq, Structural)]
pub enum CheckStatus {
    Success,
    Failure,
    Running,
    Pending,
    Skipped,
}

/// One incoming comment: a PR-level review, a plain comment, or an inline finding.
#[derive(Clone, Debug, PartialEq, Eq)]
pub struct Comment {
    pub kind: CommentKind,
    pub author: String,
    pub author_is_bot: bool,
    /// `path:line` for a finding, the literal `review`/`comment` for the unanchored kinds.
    pub anchor: String,
    pub body: String,
    /// The finding's diff hunk; `None` for a review or comment.
    pub snippet: Option<String>,
    /// The post time as an ISO-8601 `...Z` string, the newest-first sort key.
    pub created_at: String,
    pub is_resolved: bool,
    pub is_outdated: bool,
    pub reply_count: u32,
}

/// What a comment is anchored to.
#[derive(Clone, Copy, Debug, PartialEq, Eq, Structural)]
pub enum CommentKind {
    Review,
    Comment,
    Finding,
}

impl Comment {
    /// A field-for-field copy.
    pub fn duplicate(&self) -> (c: Comment)
        ensures
            c == *self,
    {
        Comment {
            kind: self.kind,
            author: self.author.clone(),
            author_is_bot: self.author_is_bot,
            anchor: self.anchor.clone(),
            body: self.body.clone(),
            snippet: match &self.snippet {
                Some(s) => Some(s.clone()),
                None => None,
            },
            created_at: self.created_at.clone(),
            is_resolved: self.is_resolved,
            is_outdated: self.is_outdated,
            reply_count: self.reply_count,
        }
    }
}

/// Whether a check is still running (or queued).
pub open spec fn in_flight(s: CheckStatus) -> bool {
    s == CheckStatus::Running || s == CheckStatus::Pending
}

/// The overall check rollup: any failure fails, else any still-running is running, else
/// success; `None` without checks.
pub open spec fn rollup_spec(checks: Seq<Check>) -> Option<CheckStatus> {
    if checks.len() == 0 {
        None
    } else if exists|i: int| 0 <= i < checks.len() && checks[i].status == CheckStatus::Failure {
        Some(CheckStatus::Failure)
    } else if exists|i: int| 0 <= i < checks.len() && in_flight(#[trigger] checks[i].status) {
        Some(CheckStatus::Running)
    } else {
        Some(CheckStatus::Success)
    }
}

/// The checks that failed.
pub open spec fn failed(checks: Seq<Check>) -> Seq<Check> {
    checks.filter(|c: Check| c.status == CheckStatus::Failure)
}

/// The overall rollup of `checks`.
pub fn rollup_of(checks: &[Check]) -> (out: Option<CheckStatus>)
    ensures
        out == rollup_spec(checks@),
{
    if checks.len() == 0 {
        return None;
    }
    let mut any_failed = false;
    let mut any_running = false;
    let mut i: usize = 0;
    while i < checks.len()
        invariant
            i <= checks@.len(),
            any_failed == exists|j: int| 0 <= j < i && checks@[j].status == CheckStatus::Failure,
            any_running == exists|j: int| 0 <= j < i && in_flight(#[trigger] checks@[j].status),
        decreases checks@.len() - i,
    {
        let s = checks[i].status;
        if s == CheckStatus::Failure {
            any_failed = true;
        }
        if s == CheckStatus::Running || s == CheckStatus::Pending {
            any_running = true;
        }
        i = i + 1;
    }
    if any_failed {
        Some(CheckStatus::Failure)
    } else if any_running {
        Some(CheckStatus::Running)
    } else {
        Some(CheckStatus::Success)
    }
}

/// How many of `checks` failed.
pub fn count_failed(checks: &[Check]) -> (n: usize)
    ensures
        n == failed(checks@).len(),
{
    let mut n: usize = 0;
    let mut i: usize = 0;
    while i < checks.len()
        invariant
            i <= checks@.len(),
            n == failed(checks@.take(i as int)).len(),
            n <= i,
        decreases checks@.len() - i,
    {
        proof {
            assert(checks@.take(i + 1) =~= checks@.take(i as int).push(checks@[i as int]));
            checks@.take(i as int).lemma_filter_push(
                checks@[i as int],
                |c: Check| c.status == CheckStatus::Failure,
            );
        }
        if checks[i].status == CheckStatus::Failure {
            n = n + 1;
        }
        i = i + 1;
    }
    proof {
        assert(checks@.take(checks@.len() as int) =~= checks@);
    }
    n
}

impl PrSnapshot {
    /// The overall check rollup: any failure fails, else any still-running is running, else
    /// success. `None` when the PR has no checks.
    pub fn checks_rollup(&self) -> (out: Option<CheckStatus>)
        ensures
            out == rollup_spec(self.checks@),
    {
        rollup_of(self.checks.as_slice())
    }

    /// How many checks have failed.
    pub fn failing_checks(&self) -> (n: usize)
        ensures
            n == failed(self.checks@).len(),
    {
        count_failed(self.checks.as_slice())
    }
}

/// A classified forge-CLI failure, mapped to a [`PrView`] degraded state.
#[derive(Debug, PartialEq, Eq)]
pub enum CliError {
    Missing(Forge),
    NotAuthed(Forge, String),
    LocalGit(String),
    Other(String),
}

/// A forge CLI's standard output read as JSON: its document, or `Other` with the parser's
/// message when the output is not JSON.
pub fn cli_json(out: &str) -> (r: Result<Json, CliError>)
    ensures
        match json_parse(out@) {
            Ok(v) => r == Ok::<Json, CliError>(v),
            Err(m) => r matches Err(CliError::Other(message)) && message@ == m,
        },
{
    match parse_json(out) {
        Ok(v) => Ok(v),
        Err(message) => Err(CliError::Other(message)),
    }
}

/// A REST read where an HTTP 404 is a clean absence: an `Other` failure whose message
/// mentions `HTTP 404` becomes `Ok(None)`; a document is `Some`; any other failure stays.
pub fn absent_ok(r: Result<Json, CliError>) -> (out: Result<Option<Json>, CliError>)
    ensures
        match r {
            Ok(v) => out == Ok::<Option<Json>, CliError>(Some(v)),
            Err(CliError::Other(message)) => if contains_seq(message@, "HTTP 404"@) {
                out == Ok::<Option<Json>, CliError>(None)
            } else {
                out == Err::<Option<Json>, CliError>(CliError::Other(message))
            },
            Err(e) => out == Err::<Option<Json>, CliError>(e),
        },
{
    match r {
        Ok(v) => Ok(Some(v)),
        Err(CliError::Other(message)) => {
            if contains_str(message.as_str(), "HTTP 404") {
                Ok(None)
            } else {
                Err(CliError::Other(message))
            }
        },
        Err(e) => Err(e),
    }
}

/// The degraded view of a failure.
pub open spec fn view_of_error(e: CliError) -> PrView {
    match e {
        CliError::Missing(forge) => PrView::NoCli(forge),
        CliError::NotAuthed(forge, host) => PrView::NotAuthed(forge, host),
        CliError::LocalGit(message) => PrView::GitError(message),
        CliError::Other(message) => PrView::Error(message),
    }
}

impl From<CliError> for PrView {
    fn from(e: CliError) -> (v: PrView) {
        match e {
            CliError::Missing(forge) => PrView::NoCli(forge),
            CliError::NotAuthed(forge, host) => PrView::NotAuthed(forge, host),
            CliError::LocalGit(message) => PrView::GitError(message),
            CliError::Other(message) => PrView::Error(message),
        }
    }
}

impl vstd::std_specs::convert::FromSpecImpl<CliError> for PrView {
    open spec fn obeys_from_spec() -> bool {
        true
    }

    open spec fn from_spec(e: CliError) -> PrView {
        view_of_error(e)
    }
}

/// The local branch's position relative to the PR head from `git`'s ahead/behind counts: a
/// diverged branch leads with the unpushed count; `None` stays unknown.
pub open spec fn sync_spec(ahead_behind: Option<(u32, u32)>) -> Sync {
    match ahead_behind {
        None => Sync::Unknown,
        Some((ahead, behind)) => if ahead == 0 && behind == 0 {
            Sync::InSync
        } else if ahead == 0 {
            Sync::Behind(behind)
        } else {
            Sync::Unpushed(ahead)
        },
    }
}

/// The local branch's position relative to the PR head.
pub fn derive_sync(ahead_behind: Option<(u32, u32)>) -> (s: Sync)
    ensures
        s == sync_spec(ahead_behind),
{
    match ahead_behind {
        None => Sync::Unknown,
        Some((0, 0)) => Sync::InSync,
        Some((0, behind)) => Sync::Behind(behind),
        Some((ahead, _)) => Sync::Unpushed(ahead),
    }
}

/// One PR from the association query, reduced to the pick-relevant fields.
#[derive(Debug, PartialEq, Eq)]
pub struct AssocPr {
    pub number: u64,
    pub head_oid: String,
    pub head_ref: String,
    pub merged_at: String,
    pub created_at: String,
}

/// The association result, split by lifecycle: open and merged from the commit association,
/// closed-unmerged from the exact-identity name lookup.
#[derive(Debug)]
pub struct Association {
    pub open: Vec<AssocPr>,
    pub merged: Vec<AssocPr>,
    pub closed: Vec<AssocPr>,
}

/// The winner among the open PRs.
#[derive(Debug, PartialEq, Eq, Structural)]
pub enum Pick {
    One(u64),
    Ambiguous(usize),
    Empty,
}

/// `i` is the only set position of `mask`.
pub open spec fn sole(mask: Seq<bool>, i: int) -> bool {
    &&& 0 <= i < mask.len()
    &&& mask[i]
    &&& forall|j: int| 0 <= j < mask.len() && j != i ==> !mask[j]
}

/// The number of the only PR the mask selects, if exactly one is selected.
pub open spec fn unique_spec(prs: Seq<AssocPr>, mask: Seq<bool>) -> Option<u64> {
    if exists|i: int| sole(mask, i) {
        Some(prs[choose|i: int| sole(mask, i)].number)
    } else {
        None
    }
}

/// The PRs whose head is the pinned `HEAD`.
pub open spec fn head_mask(prs: Seq<AssocPr>, pin: Seq<char>) -> Seq<bool> {
    Seq::new(prs.len(), |i: int| prs[i].head_oid@ == pin)
}

/// Whether some publication point sits at `oid`.
pub open spec fn is_point(points: Seq<PublicationPoint>, oid: Seq<char>) -> bool {
    exists|k: int| 0 <= k < points.len() && (#[trigger] points[k]).oid@ == oid
}

/// The PRs whose head is a publication point.
pub open spec fn point_mask(prs: Seq<AssocPr>, points: Seq<PublicationPoint>) -> Seq<bool> {
    Seq::new(prs.len(), |i: int| is_point(points, prs[i].head_oid@))
}

/// The PRs whose head branch is the recorded upstream.
pub open spec fn upstream_mask(prs: Seq<AssocPr>, upstream: Seq<char>) -> Seq<bool> {
    Seq::new(prs.len(), |i: int| prs[i].head_ref@ == upstream)
}

/// The open-PR pick: a lone PR wins; several disambiguate by a head at the pinned `HEAD`,
/// then a head at a publication point, then a head named by the recorded upstream, each
/// only when exactly one matches; failing all three, the count.
pub open spec fn pick_open_spec(open: Seq<AssocPr>, local: PrLocalState) -> Pick {
    if open.len() == 0 {
        Pick::Empty
    } else if open.len() == 1 {
        Pick::One(open[0].number)
    } else {
        let by_head = match local.head_oid {
            Some(pin) => unique_spec(open, head_mask(open, pin@)),
            None => None,
        };
        let by_point = unique_spec(open, point_mask(open, local.points@));
        let by_upstream = match local.upstream {
            Some(up) => unique_spec(open, upstream_mask(open, up@)),
            None => None,
        };
        if by_head is Some {
            Pick::One(by_head->0)
        } else if by_point is Some {
            Pick::One(by_point->0)
        } else if by_upstream is Some {
            Pick::One(by_upstream->0)
        } else {
            Pick::Ambiguous(open.len() as usize)
        }
    }
}

/// The only set position of `mask`, if exactly one is set.
pub fn sole_index(mask: &Vec<bool>) -> (r: Option<usize>)
    ensures
        match r {
            Some(i) => sole(mask@, i as int),
            None => !exists|i: int| sole(mask@, i),
        },
{
    let mut hits: u8 = 0;
    let mut first: usize = 0;
    let mut second: usize = 0;
    let mut i: usize = 0;
    while i < mask.len()
        invariant
            i <= mask@.len(),
            hits <= 2,
            hits == 0 ==> forall|j: int| 0 <= j < i ==> !mask@[j],
            hits >= 1 ==> first < i && mask@[first as int],
            hits == 1 ==> forall|j: int| 0 <= j < i && j != first ==> !mask@[j],
            hits == 2 ==> second < i && second != first && mask@[second as int],
        decreases mask@.len() - i,
    {
        if mask[i] {
            if hits == 0 {
                first = i;
                hits = 1;
            } else if hits == 1 {
                second = i;
                hits = 2;
            }
        }
        i = i + 1;
    }
    if hits == 1 {
        Some(first)
    } else {
        proof {
            if hits == 2 {
                assert forall|k: int| !sole(mask@, k) by {
                    if sole(mask@, k) {
                        if k == first {
                            assert(!mask@[second as int]);
                        } else {
                            assert(!mask@[first as int]);
                        }
                    }
                }
            }
        }
        None
    }
}

/// The number of the only PR `mask` selects.
fn unique_number(prs: &[AssocPr], mask: &Vec<bool>) -> (r: Option<u64>)
    requires
        mask@.len() == prs@.len(),
    ensures
        r == unique_spec(prs@, mask@),
{
    match sole_index(mask) {
        Some(i) => {
            proof {
                let k = choose|k: int| sole(mask@, k);
                assert(sole(mask@, k));
                if k != i {
                    assert(!mask@[i as int]);
                }
            }
            Some(prs[i].number)
        },
        None => None,
    }
}

/// Which PRs have their head at `pin`.
fn head_hits(prs: &[AssocPr], pin: &str) -> (m: Vec<bool>)
    ensures
        m@ == head_mask(prs@, pin@),
{
    let mut m: Vec<bool> = Vec::new();
    let mut i: usize = 0;
    while i < prs.len()
        invariant
            i <= prs@.len(),
            m@.len() == i,
            forall|j: int| 0 <= j < i ==> m@[j] == (prs@[j].head_oid@ == pin@),
        decreases prs@.len() - i,
    {
        m.push(str_eq(prs[i].head_oid.as_str(), pin));
        i = i + 1;
    }
    proof {
        assert(m@ =~= head_mask(prs@, pin@));
    }
    m
}

/// Whether some publication point sits at `oid`.
pub fn point_at(points: &[PublicationPoint], oid: &str) -> (b: bool)
    ensures
        b == is_point(points@, oid@),
{
    let mut i: usize = 0;
    while i < points.len()
        invariant
            i <= points@.len(),
            forall|k: int| 0 <= k < i ==> points@[k].oid@ != oid@,
        decreases points@.len() - i,
    {
        if str_eq(points[i].oid.as_str(), oid) {
            return true;
        }
        i = i + 1;
    }
    false
}

/// Which PRs have their head at a publication point.
fn point_hits(prs: &[AssocPr], points: &[PublicationPoint]) -> (m: Vec<bool>)
    ensures
        m@ == point_mask(prs@, points@),
{
    let mut m: Vec<bool> = Vec::new();
    let mut i: usize = 0;
    while i < prs.len()
        invariant
            i <= prs@.len(),
            m@.len() == i,
            forall|j: int| 0 <= j < i ==> m@[j] == is_point(points@, prs@[j].head_oid@),
        decreases prs@.len() - i,
    {
        m.push(point_at(points, prs[i].head_oid.as_str()));
        i = i + 1;
    }
    proof {
        assert(m@ =~= point_mask(prs@, points@));
    }
    m
}

/// Which PRs have the head branch `upstream`.
fn upstream_hits(prs: &[AssocPr], upstream: &str) -> (m: Vec<bool>)
    ensures
        m@ == upstream_mask(prs@, upstream@),
{
    let mut m: Vec<bool> = Vec::new();
    let mut i: usize = 0;
    while i < prs.len()
        invariant
            i <= prs@.len(),
            m@.len() == i,
            forall|j: int| 0 <= j < i ==> m@[j] == (prs@[j].head_ref@ == upstream@),
        decreases prs@.len() - i,
    {
        m.push(str_eq(prs[i].head_ref.as_str(), upstream));
        i = i + 1;
    }
    proof {
        assert(m@ =~= upstream_mask(prs@, upstream@));
    }
    m
}

/// Pick the open PR: a lone PR wins; several disambiguate by a head equal to the pinned
/// `HEAD`, then a head equal to a publication point, then the head named by the recorded
/// upstream, each only when exactly one matches. Failing all three, the count surfaces.
pub fn pick_open(open: &[AssocPr], local: &PrLocalState) -> (p: Pick)
    ensures
        p == pick_open_spec(open@, *local),
{
    if open.len() == 0 {
        return Pick::Empty;
    }
    if open.len() == 1 {
        return Pick::One(open[0].number);
    }
    if let Some(pin) = &local.head_oid {
        let hits = head_hits(open, pin.as_str());
        if let Some(n) = unique_number(open, &hits) {
            return Pick::One(n);
        }
    }
    let hits = point_hits(open, local.points.as_slice());
    if let Some(n) = unique_number(open, &hits) {
        return Pick::One(n);
    }
    if let Some(up) = &local.upstream {
        let hits = upstream_hits(open, up.as_str());
        if let Some(n) = unique_number(open, &hits) {
            return Pick::One(n);
        }
    }
    Pick::Ambiguous(open.len())
}

/// `i` holds the newest key: later than every key before it and no earlier than any after it
/// (ties keep the first).
pub open spec fn is_newest(keys: Seq<Seq<char>>, i: int) -> bool {
    &&& 0 <= i < keys.len()
    &&& forall|j: int| 0 <= j < i ==> lex_lt(keys[j], keys[i])
    &&& forall|j: int| i < j < keys.len() ==> !lex_lt(keys[i], #[trigger] keys[j])
}

/// The position of the newest key, the first on a tie; `None` when empty.
pub fn newest_index(keys: &Vec<String>) -> (r: Option<usize>)
    ensures
        match r {
            Some(i) => is_newest(views(keys@), i as int),
            None => keys@.len() == 0,
        },
{
    if keys.len() == 0 {
        return None;
    }
    let ghost k = views(keys@);
    let mut best: usize = 0;
    let mut i: usize = 1;
    while i < keys.len()
        invariant
            k == views(keys@),
            1 <= i <= keys@.len(),
            best < i,
            forall|j: int| 0 <= j < best ==> lex_lt(k[j], k[best as int]),
            forall|j: int| best < j < i ==> !lex_lt(k[best as int], #[trigger] k[j]),
        decreases keys@.len() - i,
    {
        if str_lt(keys[best].as_str(), keys[i].as_str()) {
            proof {
                assert forall|j: int| 0 <= j < i implies lex_lt(k[j], k[i as int]) by {
                    if j < best {
                        crate::text::lemma_lex_transitive(k[j], k[best as int], k[i as int]);
                    } else if j > best {
                        crate::text::lemma_lex_total(k[best as int], k[j]);
                        if lex_lt(k[j], k[best as int]) {
                            crate::text::lemma_lex_transitive(k[j], k[best as int], k[i as int]);
                        }
                    }
                }
            }
            best = i;
        }
        i = i + 1;
    }
    Some(best)
}

/// The merged-at keys of `prs`.
pub open spec fn merged_keys(prs: Seq<AssocPr>) -> Seq<Seq<char>> {
    Seq::new(prs.len(), |i: int| prs[i].merged_at@)
}

/// The created-at keys of `prs`.
pub open spec fn created_keys(prs: Seq<AssocPr>) -> Seq<Seq<char>> {
    Seq::new(prs.len(), |i: int| prs[i].created_at@)
}

/// The number of the PR at the newest of `keys`.
pub open spec fn newest_spec(prs: Seq<AssocPr>, keys: Seq<Seq<char>>, n: Option<u64>) -> bool {
    match n {
        Some(n) => exists|i: int| is_newest(keys, i) && prs[i].number == n,
        None => prs.len() == 0,
    }
}

/// The newest-merged PR containing a publication point.
pub fn pick_merged(merged: &[AssocPr]) -> (n: Option<u64>)
    ensures
        newest_spec(merged@, merged_keys(merged@), n),
{
    let mut keys: Vec<String> = Vec::new();
    let mut i: usize = 0;
    while i < merged.len()
        invariant
            i <= merged@.len(),
            views(keys@) == merged_keys(merged@).take(i as int),
        decreases merged@.len() - i,
    {
        push_string(&mut keys, merged[i].merged_at.clone());
        proof {
            assert(views(keys@) =~= merged_keys(merged@).take(i + 1));
        }
        i = i + 1;
    }
    proof {
        assert(views(keys@) =~= merged_keys(merged@));
    }
    match newest_index(&keys) {
        Some(i) => Some(merged[i].number),
        None => None,
    }
}

/// The newest closed-unmerged PR whose head is exactly a publication point.
pub fn pick_closed(closed: &[AssocPr]) -> (n: Option<u64>)
    ensures
        newest_spec(closed@, created_keys(closed@), n),
{
    let mut keys: Vec<String> = Vec::new();
    let mut i: usize = 0;
    while i < closed.len()
        invariant
            i <= closed@.len(),
            views(keys@) == created_keys(closed@).take(i as int),
        decreases closed@.len() - i,
    {
        push_string(&mut keys, closed[i].created_at.clone());
        proof {
            assert(views(keys@) =~= created_keys(closed@).take(i + 1));
        }
        i = i + 1;
    }
    proof {
        assert(views(keys@) =~= created_keys(closed@));
    }
    match newest_index(&keys) {
        Some(i) => Some(closed[i].number),
        None => None,
    }
}

/// Push `pr` unless a PR with its number is already in `bucket`: a PR's identity is its
/// number.
pub fn push_unique(bucket: &mut Vec<AssocPr>, pr: AssocPr)
    ensures
        (exists|i: int| 0 <= i < old(bucket)@.len() && (#[trigger] old(bucket)@[i]).number
            == pr.number) ==> final(bucket)@ == old(bucket)@,
        !(exists|i: int| 0 <= i < old(bucket)@.len() && (#[trigger] old(bucket)@[i]).number
            == pr.number) ==> final(bucket)@ == old(bucket)@.push(pr),
{
    let mut i: usize = 0;
    while i < bucket.len()
        invariant
            i <= bucket@.len(),
            forall|j: int| 0 <= j < i ==> bucket@[j].number != pr.number,
        decreases bucket@.len() - i,
    {
        if bucket[i].number == pr.number {
            return;
        }
        i = i + 1;
    }
    bucket.push(pr);
}

/// A field-for-field copy of a repository target.
pub fn copy_target(t: &RepoTarget) -> (c: RepoTarget)
    ensures
        c == *t,
{
    RepoTarget { forge: t.forge, host: t.host.clone(), owner: t.owner.clone(), name: t.name.clone() }
}

/// The repository the association query runs against: the origin when it is on the target's
/// host (the fork case), else the target itself.
pub open spec fn source_spec(origin: Option<RepoTarget>, target: RepoTarget) -> RepoTarget {
    match origin {
        Some(o) => if o.host@ == target.host@ {
            o
        } else {
            target
        },
        None => target,
    }
}

/// The repository the association query runs against.
pub fn select_source<'a>(origin: Option<&'a RepoTarget>, target: &'a RepoTarget) -> (r:
    &'a RepoTarget)
    ensures
        *r == source_spec(
            match origin {
                Some(o) => Some(*o),
                None => None,
            },
            *target,
        ),
{
    match origin {
        Some(o) => if o.host == target.host {
            o
        } else {
            target
        },
        None => target,
    }
}

/// The pinned `HEAD` as one more exact-identity nomination: only when flagged, and not when a
/// publication point already carries the same object id.
pub open spec fn nominated_spec(local: PrLocalState) -> Option<String> {
    match local.head_oid {
        Some(head) => if local.head_nominates && !is_point(local.points@, head@) {
            Some(head)
        } else {
            None
        },
        None => None,
    }
}

/// The pinned `HEAD` as an exact-identity nomination, if it nominates.
pub fn nominated_head(local: &PrLocalState) -> (r: Option<&str>)
    ensures
        match r {
            Some(h) => nominated_spec(*local) is Some && nominated_spec(*local)->0@ == h@,
            None => nominated_spec(*local) is None,
        },
{
    match &local.head_oid {
        Some(head) => if local.head_nominates && !point_at(local.points.as_slice(), head.as_str()) {
            Some(head.as_str())
        } else {
            None
        },
        None => None,
    }
}

/// What a fetch that passed the gates queries: the canonical target, the repository the
/// association runs against, and the nominating `HEAD`.
#[derive(Debug, PartialEq, Eq)]
pub struct FetchPlan {
    pub target: RepoTarget,
    pub source: RepoTarget,
    pub head: Option<String>,
}

/// The gates a fetch passes before any forge call: identity failures, a detached `HEAD`, and
/// a worktree with nothing published and no nominating `HEAD` resolve without the forge.
pub open spec fn gate_spec(input: PrFetchInput) -> Result<FetchPlan, PrView> {
    match input.repository {
        RepositoryIdentity::Repository(target) => if input.local.detached {
            Err(PrView::Detached)
        } else if input.local.points@.len() == 0 && input.local.absorbed@.len() == 0
            && nominated_spec(input.local) is None {
            Err(PrView::NoPr)
        } else {
            Ok(
                FetchPlan {
                    target,
                    source: source_spec(input.origin_repository, target),
                    head: nominated_spec(input.local),
                },
            )
        },
        RepositoryIdentity::Missing => Err(PrView::NeedsForgeRemote),
        RepositoryIdentity::Hostless => Err(PrView::NeedsForgeRemote),
        RepositoryIdentity::Unsupported(host) => Err(PrView::UnsupportedHost(host)),
        RepositoryIdentity::Malformed(host) => Err(PrView::MalformedOrigin(host)),
    }
}

/// Gate one fetch: either the view it resolves to without the forge, or the plan of the
/// forge reads it needs.
pub fn fetch_gate(input: &PrFetchInput) -> (r: Result<FetchPlan, PrView>)
    ensures
        r == gate_spec(*input),
{
    let target = match &input.repository {
        RepositoryIdentity::Repository(target) => target,
        RepositoryIdentity::Missing => {
            return Err(PrView::NeedsForgeRemote);
        },
        RepositoryIdentity::Hostless => {
            return Err(PrView::NeedsForgeRemote);
        },
        RepositoryIdentity::Unsupported(host) => {
            return Err(PrView::UnsupportedHost(host.clone()));
        },
        RepositoryIdentity::Malformed(host) => {
            return Err(PrView::MalformedOrigin(host.clone()));
        },
    };
    if input.local.detached {
        return Err(PrView::Detached);
    }
    let head = nominated_head(&input.local);
    if input.local.points.len() == 0 && input.local.absorbed.len() == 0 && head.is_none() {
        return Err(PrView::NoPr);
    }
    let origin = match &input.origin_repository {
        Some(o) => Some(o),
        None => None,
    };
    let source = copy_target(select_source(origin, target));
    let head = match &input.local.head_oid {
        Some(h) => if head.is_some() {
            Some(h.clone())
        } else {
            None
        },
        None => None,
    };
    Ok(FetchPlan { target: copy_target(target), source, head })
}

/// What the association resolves to: the chosen PR number, or the view when none is chosen.
pub open spec fn resolves_to(assoc: Association, local: PrLocalState, r: Result<u64, PrView>) -> bool {
    match pick_open_spec(assoc.open@, local) {
        Pick::One(n) => r == Ok::<u64, PrView>(n),
        Pick::Ambiguous(count) => r == Err::<u64, PrView>(PrView::Ambiguous(count)),
        Pick::Empty => if assoc.merged@.len() > 0 {
            r is Ok && newest_spec(assoc.merged@, merged_keys(assoc.merged@), Some(r->Ok_0))
        } else if assoc.closed@.len() > 0 {
            r is Ok && newest_spec(assoc.closed@, created_keys(assoc.closed@), Some(r->Ok_0))
        } else {
            r == Err::<u64, PrView>(PrView::NoPr)
        },
    }
}

/// Resolve the association to one PR number: the open pick, else the newest merged PR, else
/// the newest closed one; an ambiguous or empty association is its view.
pub fn resolve_pick(assoc: &Association, local: &PrLocalState) -> (r: Result<u64, PrView>)
    ensures
        resolves_to(*assoc, *local, r),
{
    match pick_open(assoc.open.as_slice(), local) {
        Pick::One(n) => Ok(n),
        Pick::Ambiguous(count) => Err(PrView::Ambiguous(count)),
        Pick::Empty => match pick_merged(assoc.merged.as_slice()) {
            Some(n) => Ok(n),
            None => match pick_closed(assoc.closed.as_slice()) {
                Some(n) => Ok(n),
                None => Err(PrView::NoPr),
            },
        },
    }
}

/// A bot's PR-level post (a review or plain comment, not a finding).
pub open spec fn is_bot_prose(c: Comment) -> bool {
    c.author_is_bot && c.kind != CommentKind::Finding
}

/// Whether `c` survives among `all`: humans and findings always do; a bot's prose only when
/// no prose of the same bot is newer.
pub open spec fn keeps(all: Seq<Comment>, c: Comment) -> bool {
    !is_bot_prose(c) || forall|j: int|
        0 <= j < all.len() && is_bot_prose(#[trigger] all[j]) && all[j].author@ == c.author@
            ==> !lex_lt(c.created_at@, all[j].created_at@)
}

/// Whether `c` survives the bot-prose collapse among `all`.
fn kept(all: &[Comment], c: &Comment) -> (b: bool)
    ensures
        b == keeps(all@, *c),
{
    if !(c.author_is_bot && c.kind != CommentKind::Finding) {
        return true;
    }
    let mut j: usize = 0;
    while j < all.len()
        invariant
            j <= all@.len(),
            is_bot_prose(*c),
            forall|k: int|
                0 <= k < j && is_bot_prose(#[trigger] all@[k]) && all@[k].author@ == c.author@
                    ==> !lex_lt(c.created_at@, all@[k].created_at@),
        decreases all@.len() - j,
    {
        let d = &all[j];
        if d.author_is_bot && d.kind != CommentKind::Finding && d.author == c.author && str_lt(
            c.created_at.as_str(),
            d.created_at.as_str(),
        ) {
            return false;
        }
        j = j + 1;
    }
    true
}

/// Keep only the latest PR-level post per bot author; humans keep all, and every finding is
/// kept.
pub fn dedup_bot_prose(out: &mut Vec<Comment>)
    ensures
        final(out)@ == old(out)@.filter(|c: Comment| keeps(old(out)@, c)),
{
    let ghost all = out@;
    let mut kept_items: Vec<Comment> = Vec::new();
    let mut i: usize = 0;
    while i < out.len()
        invariant
            out@ == all,
            i <= all.len(),
            kept_items@ == all.take(i as int).filter(|c: Comment| keeps(all, c)),
        decreases all.len() - i,
    {
        proof {
            assert(all.take(i + 1) =~= all.take(i as int).push(all[i as int]));
            all.take(i as int).lemma_filter_push(all[i as int], |c: Comment| keeps(all, c));
        }
        if kept(out.as_slice(), &out[i]) {
            kept_items.push(out[i].duplicate());
        }
        i = i + 1;
    }
    proof {
        assert(all.take(all.len() as int) =~= all);
    }
    *out = kept_items;
}

/// Whether `b` is an ASCII digit byte.
pub open spec fn is_digit_byte(b: u8) -> bool {
    48 <= b <= 57
}

/// The value of a run of ASCII digit bytes.
pub open spec fn digits_value(b: Seq<u8>) -> int
    decreases b.len(),
{
    if b.len() == 0 {
        0
    } else {
        digits_value(b.drop_last()) * 10 + (b.last() - 48)
    }
}

/// Whether every byte of `b` is an ASCII digit.
pub open spec fn all_digits(b: Seq<u8>) -> bool {
    forall|i: int| 0 <= i < b.len() ==> is_digit_byte(#[trigger] b[i])
}

/// Whether `b` has the fixed `YYYY-MM-DDTHH:MM:SSZ` shape: twenty bytes, the separators at
/// their offsets, and every field (the year four, the rest two) ASCII digits.
pub open spec fn iso_shape(b: Seq<u8>) -> bool {
    &&& b.len() == 20
    &&& b[4] == 45 && b[7] == 45 && b[10] == 84 && b[13] == 58 && b[16] == 58 && b[19] == 90
    &&& all_digits(b.subrange(0, 4))
    &&& all_digits(b.subrange(5, 7))
    &&& all_digits(b.subrange(8, 10))
    &&& all_digits(b.subrange(11, 13))
    &&& all_digits(b.subrange(14, 16))
    &&& all_digits(b.subrange(17, 19))
}

/// The Unix second of a `YYYY-MM-DDTHH:MM:SSZ` timestamp: `None` unless it has that exact
/// shape and names a real date and time (month 1 to 12, a day of that month, hour below 24,
/// minute and second below 60), so a malformed value never reads as some other time.
pub open spec fn parse_iso_spec(b: Seq<u8>) -> Option<int> {
    if !iso_shape(b) {
        None
    } else {
        let y = digits_value(b.subrange(0, 4));
        let mo = digits_value(b.subrange(5, 7));
        let d = digits_value(b.subrange(8, 10));
        let h = digits_value(b.subrange(11, 13));
        let mi = digits_value(b.subrange(14, 16));
        let se = digits_value(b.subrange(17, 19));
        if 1 <= mo <= 12 && 1 <= d <= days_in_month(y, mo) && h < 24 && mi < 60 && se < 60 {
            Some(days_from_civil(y, mo, d) * 86_400 + h * 3600 + mi * 60 + se)
        } else {
            None
        }
    }
}

/// Read the all-digit field `b[a..z]`.
fn parse_field(b: &[u8], a: usize, z: usize) -> (r: Option<i64>)
    requires
        a < z <= b@.len(),
        z - a <= 4,
    ensures
        match r {
            Some(v) => all_digits(b@.subrange(a as int, z as int)) && v == digits_value(
                b@.subrange(a as int, z as int),
            ) && 0 <= v < 10000 && (z - a == 2 ==> v < 100),
            None => !all_digits(b@.subrange(a as int, z as int)),
        },
{
    let ghost f = b@.subrange(a as int, z as int);
    let mut v: i64 = 0;
    let mut i: usize = a;
    while i < z
        invariant
            a <= i <= z <= b@.len(),
            z - a <= 4,
            f == b@.subrange(a as int, z as int),
            forall|k: int| a <= k < i ==> is_digit_byte(#[trigger] b@[k]),
            v == digits_value(b@.subrange(a as int, i as int)),
            0 <= v,
            v < if i - a == 0 {
                1int
            } else if i - a == 1 {
                10int
            } else if i - a == 2 {
                100int
            } else if i - a == 3 {
                1000int
            } else {
                10000int
            },
        decreases z - i,
    {
        let c = b[i];
        if !(48 <= c && c <= 57) {
            proof {
                assert(!is_digit_byte(f[i - a]));
            }
            return None;
        }
        proof {
            assert(b@.subrange(a as int, i + 1).drop_last() =~= b@.subrange(a as int, i as int));
        }
        v = v * 10 + (c - 48) as i64;
        i = i + 1;
    }
    proof {
        assert(b@.subrange(a as int, z as int) =~= f);
        assert forall|k: int| 0 <= k < f.len() implies is_digit_byte(#[trigger] f[k]) by {
            assert(f[k] == b@[a + k]);
        }
    }
    Some(v)
}

/// Parse a fixed `YYYY-MM-DDTHH:MM:SSZ` timestamp to a Unix epoch second; `None` on any
/// deviation, so a malformed value yields an empty age rather than a wrong one.
pub fn parse_iso(s: &str) -> (r: Option<i64>)
    ensures
        match r {
            Some(v) => parse_iso_spec(s.spec_bytes()) == Some(v as int),
            None => parse_iso_spec(s.spec_bytes()) is None,
        },
{
    let b = s.as_bytes();
    if b.len() != 20 || b[4] != 45 || b[7] != 45 || b[10] != 84 || b[13] != 58 || b[16] != 58
        || b[19] != 90 {
        return None;
    }
    let y = match parse_field(b, 0, 4) {
        Some(v) => v,
        None => return None,
    };
    let mo = match parse_field(b, 5, 7) {
        Some(v) => v,
        None => return None,
    };
    let d = match parse_field(b, 8, 10) {
        Some(v) => v,
        None => return None,
    };
    let h = match parse_field(b, 11, 13) {
        Some(v) => v,
        None => return None,
    };
    let mi = match parse_field(b, 14, 16) {
        Some(v) => v,
        None => return None,
    };
    let se = match parse_field(b, 17, 19) {
        Some(v) => v,
        None => return None,
    };
    if !(1 <= mo && mo <= 12 && 1 <= d && d <= month_length(y, mo) && h < 24 && mi < 60 && se < 60) {
        return None;
    }
    Some(civil_seconds(y, mo, d, h, mi, se))
}

/// The Unix second of a civil date and clock time, by Howard Hinnant's `days_from_civil`.
fn civil_seconds(y: i64, mo: i64, d: i64, h: i64, mi: i64, se: i64) -> (t: i64)
    requires
        -10000 < y < 10000,
        -10 < mo < 100,
        -10 < d < 100,
        -10 < h < 100,
        -10 < mi < 100,
        -10 < se < 100,
    ensures
        t == days_from_civil(y as int, mo as int, d as int) * 86_400 + h * 3600 + mi * 60 + se,
{
    let y = if mo <= 2 {
        y - 1
    } else {
        y
    };
    let era = (if y >= 0 {
        y
    } else {
        y - 399
    }) / 400;
    assert(era == y as int / 400);
    let year_of_era = y - era * 400;
    let month_index = if mo > 2 {
        mo - 3
    } else {
        mo + 9
    };
    assert(month_index >= 0);
    let day_of_year = (153 * month_index + 2) / 5 + d - 1;
    let day_of_era = year_of_era * 365 + year_of_era / 4 - year_of_era / 100 + day_of_year;
    let days = era * 146_097 + day_of_era - 719_468;
    days * 86_400 + h * 3600 + mi * 60 + se
}

/// The age bucket of `secs` seconds: `Ns` under a minute, then minutes, hours, days, weeks.
pub open spec fn age_label(secs: nat) -> Seq<char> {
    if secs < 60 {
        decimal(secs) + "s"@
    } else if secs < 3600 {
        decimal(secs / 60) + "m"@
    } else if secs < 86_400 {
        decimal(secs / 3600) + "h"@
    } else if secs < 604_800 {
        decimal(secs / 86_400) + "d"@
    } else {
        decimal(secs / 604_800) + "w"@
    }
}

/// The relative age label of `created_at` at Unix second `now`: empty for a malformed
/// timestamp, and a future timestamp counts as zero seconds old.
pub open spec fn relative_age_spec(created_at: Seq<u8>, now: int) -> Seq<char> {
    match parse_iso_spec(created_at) {
        None => Seq::empty(),
        Some(then) => age_label(
            if now - then > 0 {
                (now - then) as nat
            } else {
                0
            },
        ),
    }
}

/// A relative age label (`5m`, `2h`, `3d`, `2w`) from an ISO-8601 `...Z` timestamp, against
/// the Unix second `now`.
pub fn relative_age(created_at: &str, now: u64) -> (out: String)
    requires
        now <= i64::MAX,
    ensures
        out@ == relative_age_spec(created_at.spec_bytes(), now as int),
{
    let then = match parse_iso(created_at) {
        Some(t) => t,
        None => return String::new(),
    };
    let diff: i128 = now as i128 - then as i128;
    let secs: u64 = if diff > 0 {
        diff as u64
    } else {
        0
    };
    let mut out = String::new();
    if secs < 60 {
        push_u64(&mut out, secs);
        push_str(&mut out, "s");
    } else if secs < 3600 {
        push_u64(&mut out, secs / 60);
        push_str(&mut out, "m");
    } else if secs < 86_400 {
        push_u64(&mut out, secs / 3600);
        push_str(&mut out, "h");
    } else if secs < 604_800 {
        push_u64(&mut out, secs / 86_400);
        push_str(&mut out, "d");
    } else {
        push_u64(&mut out, secs / 604_800);
        push_str(&mut out, "w");
    }
    out
}


/// The post times of `cs`, in order.
pub open spec fn times_of(cs: Seq<Comment>) -> Seq<Seq<char>> {
    Seq::new(cs.len(), |i: int| cs[i].created_at@)
}

/// Whether `out` is `cs` newest first, equal times keeping their order.
pub open spec fn arranged_newest_first(cs: Seq<Comment>, out: Seq<Comment>) -> bool {
    exists|order: Seq<usize>|
        newest_first_keys(times_of(cs), order) && out == Seq::new(
            order.len(),
            |k: int| cs[order[k] as int],
        )
}

/// `cs` newest first: a stable sort by descending post time (ISO-8601 `...Z` times sort
/// lexically in chronological order).
pub fn sort_newest_first(cs: Vec<Comment>) -> (out: Vec<Comment>)
    ensures
        arranged_newest_first(cs@, out@),
{
    let mut times: Vec<String> = Vec::new();
    let mut t: usize = 0;
    while t < cs.len()
        invariant
            t <= cs@.len(),
            views(times@) == times_of(cs@).take(t as int),
        decreases cs@.len() - t,
    {
        push_string(&mut times, cs[t].created_at.clone());
        t = t + 1;
        proof {
            assert(views(times@) =~= times_of(cs@).take(t as int));
        }
    }
    proof {
        assert(times_of(cs@).take(cs@.len() as int) =~= times_of(cs@));
    }
    let order = newest_first_order(&times);
    let mut out: Vec<Comment> = Vec::new();
    let mut k: usize = 0;
    while k < order.len()
        invariant
            newest_first_keys(times_of(cs@), order@),
            k <= order@.len(),
            out@ == Seq::new(k as nat, |j: int| cs@[order@[j] as int]),
        decreases order@.len() - k,
    {
        out.push(cs[order[k]].duplicate());
        k = k + 1;
        proof {
            assert(out@ =~= Seq::new(k as nat, |j: int| cs@[order@[j] as int]));
        }
    }
    out
}

/// A finding's anchor from a value with `path` and `line`: `path:line`, or the path alone
/// without a line.
pub open spec fn finding_anchor(v: Json) -> Seq<char> {
    let path = text_of(at_spec(v, "path"@));
    match u64_spec(at_spec(v, "line"@)) {
        Some(line) => path + seq![':'] + decimal(line as nat),
        None => path,
    }
}

/// The anchor text of a finding.
pub fn anchor_of(v: &Json) -> (out: String)
    ensures
        out@ == finding_anchor(*v),
{
    let mut out = owned(text_field(v, "path"));
    match member(v, "line").as_u64() {
        Some(line) => {
            let ghost path = out@;
            push_char(&mut out, ':');
            push_u64(&mut out, line);
            proof {
                assert(out@ =~= path + seq![':'] + decimal(line as nat));
            }
        },
        None => {},
    }
    out
}
/// The position of the check named `name` in `list` at or after `from`, or -1.
pub open spec fn name_index(list: Seq<(Seq<char>, CheckStatus)>, name: Seq<char>, from: int) -> int
    decreases list.len() - from,
{
    if from < 0 || from >= list.len() {
        -1
    } else if list[from].0 == name {
        from
    } else {
        name_index(list, name, from + 1)
    }
}

/// A found check position is in range and names the check.
pub proof fn lemma_name_index(list: Seq<(Seq<char>, CheckStatus)>, name: Seq<char>, from: int)
    requires
        0 <= from,
    ensures
        name_index(list, name, from) == -1 || (from <= name_index(list, name, from) < list.len()
            && list[name_index(list, name, from)].0 == name),
    decreases list.len() - from,
{
    if from < list.len() && list[from].0 != name {
        lemma_name_index(list, name, from + 1);
    }
}

/// `list` with the check `name` set to `status`: in its place when listed, else appended.
pub open spec fn upsert(list: Seq<(Seq<char>, CheckStatus)>, name: Seq<char>, status: CheckStatus) -> Seq<
    (Seq<char>, CheckStatus),
> {
    let i = name_index(list, name, 0);
    if i >= 0 {
        list.update(i, (name, status))
    } else {
        list.push((name, status))
    }
}

/// The name and status of each check.
pub open spec fn check_model(cs: Seq<Check>) -> Seq<(Seq<char>, CheckStatus)> {
    Seq::new(cs.len(), |i: int| (cs[i].name@, cs[i].status))
}

/// The nodes of an array value, or none.
pub open spec fn nodes_of(v: Json) -> Seq<Json> {
    match array_spec(v) {
        Some(items) => items,
        None => Seq::empty(),
    }
}

/// The first position of the check named `name` at or after `from`.
pub fn find_check(out: &Vec<Check>, name: &str) -> (i: Option<usize>)
    ensures
        match i {
            Some(k) => name_index(check_model(out@), name@, 0) == k as int,
            None => name_index(check_model(out@), name@, 0) == -1,
        },
{
    let ghost m = check_model(out@);
    let mut k: usize = 0;
    while k < out.len()
        invariant
            m == check_model(out@),
            k <= out@.len(),
            name_index(m, name@, 0) == name_index(m, name@, k as int),
        decreases out@.len() - k,
    {
        if str_eq(out[k].name.as_str(), name) {
            return Some(k);
        }
        k = k + 1;
    }
    None
}


/// Every real date from year 10000 on lies at or after day 2932897 of the Unix epoch.
proof fn lemma_days_past_9999(y: int, m: int, d: int)
    requires
        y >= 10000,
        1 <= m <= 12,
        d >= 1,
    ensures
        days_from_civil(y, m, d) >= 2_932_897,
{
    let yy = if m <= 2 {
        y - 1
    } else {
        y
    };
    let era = yy / 400;
    let yoe = yy - era * 400;
    let idx = if m > 2 {
        m - 3
    } else {
        m + 9
    };
    let doy = (153 * idx + 2) / 5 + d - 1;
    assert(doy >= 0);
    assert(0 <= yoe < 400);
    assert(yoe * 365 + yoe / 4 - yoe / 100 >= 0);
    if yy >= 10000 {
        assert(era >= 25);
    } else {
        assert(yy == 9999 && era == 24 && yoe == 399);
        assert(idx >= 10);
        assert(doy >= 306);
    }
}

/// Reading back the ISO-8601 rendering of a Unix second gives that second, for every second
/// before year 10000: `parse_iso` inverts `iso_from_secs`, and so `now_iso`.
pub proof fn law_parse_iso_inverts_iso_from_secs(secs: nat, out: Seq<char>)
    requires
        is_iso_of(out, secs),
        secs < 253_402_300_800,
    ensures
        parse_iso_spec(encode_utf8(out)) == Some(secs as int),
{
    let (y, m, d) = choose|y: int, m: nat, d: nat|
        #![trigger days_from_civil(y, m as int, d as int)]
        days_from_civil(y, m as int, d as int) == secs / 86400 && 1 <= m <= 12 && 1 <= d
            <= days_in_month(y, m as int) && y >= 0 && out == iso_spec(
            y,
            m,
            d,
            (secs % 86400 / 3600) as nat,
            (secs % 3600 / 60) as nat,
            (secs % 60) as nat,
        );
    if y >= 10000 {
        lemma_days_past_9999(y, m as int, d as int);
        assert(secs / 86400 <= 2_932_896);
    }
    let tod = (secs % 86400) as int;
    vstd::arithmetic::div_mod::lemma_mod_mod(secs as int, 3600, 24);
    vstd::arithmetic::div_mod::lemma_mod_mod(secs as int, 60, 1440);
    assert(tod % 3600 == secs % 3600);
    assert(tod % 60 == secs % 60);
    assert(out =~= iso_text(y, m, d, tod));
    lemma_iso_text_parses(y, m, d, tod);
    assert(secs == (secs / 86400) * 86400 + tod);
}

} // verus!

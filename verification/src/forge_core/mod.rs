//! The candidate-branch forge core: the PR tab's degraded-state view for a fetch resolved by
//! candidate branch names, the open/historical picks across candidates, and the gates a fetch
//! passes before a backend is dispatched. The Bitbucket backend's pure parts live in
//! [`bitbucket`]; running its tools is the application's work.

pub mod bitbucket;
pub mod proc;

use vstd::prelude::*;
use vstd::string::StringSliceAdditionalSpecFns;

pub use crate::forge::{
    derive_sync, parse_iso, sync_spec, Check, CheckStatus, Comment, CommentKind, Merge, Pick,
    PrState, Sync,
};
use crate::forge::{failed, is_newest, relative_age_spec, rollup_spec, sole, sole_index};
use crate::forge::gitlab::percent_spec;
use crate::git::{same_identity, Forge, RepoTarget, RepositoryIdentity};
use crate::json::{json_parse, parse_json, Json};
use crate::text::{
    opt_copy, opt_eq, push_str, push_string, same_opt, str_eq, strings_copy, strings_eq, views,
};

verus! {

/// What the `PR` tab shows: the resolved snapshot, or a degraded state with its own remedy.
#[derive(Clone, Debug, PartialEq, Eq)]
pub enum PrView {
    /// Work is pending but has not crossed the loading-indicator delay.
    Pending,
    /// Work crossed the loading-indicator delay without producing a snapshot.
    Loading,
    /// An open (or merged/closed) PR resolved for one of the worktree's candidate branches.
    Pr(Box<PrSnapshot>),
    /// No candidate branch has a PR; the queried candidate names (empty on a detached `HEAD`).
    NoPr(Vec<String>),
    /// Two or more open PRs back the winning candidate and not exactly one matches the pinned
    /// `HEAD`; the count.
    Ambiguous(usize),
    /// The forge's CLI tool is not on `PATH`.
    NoCli(&'static str),
    /// The tool is present but not authenticated for this canonical host.
    NotAuthed { forge: Forge, host: String },
    /// Bitbucket only: no token in `BITBUCKET_TOKEN` or git-credential for this host.
    NoToken(String),
    /// Origin is missing or has no hosted Git URL.
    NeedsSupportedOrigin,
    /// Origin names a hosted forge outside the supported hosts.
    UnsupportedHost(String),
    /// Origin names a supported host but not an owner/repository path.
    MalformedOrigin(String),
    /// Any other backend failure (rate limit, offline, ...).
    Error(String),
}

/// The retry hint of a retryable view.
pub open spec fn retry_remedy_spec(v: PrView) -> Option<Seq<char>> {
    match v {
        PrView::NoCli(tool) => Some(
            tool@ + " not found — install `"@ + tool@ + "`, then press r"@,
        ),
        PrView::NotAuthed { forge, host } => Some(
            match forge {
                Forge::GitHub => "not signed in — run `gh auth login --hostname "@ + host@
                    + "`, then press r"@,
                Forge::GitLab => "not signed in — run `glab auth login --hostname "@ + host@
                    + "`, then press r"@,
                Forge::Bitbucket => "not signed in — check BITBUCKET_TOKEN for "@ + host@
                    + ", then press r"@,
            },
        ),
        PrView::NoToken(host) => Some(
            "no token for "@ + host@
                + " — set BITBUCKET_TOKEN or add it to git credentials, then press r"@,
        ),
        PrView::Error(message) => Some(
            "forge unavailable — "@ + message@ + "; press r to retry now"@,
        ),
        _ => None,
    }
}

impl PrView {
    /// A same-input failure that can be retried without discarding the visible snapshot.
    pub fn retry_remedy(&self) -> (out: Option<String>)
        ensures
            match out {
                Some(s) => retry_remedy_spec(*self) == Some(s@),
                None => retry_remedy_spec(*self) is None,
            },
    {
        let mut s = String::new();
        match self {
            PrView::NoCli(tool) => {
                push_str(&mut s, tool);
                push_str(&mut s, " not found — install `");
                push_str(&mut s, tool);
                push_str(&mut s, "`, then press r");
            },
            PrView::NotAuthed { forge, host } => match forge {
                Forge::GitHub => {
                    push_str(&mut s, "not signed in — run `gh auth login --hostname ");
                    push_str(&mut s, host.as_str());
                    push_str(&mut s, "`, then press r");
                },
                Forge::GitLab => {
                    push_str(&mut s, "not signed in — run `glab auth login --hostname ");
                    push_str(&mut s, host.as_str());
                    push_str(&mut s, "`, then press r");
                },
                Forge::Bitbucket => {
                    push_str(&mut s, "not signed in — check BITBUCKET_TOKEN for ");
                    push_str(&mut s, host.as_str());
                    push_str(&mut s, ", then press r");
                },
            },
            PrView::NoToken(host) => {
                push_str(&mut s, "no token for ");
                push_str(&mut s, host.as_str());
                push_str(
                    &mut s,
                    " — set BITBUCKET_TOKEN or add it to git credentials, then press r",
                );
            },
            PrView::Error(message) => {
                push_str(&mut s, "forge unavailable — ");
                push_str(&mut s, message.as_str());
                push_str(&mut s, "; press r to retry now");
            },
            _ => {
                return None;
            },
        }
        Some(s)
    }
}

/// One pull request's state, read fresh from the forge each poll.
#[derive(Clone, Debug, PartialEq, Eq)]
pub struct PrSnapshot {
    pub number: u64,
    pub title: String,
    pub url: String,
    pub state: PrState,
    pub is_draft: bool,
    /// The PR's head branch name, the candidate that resolved.
    pub head_ref: String,
    /// The head branch lives in another repository.
    pub head_is_fork: bool,
    pub base_ref: String,
    pub merge: Merge,
    pub sync: Sync,
    pub checks: Vec<Check>,
    pub comments: Vec<Comment>,
    /// A capped surface had more rows than the fetch returned.
    pub truncated: bool,
}

impl PrSnapshot {
    /// The overall check rollup: any failure fails, else any still-running is running, else
    /// success. `None` when the PR has no checks.
    pub fn checks_rollup(&self) -> (out: Option<CheckStatus>)
        ensures
            out == rollup_spec(self.checks@),
    {
        crate::forge::rollup_of(self.checks.as_slice())
    }

    /// How many checks have failed.
    pub fn failing_checks(&self) -> (n: usize)
        ensures
            n == failed(self.checks@).len(),
    {
        crate::forge::count_failed(self.checks.as_slice())
    }
}

/// A classified backend failure, mapped to a [`PrView`] degraded state.
#[derive(Debug, PartialEq, Eq)]
pub enum ForgeError {
    /// The forge's CLI tool is not on `PATH`.
    NoCli(&'static str),
    /// The tool is present but not authenticated for this host.
    NotAuthed { forge: Forge, host: String },
    /// Bitbucket only: no token for this host.
    NoToken(String),
    Other(String),
}

/// A backend tool's standard output read as JSON: its document, or `Other` with the parser's
/// message when the output is not JSON.
pub fn forge_json(out: &str) -> (r: Result<Json, ForgeError>)
    ensures
        match json_parse(out@) {
            Ok(v) => r == Ok::<Json, ForgeError>(v),
            Err(m) => r matches Err(ForgeError::Other(message)) && message@ == m,
        },
{
    match parse_json(out) {
        Ok(v) => Ok(v),
        Err(message) => Err(ForgeError::Other(message)),
    }
}

/// The degraded view of a backend failure.
pub open spec fn view_of_error(e: ForgeError) -> PrView {
    match e {
        ForgeError::NoCli(tool) => PrView::NoCli(tool),
        ForgeError::NotAuthed { forge, host } => PrView::NotAuthed { forge, host },
        ForgeError::NoToken(host) => PrView::NoToken(host),
        ForgeError::Other(message) => PrView::Error(message),
    }
}

impl From<ForgeError> for PrView {
    fn from(e: ForgeError) -> (v: PrView) {
        match e {
            ForgeError::NoCli(tool) => PrView::NoCli(tool),
            ForgeError::NotAuthed { forge, host } => PrView::NotAuthed { forge, host },
            ForgeError::NoToken(host) => PrView::NoToken(host),
            ForgeError::Other(message) => PrView::Error(message),
        }
    }
}

impl vstd::std_specs::convert::FromSpecImpl<ForgeError> for PrView {
    open spec fn obeys_from_spec() -> bool {
        true
    }

    open spec fn from_spec(e: ForgeError) -> PrView {
        view_of_error(e)
    }
}

/// Every local and configuration value that identifies one PR fetch.
#[derive(Clone, Debug, PartialEq, Eq)]
pub struct PrFetchInput {
    pub origin: RepositoryIdentity,
    pub branch: Option<String>,
    pub head_oid: Option<String>,
    pub candidates: Vec<String>,
    pub base: Option<String>,
    pub base_branches: Vec<String>,
}

/// Two fetch inputs are the same local facts: the same origin, branch, pinned `HEAD`,
/// candidates, base and base branches.
pub open spec fn same_input(a: PrFetchInput, b: PrFetchInput) -> bool {
    &&& same_identity(a.origin, b.origin)
    &&& same_opt(a.branch, b.branch)
    &&& same_opt(a.head_oid, b.head_oid)
    &&& views(a.candidates@) == views(b.candidates@)
    &&& same_opt(a.base, b.base)
    &&& views(a.base_branches@) == views(b.base_branches@)
}

impl PrFetchInput {
    /// Whether two fetch inputs are the same local facts.
    pub fn same(&self, other: &PrFetchInput) -> (r: bool)
        ensures
            r == same_input(*self, *other),
    {
        self.origin.same(&other.origin) && opt_eq(&self.branch, &other.branch) && opt_eq(
            &self.head_oid,
            &other.head_oid,
        ) && strings_eq(&self.candidates, &other.candidates) && opt_eq(&self.base, &other.base)
            && strings_eq(&self.base_branches, &other.base_branches)
    }

    /// A copy holding the same facts.
    pub fn duplicate(&self) -> (r: PrFetchInput)
        ensures
            same_input(r, *self),
    {
        PrFetchInput {
            origin: self.origin.duplicate(),
            branch: opt_copy(&self.branch),
            head_oid: opt_copy(&self.head_oid),
            candidates: strings_copy(&self.candidates),
            base: opt_copy(&self.base),
            base_branches: strings_copy(&self.base_branches),
        }
    }
}

/// The gates before a backend is dispatched: an unusable origin is its own view, and no
/// candidate (a detached `HEAD`) is the empty state rather than an unfiltered query.
pub open spec fn gate_spec(input: PrFetchInput, r: Result<RepoTarget, PrView>) -> bool {
    match input.origin {
        RepositoryIdentity::Repository(t) => if input.candidates@.len() == 0 {
            r matches Err(PrView::NoPr(v)) && v@.len() == 0
        } else {
            r == Ok::<RepoTarget, PrView>(t)
        },
        RepositoryIdentity::Missing => r == Err::<RepoTarget, PrView>(PrView::NeedsSupportedOrigin),
        RepositoryIdentity::Hostless => r == Err::<RepoTarget, PrView>(PrView::NeedsSupportedOrigin),
        RepositoryIdentity::Unsupported(host) => r == Err::<RepoTarget, PrView>(
            PrView::UnsupportedHost(host),
        ),
        RepositoryIdentity::Malformed(host) => r == Err::<RepoTarget, PrView>(
            PrView::MalformedOrigin(host),
        ),
    }
}

/// Gate one fetch: the view it resolves to without a backend, or the target to read.
pub fn fetch_gate(input: &PrFetchInput) -> (r: Result<RepoTarget, PrView>)
    ensures
        gate_spec(*input, r),
{
    match &input.origin {
        RepositoryIdentity::Repository(t) => if input.candidates.len() == 0 {
            Err(PrView::NoPr(Vec::new()))
        } else {
            Ok(crate::forge::copy_target(t))
        },
        RepositoryIdentity::Missing => Err(PrView::NeedsSupportedOrigin),
        RepositoryIdentity::Hostless => Err(PrView::NeedsSupportedOrigin),
        RepositoryIdentity::Unsupported(host) => Err(PrView::UnsupportedHost(host.clone())),
        RepositoryIdentity::Malformed(host) => Err(PrView::MalformedOrigin(host.clone())),
    }
}

/// Among one candidate's open PRs: a lone PR wins; several are decided by exactly one head at
/// the pinned `HEAD`, else their count is surfaced.
pub open spec fn decide_spec(prs: Seq<(u64, String)>, pin: Option<Seq<char>>) -> Pick {
    if prs.len() == 1 {
        Pick::One(prs[0].0)
    } else {
        let mask = Seq::new(prs.len(), |i: int| pin is Some && prs[i].1@ == pin->0);
        if exists|i: int| sole(mask, i) {
            Pick::One(prs[choose|i: int| sole(mask, i)].0)
        } else {
            Pick::Ambiguous(prs.len() as usize)
        }
    }
}

/// The open pick from candidate `k` on: the earliest candidate in derivation order holding
/// any open PR decides.
pub open spec fn select_open_from(
    per: Seq<Vec<(u64, String)>>,
    pin: Option<Seq<char>>,
    k: int,
) -> Pick
    decreases per.len() - k,
{
    if k < 0 || k >= per.len() {
        Pick::Empty
    } else if per[k]@.len() == 0 {
        select_open_from(per, pin, k + 1)
    } else {
        decide_spec(per[k]@, pin)
    }
}

/// The view of an optional string.
pub open spec fn opt_seq(o: Option<&str>) -> Option<Seq<char>> {
    match o {
        Some(s) => Some(s@),
        None => None,
    }
}

/// Decide among one candidate's (two or more, or one) open PRs.
fn decide(prs: &Vec<(u64, String)>, pinned_head: Option<&str>) -> (p: Pick)
    requires
        prs@.len() > 0,
    ensures
        p == decide_spec(prs@, opt_seq(pinned_head)),
{
    if prs.len() == 1 {
        return Pick::One(prs[0].0);
    }
    let ghost pin = opt_seq(pinned_head);
    let mut mask: Vec<bool> = Vec::new();
    let mut i: usize = 0;
    while i < prs.len()
        invariant
            i <= prs@.len(),
            mask@.len() == i,
            pin == opt_seq(pinned_head),
            forall|j: int| 0 <= j < i ==> mask@[j] == (pin is Some && prs@[j].1@ == pin->0),
        decreases prs@.len() - i,
    {
        let hit = match pinned_head {
            Some(p) => str_eq(prs[i].1.as_str(), p),
            None => false,
        };
        mask.push(hit);
        i = i + 1;
    }
    let ghost m = Seq::new(prs@.len(), |i: int| pin is Some && prs@[i].1@ == pin->0);
    proof {
        assert(mask@ =~= m);
    }
    match sole_index(&mask) {
        Some(i) => {
            proof {
                let k = choose|k: int| sole(m, k);
                assert(sole(m, k));
                if k != i {
                    assert(!m[i as int]);
                }
            }
            Pick::One(prs[i].0)
        },
        None => Pick::Ambiguous(prs.len()),
    }
}

/// Pick the open PR: the earliest candidate in derivation order holding any wins; on one name
/// backing several open PRs, exactly one head at the pinned `HEAD` wins, else the ambiguity
/// count is surfaced.
pub fn select_open(per_candidate: &[Vec<(u64, String)>], pinned_head: Option<&str>) -> (p: Pick)
    ensures
        p == select_open_from(per_candidate@, opt_seq(pinned_head), 0),
{
    let mut k: usize = 0;
    while k < per_candidate.len()
        invariant
            k <= per_candidate@.len(),
            select_open_from(per_candidate@, opt_seq(pinned_head), 0) == select_open_from(
                per_candidate@,
                opt_seq(pinned_head),
                k as int,
            ),
        decreases per_candidate@.len() - k,
    {
        if per_candidate[k].len() > 0 {
            return decide(&per_candidate[k], pinned_head);
        }
        k = k + 1;
    }
    Pick::Empty
}

/// Every candidate's entries, in candidate order.
pub open spec fn flatten(per: Seq<Vec<(u64, String)>>) -> Seq<(u64, String)>
    decreases per.len(),
{
    if per.len() == 0 {
        Seq::empty()
    } else {
        flatten(per.drop_last()) + per.last()@
    }
}

/// The created-at keys of entries.
pub open spec fn entry_keys(entries: Seq<(u64, String)>) -> Seq<Seq<char>> {
    Seq::new(entries.len(), |i: int| entries[i].1@)
}

/// The historical fallback: the newest-created merged/closed PR across all candidates, the
/// earlier one on a tie.
pub open spec fn historical_spec(per: Seq<Vec<(u64, String)>>, n: Option<u64>) -> bool {
    let all = flatten(per);
    match n {
        Some(n) => exists|i: int| is_newest(entry_keys(all), i) && all[i].0 == n,
        None => all.len() == 0,
    }
}

/// The newest-created PR across all candidates; ISO-8601 `...Z` strings compare lexically.
pub fn select_historical(per_candidate: &[Vec<(u64, String)>]) -> (n: Option<u64>)
    ensures
        historical_spec(per_candidate@, n),
{
    let mut keys: Vec<String> = Vec::new();
    let mut numbers: Vec<u64> = Vec::new();
    let mut k: usize = 0;
    while k < per_candidate.len()
        invariant
            k <= per_candidate@.len(),
            views(keys@) == entry_keys(flatten(per_candidate@.take(k as int))),
            numbers@.len() == keys@.len(),
            forall|i: int|
                0 <= i < numbers@.len() ==> numbers@[i] == flatten(per_candidate@.take(k as int))[i].0,
        decreases per_candidate@.len() - k,
    {
        let ghost before = flatten(per_candidate@.take(k as int));
        proof {
            assert(per_candidate@.take(k + 1).drop_last() =~= per_candidate@.take(k as int));
        }
        let prs = &per_candidate[k];
        let mut j: usize = 0;
        while j < prs.len()
            invariant
                j <= prs@.len(),
                views(keys@) == entry_keys(before + prs@.take(j as int)),
                numbers@.len() == keys@.len(),
                forall|i: int|
                    0 <= i < numbers@.len() ==> numbers@[i] == (before + prs@.take(j as int))[i].0,
            decreases prs@.len() - j,
        {
            push_string(&mut keys, prs[j].1.clone());
            numbers.push(prs[j].0);
            proof {
                assert(before + prs@.take(j + 1) =~= (before + prs@.take(j as int)).push(
                    prs@[j as int],
                ));
                assert(views(keys@) =~= entry_keys(before + prs@.take(j + 1)));
            }
            j = j + 1;
        }
        proof {
            assert(prs@.take(prs@.len() as int) =~= prs@);
            assert(flatten(per_candidate@.take(k + 1)) =~= before + prs@);
        }
        k = k + 1;
    }
    proof {
        assert(per_candidate@.take(per_candidate@.len() as int) =~= per_candidate@);
    }
    match crate::forge::newest_index(&keys) {
        Some(i) => Some(numbers[i]),
        None => None,
    }
}

/// A relative age label (`5m`, `2h`, `3d`, `2w`) from an ISO-8601 `...Z` timestamp, against
/// the Unix second `now`.
pub fn relative_age(created_at: &str, now: u64) -> (out: String)
    requires
        now <= i64::MAX,
    ensures
        out@ == relative_age_spec(created_at.spec_bytes(), now as int),
{
    crate::forge::relative_age(created_at, now)
}

/// Percent-encode for a URL path segment or query value: unreserved chars pass, all else
/// `%XX`.
pub fn enc(s: &str) -> (out: String)
    ensures
        out@ == percent_spec(s.spec_bytes()),
{
    crate::forge::gitlab::percent_encode(s)
}

} // verus!

//! The read-only `Issue` tab over GitHub issues: the list query (state, assignee, priority),
//! the `gh issue list` arguments it composes to, how a `gh` failure classifies, the views the
//! tab shows, and the tree order that nests a sub-issue under a parent listed with it.
//! Reading `gh`'s output is here; running `gh` is the application's work.

use vstd::prelude::*;

use crate::editor::{lowercase, to_lowercase};
use crate::git::{Forge, RepoTarget, RepositoryIdentity};
use crate::forge::github::is_bot;
use crate::json::{
    array_spec, at_spec, json_parse, member, parse_json, str_field, str_spec, text_field, text_of,
    u64_spec, Json,
};
use crate::text::{
    contains_seq, contains_str, eq_ignore_ascii_case, eq_ignore_case_spec, has_suffix,
    newest_first_keys, newest_first_order, owned, push_str, push_string, str_eq, trim, trim_spec,
    views,
};

verus! {

broadcast use vstd::std_specs::hash::group_hash_axioms;

/// Which issue set the navigator lists. Default is every open issue in the repository.
#[derive(Clone, Copy, Debug, PartialEq, Eq, Structural, Hash)]
pub enum IssueFilter {
    Open,
    Closed,
    All,
}

impl IssueFilter {
    /// The next filter: open -> closed -> all -> open.
    pub open spec fn next(self) -> IssueFilter {
        match self {
            IssueFilter::Open => IssueFilter::Closed,
            IssueFilter::Closed => IssueFilter::All,
            IssueFilter::All => IssueFilter::Open,
        }
    }

    /// The chip label.
    pub open spec fn label_spec(self) -> Seq<char> {
        match self {
            IssueFilter::Open => "open"@,
            IssueFilter::Closed => "closed"@,
            IssueFilter::All => "all"@,
        }
    }

    /// Cycle open -> closed -> all -> open for the filter key.
    pub fn cycle(self) -> (f: IssueFilter)
        ensures
            f == self.next(),
    {
        match self {
            IssueFilter::Open => IssueFilter::Closed,
            IssueFilter::Closed => IssueFilter::All,
            IssueFilter::All => IssueFilter::Open,
        }
    }

    /// Header / footer chip label.
    pub fn label(self) -> (s: &'static str)
        ensures
            s@ == self.label_spec(),
    {
        match self {
            IssueFilter::Open => "open",
            IssueFilter::Closed => "closed",
            IssueFilter::All => "all",
        }
    }

    /// The `gh issue list --state` value, the label itself.
    pub fn gh_state(self) -> (s: &'static str)
        ensures
            s@ == self.label_spec(),
    {
        self.label()
    }
}

/// Assignee dimension. Default lists every assignee; `Mine` is `gh --assignee @me`.
#[derive(Clone, Copy, Debug, PartialEq, Eq, Structural, Hash)]
pub enum IssueAssignee {
    All,
    Mine,
}

impl IssueAssignee {
    /// The other assignee setting.
    pub open spec fn next(self) -> IssueAssignee {
        match self {
            IssueAssignee::All => IssueAssignee::Mine,
            IssueAssignee::Mine => IssueAssignee::All,
        }
    }

    /// The chip label.
    pub open spec fn label_spec(self) -> Seq<char> {
        match self {
            IssueAssignee::All => "all"@,
            IssueAssignee::Mine => "mine"@,
        }
    }

    /// Toggle all <-> mine.
    pub fn cycle(self) -> (a: IssueAssignee)
        ensures
            a == self.next(),
    {
        match self {
            IssueAssignee::All => IssueAssignee::Mine,
            IssueAssignee::Mine => IssueAssignee::All,
        }
    }

    /// The chip label.
    pub fn label(self) -> (s: &'static str)
        ensures
            s@ == self.label_spec(),
    {
        match self {
            IssueAssignee::All => "all",
            IssueAssignee::Mine => "mine",
        }
    }
}

/// Priority-label dimension: any -> p0 -> p1 -> p2 -> any.
#[derive(Clone, Copy, Debug, PartialEq, Eq, Structural, Hash)]
pub enum IssuePriority {
    Any,
    P0,
    P1,
    P2,
}

impl IssuePriority {
    /// The next priority filter.
    pub open spec fn next(self) -> IssuePriority {
        match self {
            IssuePriority::Any => IssuePriority::P0,
            IssuePriority::P0 => IssuePriority::P1,
            IssuePriority::P1 => IssuePriority::P2,
            IssuePriority::P2 => IssuePriority::Any,
        }
    }

    /// The chip label.
    pub open spec fn label_spec(self) -> Seq<char> {
        match self {
            IssuePriority::Any => "any"@,
            IssuePriority::P0 => "p0"@,
            IssuePriority::P1 => "p1"@,
            IssuePriority::P2 => "p2"@,
        }
    }

    /// Cycle any -> p0 -> p1 -> p2 -> any.
    pub fn cycle(self) -> (p: IssuePriority)
        ensures
            p == self.next(),
    {
        match self {
            IssuePriority::Any => IssuePriority::P0,
            IssuePriority::P0 => IssuePriority::P1,
            IssuePriority::P1 => IssuePriority::P2,
            IssuePriority::P2 => IssuePriority::Any,
        }
    }

    /// The chip label.
    pub fn label(self) -> (s: &'static str)
        ensures
            s@ == self.label_spec(),
    {
        match self {
            IssuePriority::Any => "any",
            IssuePriority::P0 => "p0",
            IssuePriority::P1 => "p1",
            IssuePriority::P2 => "p2",
        }
    }

    /// The `gh --label` name, or `None` when unfiltered.
    pub fn gh_label(self) -> (l: Option<&'static str>)
        ensures
            match l {
                Some(s) => self != IssuePriority::Any && s@ == self.label_spec(),
                None => self == IssuePriority::Any,
            },
    {
        match self {
            IssuePriority::Any => None,
            IssuePriority::P0 => Some("p0"),
            IssuePriority::P1 => Some("p1"),
            IssuePriority::P2 => Some("p2"),
        }
    }
}

/// The filter key cycles through its three states and returns after exactly three presses;
/// the assignee toggles with period two; the priority cycles with period four.
pub proof fn law_issue_filters_cycle(f: IssueFilter, a: IssueAssignee, p: IssuePriority)
    ensures
        f.next().next().next() == f,
        f.next() != f,
        f.next().next() != f,
        a.next().next() == a,
        a.next() != a,
        p.next().next().next().next() == p,
        p.next() != p,
        p.next().next() != p,
        p.next().next().next() != p,
{
}

/// Full list query: state x assignee x priority. Cache key and `gh` argument source.
#[derive(Clone, Copy, Debug, PartialEq, Eq, Structural, Hash)]
pub struct IssueQuery {
    pub state: IssueFilter,
    pub assignee: IssueAssignee,
    pub priority: IssuePriority,
}

/// The compact summary: the state label, then the assignee and the priority labels when they
/// are not the defaults, joined by ` · `.
pub open spec fn summary_spec(q: IssueQuery) -> Seq<char> {
    let with_assignee = if q.assignee != IssueAssignee::All {
        q.state.label_spec() + " · "@ + q.assignee.label_spec()
    } else {
        q.state.label_spec()
    };
    if q.priority != IssuePriority::Any {
        with_assignee + " · "@ + q.priority.label_spec()
    } else {
        with_assignee
    }
}

impl IssueQuery {
    /// The default query: every open issue, any assignee, any priority.
    pub fn new() -> (q: IssueQuery)
        ensures
            q == (IssueQuery {
                state: IssueFilter::Open,
                assignee: IssueAssignee::All,
                priority: IssuePriority::Any,
            }),
    {
        IssueQuery {
            state: IssueFilter::Open,
            assignee: IssueAssignee::All,
            priority: IssuePriority::Any,
        }
    }

    /// Compact summary for empty states: `open`, `open · mine`, `closed · p1`, ...
    pub fn summary(self) -> (s: String)
        ensures
            s@ == summary_spec(self),
    {
        let mut s = owned(self.state.label());
        if self.assignee != IssueAssignee::All {
            push_str(&mut s, " · ");
            push_str(&mut s, self.assignee.label());
        }
        if self.priority != IssuePriority::Any {
            push_str(&mut s, " · ");
            push_str(&mut s, self.priority.label());
        }
        s
    }

    /// Navigator title suffix after `Issues · `.
    pub fn nav_title(self) -> (s: String)
        ensures
            s@ == summary_spec(self),
    {
        self.summary()
    }
}

/// One plain comment on an issue.
#[derive(Clone, Debug, PartialEq, Eq)]
pub struct IssueComment {
    pub author: String,
    pub author_is_bot: bool,
    pub body: String,
    /// ISO-8601 `...Z` post time, the newest-first sort key.
    pub created_at: String,
    pub url: String,
}

/// Lifecycle shown on a row and in the read pane.
#[derive(Clone, Copy, Debug, PartialEq, Eq, Structural)]
pub enum IssueState {
    Open,
    Closed,
}

/// One GitHub issue row.
#[derive(Clone, Debug, PartialEq, Eq)]
pub struct Issue {
    pub number: u64,
    pub title: String,
    pub body: String,
    pub state: IssueState,
    pub author: String,
    pub updated_at: String,
    pub url: String,
    pub labels: Vec<String>,
    /// Parent issue number when this is a sub-issue.
    pub parent_number: Option<u64>,
    /// Closed sub-issues under this issue.
    pub sub_completed: u32,
    /// Total sub-issues under this issue.
    pub sub_total: u32,
    /// Issue-thread comments, newest first.
    pub comments: Vec<IssueComment>,
}

impl IssueComment {
    /// A field-for-field copy.
    pub fn duplicate(&self) -> (c: IssueComment)
        ensures
            c == *self,
    {
        IssueComment {
            author: self.author.clone(),
            author_is_bot: self.author_is_bot,
            body: self.body.clone(),
            created_at: self.created_at.clone(),
            url: self.url.clone(),
        }
    }
}

impl Issue {
    /// Navigator indent depth: one level when the parent is also present in the list.
    pub fn tree_depth(&self, present: &std::collections::HashSet<u64>) -> (d: usize)
        ensures
            d == (if self.parent_number is Some && present@.contains(self.parent_number->0) {
                1usize
            } else {
                0usize
            }),
    {
        match self.parent_number {
            Some(parent) => if present.contains(&parent) {
                1
            } else {
                0
            },
            None => 0,
        }
    }

    /// A field-for-field copy.
    pub fn duplicate(&self) -> (c: Issue)
        ensures
            same_issue(c, *self),
    {
        let mut labels: Vec<String> = Vec::new();
        let mut i: usize = 0;
        while i < self.labels.len()
            invariant
                i <= self.labels@.len(),
                labels@ == self.labels@.take(i as int),
            decreases self.labels@.len() - i,
        {
            labels.push(self.labels[i].clone());
            proof {
                assert(labels@ =~= self.labels@.take(i + 1));
            }
            i = i + 1;
        }
        let mut comments: Vec<IssueComment> = Vec::new();
        let mut j: usize = 0;
        while j < self.comments.len()
            invariant
                j <= self.comments@.len(),
                comments@ == self.comments@.take(j as int),
            decreases self.comments@.len() - j,
        {
            comments.push(self.comments[j].duplicate());
            proof {
                assert(comments@ =~= self.comments@.take(j + 1));
            }
            j = j + 1;
        }
        proof {
            assert(labels@ =~= self.labels@);
            assert(comments@ =~= self.comments@);
        }
        Issue {
            number: self.number,
            title: self.title.clone(),
            body: self.body.clone(),
            state: self.state,
            author: self.author.clone(),
            updated_at: self.updated_at.clone(),
            url: self.url.clone(),
            labels,
            parent_number: self.parent_number,
            sub_completed: self.sub_completed,
            sub_total: self.sub_total,
            comments,
        }
    }
}

/// A successful list fetch for one query.
#[derive(Clone, Debug, PartialEq, Eq)]
pub struct IssueSnapshot {
    pub query: IssueQuery,
    pub issues: Vec<Issue>,
    /// The fetch hit the cap: more issues may exist on GitHub.
    pub truncated: bool,
}

/// What the `Issue` tab shows.
#[derive(Clone, Debug, PartialEq, Eq)]
pub enum IssueView {
    /// Work pending; under the loading-indicator delay.
    Pending,
    /// Work crossed the loading-indicator delay without a snapshot.
    Loading,
    /// A list (possibly empty) for the active query.
    List(IssueSnapshot),
    /// `gh` is not on `PATH`.
    NoCli,
    /// `gh` is installed but not authenticated for this host.
    NotAuthed(String),
    /// No recognized forge remote.
    NeedsForgeRemote,
    /// Remote host is not a supported forge host.
    UnsupportedHost(String),
    /// Remote host is supported but path is not a repository.
    MalformedOrigin(String),
    /// Repository is not GitHub: Issues are GitHub-only.
    NeedsGitHub,
    /// Local Git read failed before the fetch.
    GitError(String),
    /// Transient CLI failure; the app freezes the last good view when one exists.
    Error(String),
}

/// The retry hint of a retryable view, for the refresh key `refresh`.
pub open spec fn retry_remedy_spec(v: IssueView, refresh: Seq<char>) -> Option<Seq<char>> {
    match v {
        IssueView::NoCli => Some(
            "GitHub CLI not found. Install `gh`, then press "@ + refresh + "."@,
        ),
        IssueView::NotAuthed(host) => Some(
            "Not signed in to "@ + host@ + ". Run `gh auth login --hostname "@ + host@
                + "`, then press "@ + refresh + "."@,
        ),
        IssueView::GitError(message) => Some(
            "Git read failed: "@ + message@ + ". Press "@ + refresh + " to retry."@,
        ),
        IssueView::Error(message) => Some(
            "GitHub unavailable: "@ + message@ + ". Press "@ + refresh + " to retry."@,
        ),
        _ => None,
    }
}

impl IssueView {
    /// Retryable failure message for the notice strip / empty pane; `refresh` is the hint text
    /// of the key bound to refresh.
    pub fn retry_remedy(&self, refresh: &str) -> (out: Option<String>)
        ensures
            match out {
                Some(s) => retry_remedy_spec(*self, refresh@) == Some(s@),
                None => retry_remedy_spec(*self, refresh@) is None,
            },
    {
        let mut s = String::new();
        match self {
            IssueView::NoCli => {
                push_str(&mut s, "GitHub CLI not found. Install `gh`, then press ");
                push_str(&mut s, refresh);
                push_str(&mut s, ".");
            },
            IssueView::NotAuthed(host) => {
                push_str(&mut s, "Not signed in to ");
                push_str(&mut s, host.as_str());
                push_str(&mut s, ". Run `gh auth login --hostname ");
                push_str(&mut s, host.as_str());
                push_str(&mut s, "`, then press ");
                push_str(&mut s, refresh);
                push_str(&mut s, ".");
            },
            IssueView::GitError(message) => {
                push_str(&mut s, "Git read failed: ");
                push_str(&mut s, message.as_str());
                push_str(&mut s, ". Press ");
                push_str(&mut s, refresh);
                push_str(&mut s, " to retry.");
            },
            IssueView::Error(message) => {
                push_str(&mut s, "GitHub unavailable: ");
                push_str(&mut s, message.as_str());
                push_str(&mut s, ". Press ");
                push_str(&mut s, refresh);
                push_str(&mut s, " to retry.");
            },
            _ => {
                return None;
            },
        }
        Some(s)
    }
}

/// A classified `gh issue list` failure.
#[derive(Debug, PartialEq, Eq)]
pub enum IssueError {
    NoCli,
    NotAuthed(String),
    Other(String),
}

/// The view of a failure.
pub open spec fn view_of_error(e: IssueError) -> IssueView {
    match e {
        IssueError::NoCli => IssueView::NoCli,
        IssueError::NotAuthed(host) => IssueView::NotAuthed(host),
        IssueError::Other(message) => IssueView::Error(message),
    }
}

impl From<IssueError> for IssueView {
    fn from(e: IssueError) -> (v: IssueView) {
        match e {
            IssueError::NoCli => IssueView::NoCli,
            IssueError::NotAuthed(host) => IssueView::NotAuthed(host),
            IssueError::Other(message) => IssueView::Error(message),
        }
    }
}

impl vstd::std_specs::convert::FromSpecImpl<IssueError> for IssueView {
    open spec fn obeys_from_spec() -> bool {
        true
    }

    open spec fn from_spec(e: IssueError) -> IssueView {
        view_of_error(e)
    }
}

/// Sign-in wording, a bad-credentials reply, or an HTTP 401 is an authentication failure for
/// the host; anything else a transient error with the trimmed stderr.
pub open spec fn classify_spec(stderr: Seq<char>, host: Seq<char>, out: IssueError) -> bool {
    let s = lowercase(stderr);
    if contains_seq(s, "not logged"@) || contains_seq(s, "authentication"@) || contains_seq(
        s,
        "gh auth login"@,
    ) || contains_seq(s, "bad credentials"@) || contains_seq(s, "http 401"@) || contains_seq(
        s,
        "status 401"@,
    ) {
        out matches IssueError::NotAuthed(h) && h@ == host
    } else {
        out matches IssueError::Other(m) && m@ == trim_spec(stderr)
    }
}

/// Map a failed `gh issue list`'s stderr to a failure by its wording.
pub fn classify_failure(stderr: &str, host: &str) -> (out: IssueError)
    ensures
        classify_spec(stderr@, host@, out),
{
    let lower = to_lowercase(stderr);
    let s = lower.as_str();
    if contains_str(s, "not logged") || contains_str(s, "authentication") || contains_str(
        s,
        "gh auth login",
    ) || contains_str(s, "bad credentials") || contains_str(s, "http 401") || contains_str(
        s,
        "status 401",
    ) {
        IssueError::NotAuthed(owned(host))
    } else {
        IssueError::Other(trim(stderr))
    }
}

/// Two issues with the same fields (their lists compared by contents).
pub open spec fn same_issue(a: Issue, b: Issue) -> bool {
    &&& a.number == b.number
    &&& a.title == b.title
    &&& a.body == b.body
    &&& a.state == b.state
    &&& a.author == b.author
    &&& a.updated_at == b.updated_at
    &&& a.url == b.url
    &&& a.labels@ == b.labels@
    &&& a.parent_number == b.parent_number
    &&& a.sub_completed == b.sub_completed
    &&& a.sub_total == b.sub_total
    &&& a.comments@ == b.comments@
}

/// Two issue lists that agree position by position.
pub open spec fn same_issues(a: Seq<Issue>, b: Seq<Issue>) -> bool {
    a.len() == b.len() && forall|k: int| 0 <= k < a.len() ==> same_issue(#[trigger] a[k], b[k])
}

/// Whether an issue numbered `n` is in the list.
pub open spec fn present(issues: Seq<Issue>, n: u64) -> bool {
    exists|k: int| 0 <= k < issues.len() && (#[trigger] issues[k]).number == n
}

/// Whether `x` nests: its parent is listed too.
pub open spec fn nested(issues: Seq<Issue>, x: Issue) -> bool {
    x.parent_number is Some && present(issues, x.parent_number->0)
}

/// The listed children of parent `p`, in input order.
pub open spec fn kids(issues: Seq<Issue>, p: u64) -> Seq<Issue> {
    issues.filter(|x: Issue| nested(issues, x) && x.parent_number == Some(p))
}

/// Whether position `i` is the first root numbered like it.
pub open spec fn first_root(issues: Seq<Issue>, i: int) -> bool {
    !nested(issues, issues[i]) && forall|j: int|
        0 <= j < i ==> !(!nested(issues, #[trigger] issues[j]) && issues[j].number
            == issues[i].number)
}

/// Whether some root carries number `p`, so its children were placed under it.
pub open spec fn claimed(issues: Seq<Issue>, p: u64) -> bool {
    exists|j: int|
        0 <= j < issues.len() && !nested(issues, #[trigger] issues[j]) && issues[j].number == p
}

/// Whether position `i` is the first child of its parent.
pub open spec fn first_kid(issues: Seq<Issue>, i: int) -> bool {
    nested(issues, issues[i]) && forall|j: int|
        0 <= j < i ==> !(nested(issues, #[trigger] issues[j]) && issues[j].parent_number
            == issues[i].parent_number)
}

/// The roots of the first `k` positions in input order, each followed (at its first
/// occurrence) by its children.
pub open spec fn root_part(issues: Seq<Issue>, k: int) -> Seq<Issue>
    decreases k,
{
    if k <= 0 {
        Seq::empty()
    } else {
        let i = k - 1;
        let x = issues[i];
        root_part(issues, i) + if !nested(issues, x) {
            seq![x] + if first_root(issues, i) {
                kids(issues, x.number)
            } else {
                Seq::empty()
            }
        } else {
            Seq::empty()
        }
    }
}

/// The children whose listed parent is itself nested, grouped by parent in the order of each
/// group's first child among the first `k` positions.
pub open spec fn orphan_part(issues: Seq<Issue>, k: int) -> Seq<Issue>
    decreases k,
{
    if k <= 0 {
        Seq::empty()
    } else {
        let i = k - 1;
        let x = issues[i];
        orphan_part(issues, i) + if first_kid(issues, i) && !claimed(
            issues,
            x.parent_number->0,
        ) {
            kids(issues, x.parent_number->0)
        } else {
            Seq::empty()
        }
    }
}

/// The tree order: every root in input order with its children right after it, then the
/// children of parents that are themselves nested, grouped by parent.
pub open spec fn tree_order(issues: Seq<Issue>) -> Seq<Issue> {
    root_part(issues, issues.len() as int) + orphan_part(issues, issues.len() as int)
}

/// Which issues nest under a listed parent.
fn nested_mask(issues: &[Issue]) -> (m: Vec<bool>)
    ensures
        m@.len() == issues@.len(),
        forall|k: int| 0 <= k < issues@.len() ==> m@[k] == nested(issues@, #[trigger] issues@[k]),
{
    let mut m: Vec<bool> = Vec::new();
    let mut i: usize = 0;
    while i < issues.len()
        invariant
            i <= issues@.len(),
            m@.len() == i,
            forall|k: int| 0 <= k < i ==> m@[k] == nested(issues@, #[trigger] issues@[k]),
        decreases issues@.len() - i,
    {
        let hit = match issues[i].parent_number {
            Some(p) => {
                let mut found = false;
                let mut j: usize = 0;
                while j < issues.len()
                    invariant
                        j <= issues@.len(),
                        found == exists|q: int| 0 <= q < j && (#[trigger] issues@[q]).number == p,
                    decreases issues@.len() - j,
                {
                    if issues[j].number == p {
                        found = true;
                    }
                    j = j + 1;
                }
                found
            },
            None => false,
        };
        m.push(hit);
        i = i + 1;
    }
    m
}

/// Append to `out` a copy of every listed child of `p`.
fn push_kids(issues: &[Issue], mask: &Vec<bool>, p: u64, out: &mut Vec<Issue>, Ghost(expect): Ghost<
    Seq<Issue>,
>)
    requires
        mask@.len() == issues@.len(),
        forall|k: int| 0 <= k < issues@.len() ==> mask@[k] == nested(issues@, #[trigger] issues@[k]),
        same_issues(old(out)@, expect),
    ensures
        same_issues(final(out)@, expect + kids(issues@, p)),
{
    let ghost pred = |x: Issue| nested(issues@, x) && x.parent_number == Some(p);
    let mut j: usize = 0;
    while j < issues.len()
        invariant
            j <= issues@.len(),
            mask@.len() == issues@.len(),
            forall|k: int|
                0 <= k < issues@.len() ==> mask@[k] == nested(issues@, #[trigger] issues@[k]),
            same_issues(out@, expect + issues@.take(j as int).filter(pred)),
            pred == (|x: Issue| nested(issues@, x) && x.parent_number == Some(p)),
        decreases issues@.len() - j,
    {
        proof {
            assert(issues@.take(j + 1) =~= issues@.take(j as int).push(issues@[j as int]));
            issues@.take(j as int).lemma_filter_push(issues@[j as int], pred);
        }
        if mask[j] && issues[j].parent_number == Some(p) {
            let ghost before = out@;
            out.push(issues[j].duplicate());
            proof {
                let e = expect + issues@.take(j as int).filter(pred);
                assert(e.push(issues@[j as int]) =~= expect + issues@.take(j + 1).filter(pred));
                assert forall|k: int| 0 <= k < out@.len() implies same_issue(
                    #[trigger] out@[k],
                    e.push(issues@[j as int])[k],
                ) by {
                    if k < before.len() {
                        assert(out@[k] == before[k]);
                    }
                }
            }
        }
        j = j + 1;
    }
    proof {
        assert(issues@.take(issues@.len() as int) =~= issues@);
    }
}

/// How often `v` occurs in `q`.
pub open spec fn occurrences(q: Seq<Issue>, v: Issue) -> nat
    decreases q.len(),
{
    if q.len() == 0 {
        0
    } else {
        occurrences(q.drop_last(), v) + if q.last() == v {
            1nat
        } else {
            0nat
        }
    }
}

/// Occurrences add up over a concatenation.
proof fn lemma_occurrences_concat(a: Seq<Issue>, b: Seq<Issue>, v: Issue)
    ensures
        occurrences(a + b, v) == occurrences(a, v) + occurrences(b, v),
    decreases b.len(),
{
    if b.len() == 0 {
        assert(a + b =~= a);
    } else {
        assert((a + b).drop_last() =~= a + b.drop_last());
        assert((a + b).last() == b.last());
        lemma_occurrences_concat(a, b.drop_last(), v);
    }
}

/// A filter keeps every occurrence of a value it admits, and none of one it does not.
proof fn lemma_occurrences_filter(q: Seq<Issue>, pred: spec_fn(Issue) -> bool, v: Issue)
    ensures
        occurrences(q.filter(pred), v) == if pred(v) {
            occurrences(q, v)
        } else {
            0
        },
    decreases q.len(),
{
    if q.len() == 0 {
        assert(q.filter(pred) =~= Seq::<Issue>::empty()) by {
            reveal(Seq::filter);
        }
    } else {
        let init = q.drop_last();
        assert(init.push(q.last()) =~= q);
        init.lemma_filter_push(q.last(), pred);
        lemma_occurrences_filter(init, pred, v);
        if pred(q.last()) {
            assert(init.filter(pred).push(q.last()).drop_last() =~= init.filter(pred));
        }
    }
}

/// Occurrences of a prefix grow by the next element.
proof fn lemma_occurrences_take(q: Seq<Issue>, k: int, v: Issue)
    requires
        0 < k <= q.len(),
    ensures
        occurrences(q.take(k), v) == occurrences(q.take(k - 1), v) + if q[k - 1] == v {
            1nat
        } else {
            0nat
        },
{
    assert(q.take(k).drop_last() =~= q.take(k - 1));
}

/// The children of `p` hold every occurrence of `v` when `v` is a listed child of `p`, and
/// none otherwise.
proof fn lemma_occurrences_kids(s: Seq<Issue>, p: u64, v: Issue)
    ensures
        occurrences(kids(s, p), v) == if nested(s, v) && v.parent_number == Some(p) {
            occurrences(s, v)
        } else {
            0
        },
{
    let pred = |x: Issue| nested(s, x) && x.parent_number == Some(p);
    assert(kids(s, p) == s.filter(pred));
    lemma_occurrences_filter(s, pred, v);
}

/// Whether a root among the first `k` positions carries number `p`.
pub open spec fn root_numbered(s: Seq<Issue>, p: u64, k: int) -> bool {
    exists|j: int| 0 <= j < k && !nested(s, #[trigger] s[j]) && s[j].number == p
}

/// Whether a child of `p` nests among the first `k` positions.
pub open spec fn kid_of(s: Seq<Issue>, p: u64, k: int) -> bool {
    exists|j: int| 0 <= j < k && nested(s, #[trigger] s[j]) && s[j].parent_number == Some(p)
}

/// The roots part holds every occurrence of a root issue among the first `k` positions, and
/// every occurrence of a nested one once a root numbered like its parent was reached.
proof fn lemma_root_part_occurrences(s: Seq<Issue>, k: int, v: Issue)
    requires
        0 <= k <= s.len(),
    ensures
        !nested(s, v) ==> occurrences(root_part(s, k), v) == occurrences(s.take(k), v),
        nested(s, v) ==> occurrences(root_part(s, k), v) == if root_numbered(
            s,
            v.parent_number->0,
            k,
        ) {
            occurrences(s, v)
        } else {
            0
        },
    decreases k,
{
    if k == 0 {
        assert(s.take(0) =~= Seq::<Issue>::empty());
        assert(!root_numbered(s, v.parent_number->0, 0));
    } else {
        let i = k - 1;
        let x = s[i];
        lemma_root_part_occurrences(s, i, v);
        lemma_occurrences_take(s, k, v);
        let tail = if !nested(s, x) {
            seq![x] + if first_root(s, i) {
                kids(s, x.number)
            } else {
                Seq::empty()
            }
        } else {
            Seq::empty()
        };
        assert(root_part(s, k) == root_part(s, i) + tail);
        lemma_occurrences_concat(root_part(s, i), tail, v);
        lemma_occurrences_kids(s, x.number, v);
        if !nested(s, x) {
            assert(seq![x].drop_last() =~= Seq::<Issue>::empty());
            lemma_occurrences_concat(
                seq![x],
                if first_root(s, i) {
                    kids(s, x.number)
                } else {
                    Seq::empty()
                },
                v,
            );
            assert(occurrences(Seq::<Issue>::empty(), v) == 0);
        } else {
            assert(occurrences(Seq::<Issue>::empty(), v) == 0);
        }
        if nested(s, v) {
            let p0 = v.parent_number->0;
            if root_numbered(s, p0, k) && !root_numbered(s, p0, i) {
                assert(!nested(s, x) && x.number == p0);
                assert(first_root(s, i));
            }
            if root_numbered(s, p0, i) {
                let j = choose|j: int| 0 <= j < i && !nested(s, #[trigger] s[j]) && s[j].number == p0;
                assert(0 <= j < k && !nested(s, s[j]) && s[j].number == p0);
                if !nested(s, x) && x.number == p0 {
                    assert(!first_root(s, i));
                }
            }
            if !root_numbered(s, p0, k) {
                assert(!(!nested(s, x) && x.number == p0));
            }
        }
    }
}

/// The nested-parents part holds every occurrence of a nested issue whose parent no root
/// carries, once a child of that parent was reached among the first `k` positions; nothing
/// else.
proof fn lemma_orphan_part_occurrences(s: Seq<Issue>, k: int, v: Issue)
    requires
        0 <= k <= s.len(),
    ensures
        !nested(s, v) ==> occurrences(orphan_part(s, k), v) == 0,
        nested(s, v) ==> occurrences(orphan_part(s, k), v) == if !claimed(s, v.parent_number->0)
            && kid_of(s, v.parent_number->0, k) {
            occurrences(s, v)
        } else {
            0
        },
    decreases k,
{
    if k == 0 {
        assert(!kid_of(s, v.parent_number->0, 0));
    } else {
        let i = k - 1;
        let x = s[i];
        lemma_orphan_part_occurrences(s, i, v);
        let tail = if first_kid(s, i) && !claimed(s, x.parent_number->0) {
            kids(s, x.parent_number->0)
        } else {
            Seq::empty()
        };
        assert(orphan_part(s, k) == orphan_part(s, i) + tail);
        lemma_occurrences_concat(orphan_part(s, i), tail, v);
        lemma_occurrences_kids(s, x.parent_number->0, v);
        assert(occurrences(Seq::<Issue>::empty(), v) == 0);
        if nested(s, v) {
            let p0 = v.parent_number->0;
            if kid_of(s, p0, k) && !kid_of(s, p0, i) {
                assert(nested(s, x) && x.parent_number == Some(p0));
                assert(first_kid(s, i));
            }
            if kid_of(s, p0, i) {
                let j = choose|j: int|
                    0 <= j < i && nested(s, #[trigger] s[j]) && s[j].parent_number == Some(p0);
                assert(0 <= j < k && nested(s, s[j]) && s[j].parent_number == Some(p0));
                if nested(s, x) && x.parent_number == Some(p0) {
                    assert(!first_kid(s, i));
                }
            }
            if !kid_of(s, p0, k) {
                assert(!(nested(s, x) && x.parent_number == Some(p0)));
            }
            if first_kid(s, i) && x.parent_number->0 == p0 {
                assert(x.parent_number == Some(p0));
            }
        }
    }
}

/// A value that occurs somewhere is at some position.
proof fn lemma_occurs_at(q: Seq<Issue>, v: Issue)
    requires
        occurrences(q, v) > 0,
    ensures
        exists|j: int| 0 <= j < q.len() && q[j] == v,
    decreases q.len(),
{
    if q.last() == v {
        assert(q[q.len() - 1] == v);
    } else {
        lemma_occurs_at(q.drop_last(), v);
        let j = choose|j: int| 0 <= j < q.drop_last().len() && q.drop_last()[j] == v;
        assert(q[j] == v);
    }
}

/// Ordering issues as a tree only moves them: every issue occurs in the tree order exactly as
/// often as in the input, so none is dropped or repeated.
pub proof fn law_tree_order_is_a_permutation(issues: Seq<Issue>, v: Issue)
    ensures
        occurrences(tree_order(issues), v) == occurrences(issues, v),
{
    let s = issues;
    let n = s.len() as int;
    lemma_root_part_occurrences(s, n, v);
    lemma_orphan_part_occurrences(s, n, v);
    lemma_occurrences_concat(root_part(s, n), orphan_part(s, n), v);
    assert(s.take(n) =~= s);
    if nested(s, v) {
        let p0 = v.parent_number->0;
        if root_numbered(s, p0, n) {
            let j = choose|j: int| 0 <= j < n && !nested(s, #[trigger] s[j]) && s[j].number == p0;
            assert(claimed(s, p0)) by {
                assert(0 <= j < s.len() && !nested(s, s[j]) && s[j].number == p0);
            }
        } else {
            assert(!claimed(s, p0));
            if occurrences(s, v) > 0 {
                lemma_occurs_at(s, v);
                let j = choose|j: int| 0 <= j < s.len() && s[j] == v;
                assert(nested(s, s[j]) && s[j].parent_number == Some(p0));
                assert(kid_of(s, p0, n));
            }
        }
    }
}

/// Put each child immediately under its parent when both are in the list (one nesting
/// level). Children whose parent is missing stay top-level; relative order among roots and
/// among siblings follows the input order. Children of a parent that is itself nested are
/// listed after the roots, grouped by parent.
pub fn order_as_tree(issues: Vec<Issue>) -> (out: Vec<Issue>)
    ensures
        same_issues(out@, tree_order(issues@)),
{
    let ghost all = issues@;
    let n = issues.len();
    let mask = nested_mask(issues.as_slice());
    let mut out: Vec<Issue> = Vec::new();
    let mut i: usize = 0;
    while i < n
        invariant
            n == all.len(),
            issues@ == all,
            i <= n,
            mask@.len() == all.len(),
            forall|k: int| 0 <= k < all.len() ==> mask@[k] == nested(all, #[trigger] all[k]),
            same_issues(out@, root_part(all, i as int)),
        decreases n - i,
    {
        if !mask[i] {
            let ghost before = out@;
            out.push(issues[i].duplicate());
            proof {
                assert forall|k: int| 0 <= k < out@.len() implies same_issue(
                    #[trigger] out@[k],
                    root_part(all, i as int).push(all[i as int])[k],
                ) by {
                    if k < before.len() {
                        assert(out@[k] == before[k]);
                    }
                }
            }
            let mut first = true;
            let mut j: usize = 0;
            while j < i
                invariant
                    j <= i < all.len(),
                    issues@ == all,
                    mask@.len() == all.len(),
                    forall|k: int| 0 <= k < all.len() ==> mask@[k] == nested(all, #[trigger] all[k]),
                    first == forall|q: int|
                        0 <= q < j ==> !(!nested(all, #[trigger] all[q]) && all[q].number
                            == all[i as int].number),
                decreases i - j,
            {
                if !mask[j] && issues[j].number == issues[i].number {
                    first = false;
                }
                j = j + 1;
            }
            if first {
                push_kids(
                    issues.as_slice(),
                    &mask,
                    issues[i].number,
                    &mut out,
                    Ghost(root_part(all, i as int).push(all[i as int])),
                );
                proof {
                    assert(root_part(all, i + 1) =~= root_part(all, i as int).push(all[i as int])
                        + kids(all, all[i as int].number));
                }
            } else {
                proof {
                    assert(root_part(all, i + 1) =~= root_part(all, i as int).push(
                        all[i as int],
                    ));
                }
            }
        } else {
            proof {
                assert(root_part(all, i + 1) =~= root_part(all, i as int));
            }
        }
        i = i + 1;
    }
    let ghost roots = out@;
    let mut i: usize = 0;
    while i < n
        invariant
            n == all.len(),
            issues@ == all,
            i <= n,
            mask@.len() == all.len(),
            forall|k: int| 0 <= k < all.len() ==> mask@[k] == nested(all, #[trigger] all[k]),
            same_issues(out@, root_part(all, n as int) + orphan_part(all, i as int)),
        decreases n - i,
    {
        if mask[i] {
            let p = match issues[i].parent_number {
                Some(p) => p,
                None => 0,
            };
            let mut first = true;
            let mut claimed_by_root = false;
            let mut j: usize = 0;
            while j < n
                invariant
                    j <= n == all.len(),
                    i < n,
                    issues@ == all,
                    mask@.len() == all.len(),
                    nested(all, all[i as int]),
                    p == all[i as int].parent_number->0,
                    forall|k: int| 0 <= k < all.len() ==> mask@[k] == nested(all, #[trigger] all[k]),
                    first == forall|q: int|
                        0 <= q < j && q < i ==> !(nested(all, #[trigger] all[q])
                            && all[q].parent_number == all[i as int].parent_number),
                    claimed_by_root == exists|q: int|
                        0 <= q < j && !nested(all, #[trigger] all[q]) && all[q].number == p,
                decreases n - j,
            {
                if j < i && mask[j] && issues[j].parent_number == Some(p) {
                    first = false;
                }
                if !mask[j] && issues[j].number == p {
                    claimed_by_root = true;
                }
                j = j + 1;
            }
            if first && !claimed_by_root {
                push_kids(
                    issues.as_slice(),
                    &mask,
                    p,
                    &mut out,
                    Ghost(root_part(all, n as int) + orphan_part(all, i as int)),
                );
                proof {
                    assert(orphan_part(all, i + 1) =~= orphan_part(all, i as int) + kids(all, p));
                    assert(root_part(all, n as int) + orphan_part(all, i + 1) =~= root_part(
                        all,
                        n as int,
                    ) + orphan_part(all, i as int) + kids(all, p));
                }
            } else {
                proof {
                    assert(orphan_part(all, i + 1) =~= orphan_part(all, i as int));
                }
            }
        } else {
            proof {
                assert(orphan_part(all, i + 1) =~= orphan_part(all, i as int));
            }
        }
        i = i + 1;
    }
    out
}

/// How many issues one fetch returns.
pub const ISSUE_CAP: usize = 100;

/// The gates before `gh` runs: an unusable remote is its own view, and Issues are GitHub-only.
pub open spec fn gate_spec(repository: RepositoryIdentity) -> Result<RepoTarget, IssueView> {
    match repository {
        RepositoryIdentity::Repository(t) => if t.forge == Forge::GitHub {
            Ok(t)
        } else {
            Err(IssueView::NeedsGitHub)
        },
        RepositoryIdentity::Missing => Err(IssueView::NeedsForgeRemote),
        RepositoryIdentity::Hostless => Err(IssueView::NeedsForgeRemote),
        RepositoryIdentity::Unsupported(host) => Err(IssueView::UnsupportedHost(host)),
        RepositoryIdentity::Malformed(host) => Err(IssueView::MalformedOrigin(host)),
    }
}

/// Gate one issue fetch: the view it resolves to without `gh`, or the GitHub repository.
pub fn fetch_gate(repository: &RepositoryIdentity) -> (r: Result<RepoTarget, IssueView>)
    ensures
        r == gate_spec(*repository),
{
    match repository {
        RepositoryIdentity::Repository(t) => if t.forge == Forge::GitHub {
            Ok(crate::forge::copy_target(t))
        } else {
            Err(IssueView::NeedsGitHub)
        },
        RepositoryIdentity::Missing => Err(IssueView::NeedsForgeRemote),
        RepositoryIdentity::Hostless => Err(IssueView::NeedsForgeRemote),
        RepositoryIdentity::Unsupported(host) => Err(IssueView::UnsupportedHost(host.clone())),
        RepositoryIdentity::Malformed(host) => Err(IssueView::MalformedOrigin(host.clone())),
    }
}

/// The `--repo` value: `OWNER/REPO` on github.com, `HOST/OWNER/REPO` elsewhere (`gh issue
/// list` has no `--hostname`).
pub open spec fn repo_arg_spec(t: RepoTarget) -> Seq<char> {
    if crate::text::eq_ignore_case_spec(t.host@, "github.com"@) {
        t.owner@ + "/"@ + t.name@
    } else {
        t.host@ + "/"@ + t.owner@ + "/"@ + t.name@
    }
}

/// The fields `gh issue list --json` asks for.
pub open spec fn json_fields() -> Seq<char> {
    "number,title,body,state,author,updatedAt,url,labels,parent,subIssuesSummary,comments"@
}

/// The `gh issue list` arguments for one query against one repository.
pub open spec fn list_args_spec(t: RepoTarget, q: IssueQuery) -> Seq<Seq<char>> {
    let base = seq![
        "issue"@,
        "list"@,
        "--repo"@,
        repo_arg_spec(t),
        "--state"@,
        q.state.label_spec(),
        "--limit"@,
        "100"@,
        "--json"@,
        json_fields(),
    ];
    let with_assignee = if q.assignee == IssueAssignee::Mine {
        base + seq!["--assignee"@, "@me"@]
    } else {
        base
    };
    if q.priority != IssuePriority::Any {
        with_assignee + seq!["--label"@, q.priority.label_spec()]
    } else {
        with_assignee
    }
}

/// Compose the `gh issue list` arguments for `query` against `target`.
pub fn list_args(target: &RepoTarget, query: IssueQuery) -> (args: Vec<String>)
    ensures
        views(args@) == list_args_spec(*target, query),
{
    let mut repo_arg = String::new();
    if !crate::text::eq_ignore_ascii_case(target.host.as_str(), "github.com") {
        push_str(&mut repo_arg, target.host.as_str());
        push_str(&mut repo_arg, "/");
    }
    push_str(&mut repo_arg, target.owner.as_str());
    push_str(&mut repo_arg, "/");
    push_str(&mut repo_arg, target.name.as_str());
    let mut args: Vec<String> = Vec::new();
    push_string(&mut args, owned("issue"));
    push_string(&mut args, owned("list"));
    push_string(&mut args, owned("--repo"));
    push_string(&mut args, repo_arg);
    push_string(&mut args, owned("--state"));
    push_string(&mut args, owned(query.state.gh_state()));
    push_string(&mut args, owned("--limit"));
    push_string(&mut args, crate::text::u64_string(100));
    push_string(&mut args, owned("--json"));
    push_string(
        &mut args,
        owned("number,title,body,state,author,updatedAt,url,labels,parent,subIssuesSummary,comments"),
    );
    if query.assignee == IssueAssignee::Mine {
        push_string(&mut args, owned("--assignee"));
        push_string(&mut args, owned("@me"));
    }
    if let Some(label) = query.priority.gh_label() {
        push_string(&mut args, owned("--label"));
        push_string(&mut args, owned(label));
    }
    proof {
        reveal_strlit("100");
        assert(crate::text::decimal(100) =~= "100"@) by {
            reveal_with_fuel(crate::text::decimal, 4);
        }
        assert(views(args@) =~= list_args_spec(*target, query));
    }
    args
}

/// The list view of a successful fetch: the issues in tree order, flagged truncated when the
/// fetch hit the cap.
pub fn list_view(query: IssueQuery, issues: Vec<Issue>) -> (v: IssueView)
    ensures
        v matches IssueView::List(snap) && snap.query == query && same_issues(
            snap.issues@,
            tree_order(issues@),
        ) && snap.truncated == (issues@.len() >= ISSUE_CAP),
{
    let truncated = issues.len() >= ISSUE_CAP;
    let ordered = order_as_tree(issues);
    IssueView::List(IssueSnapshot { query, issues: ordered, truncated })
}


/// A comment row worth showing: it has an author login or a body.
pub open spec fn comment_row_kept(row: Json) -> bool {
    !(text_of(at_spec(at_spec(row, "author"@), "login"@)).len() == 0 && text_of(
        at_spec(row, "body"@),
    ).len() == 0)
}

/// The comment rows of an issue's `comments` value that are kept, in order.
pub open spec fn kept_comment_rows(value: Json) -> Seq<Json> {
    match array_spec(value) {
        Some(rows) => rows.filter(|r: Json| comment_row_kept(r)),
        None => Seq::empty(),
    }
}

/// How a comment row reads: the author's login (a bot when it ends in `[bot]`), the body,
/// the post time and the link, each empty when absent.
pub open spec fn row_comment(row: Json, c: IssueComment) -> bool {
    let login = text_of(at_spec(at_spec(row, "author"@), "login"@));
    &&& c.author@ == login
    &&& c.author_is_bot == has_suffix(login, "[bot]"@)
    &&& c.body@ == text_of(at_spec(row, "body"@))
    &&& c.created_at@ == text_of(at_spec(row, "createdAt"@))
    &&& c.url@ == text_of(at_spec(row, "url"@))
}

/// Whether `out` lists the kept rows of `value`, in order, each read as [`row_comment`].
pub open spec fn comments_from(value: Json, out: Seq<IssueComment>) -> bool {
    &&& out.len() == kept_comment_rows(value).len()
    &&& forall|i: int|
        0 <= i < out.len() ==> row_comment(kept_comment_rows(value)[i], #[trigger] out[i])
}

/// Read an issue's comment rows: rows with neither an author nor a body are dropped.
pub fn parse_comments(value: &Json) -> (out: Vec<IssueComment>)
    ensures
        comments_from(*value, out@),
{
    let mut out: Vec<IssueComment> = Vec::new();
    match value.as_array() {
        Some(rows) => {
            let ghost all = rows@;
            let mut i: usize = 0;
            while i < rows.len()
                invariant
                    all == rows@,
                    array_spec(*value) == Some(all),
                    i <= all.len(),
                    out@.len() == all.take(i as int).filter(|r: Json| comment_row_kept(r)).len(),
                    forall|j: int|
                        0 <= j < out@.len() ==> row_comment(
                            all.take(i as int).filter(|r: Json| comment_row_kept(r))[j],
                            #[trigger] out@[j],
                        ),
                decreases all.len() - i,
            {
                proof {
                    assert(all.take(i + 1) =~= all.take(i as int).push(all[i as int]));
                    all.take(i as int).lemma_filter_push(all[i as int], |r: Json| comment_row_kept(r));
                }
                let row = &rows[i];
                let login = text_field(member(row, "author"), "login");
                let body = text_field(row, "body");
                if !(login.is_empty() && body.is_empty()) {
                    out.push(IssueComment {
                        author: owned(login),
                        author_is_bot: is_bot(login),
                        body: owned(body),
                        created_at: owned(text_field(row, "createdAt")),
                        url: owned(text_field(row, "url")),
                    });
                }
                i = i + 1;
            }
            proof {
                assert(all.take(all.len() as int) =~= all);
            }
        },
        None => {},
    }
    out
}

/// The post times of `cs`, in order.
pub open spec fn comment_times(cs: Seq<IssueComment>) -> Seq<Seq<char>> {
    Seq::new(cs.len(), |i: int| cs[i].created_at@)
}

/// Whether `out` is `cs` newest first, equal times in their original order.
pub open spec fn newest_first_comments(cs: Seq<IssueComment>, out: Seq<IssueComment>) -> bool {
    exists|order: Seq<usize>|
        newest_first_keys(comment_times(cs), order) && out == Seq::new(
            order.len(),
            |k: int| cs[order[k] as int],
        )
}

/// `cs` newest first (a stable sort by descending post time).
fn sort_newest_first(cs: Vec<IssueComment>) -> (out: Vec<IssueComment>)
    ensures
        newest_first_comments(cs@, out@),
{
    let mut times: Vec<String> = Vec::new();
    let mut t: usize = 0;
    while t < cs.len()
        invariant
            t <= cs@.len(),
            views(times@) == comment_times(cs@).take(t as int),
        decreases cs@.len() - t,
    {
        push_string(&mut times, owned(cs[t].created_at.as_str()));
        t = t + 1;
        proof {
            assert(views(times@) =~= comment_times(cs@).take(t as int));
        }
    }
    proof {
        assert(comment_times(cs@).take(cs@.len() as int) =~= comment_times(cs@));
    }
    let order = newest_first_order(&times);
    let mut out: Vec<IssueComment> = Vec::new();
    let mut k: usize = 0;
    while k < order.len()
        invariant
            newest_first_keys(comment_times(cs@), order@),
            k <= order@.len(),
            out@ == Seq::new(k as nat, |j: int| cs@[order@[j] as int]),
        decreases order@.len() - k,
    {
        out.push(cs[order[k]].duplicate());
        k = k + 1;
        proof {
            assert(out@ =~= Seq::new(k as nat, |j: int| cs@[order@[j] as int]));
        }
    }
    out
}

/// An issue row that lists: its `number` is present and nonzero.
pub open spec fn issue_row_kept(row: Json) -> bool {
    match u64_spec(at_spec(row, "number"@)) {
        Some(n) => n != 0,
        None => false,
    }
}

/// The label names of an issue row: each label's `name` that is a string, in order.
pub open spec fn label_names(row: Json) -> Seq<Seq<char>> {
    match array_spec(at_spec(row, "labels"@)) {
        Some(ls) => ls.filter(|l: Json| str_spec(at_spec(l, "name"@)) is Some).map_values(
            |l: Json| text_of(at_spec(l, "name"@)),
        ),
        None => Seq::empty(),
    }
}

/// A sub-issue's parent number: a nonzero `parent.number`.
pub open spec fn parent_of(row: Json) -> Option<u64> {
    match u64_spec(at_spec(at_spec(row, "parent"@), "number"@)) {
        Some(n) => if n > 0 {
            Some(n)
        } else {
            None
        },
        None => None,
    }
}

/// A sub-issue count from `subIssuesSummary` (0 when absent), cut to 32 bits.
pub open spec fn summary_count(row: Json, key: Seq<char>) -> u32 {
    match u64_spec(at_spec(at_spec(row, "subIssuesSummary"@), key)) {
        Some(n) => n as u32,
        None => 0,
    }
}

/// How an issue row reads: number, title, body, a `CLOSED` state in any case as closed and
/// anything else open, the author's login, update time, link, label names, parent, sub-issue
/// counts, and its kept comments newest first.
pub open spec fn row_issue(row: Json, issue: Issue) -> bool {
    &&& u64_spec(at_spec(row, "number"@)) == Some(issue.number)
    &&& issue.title@ == text_of(at_spec(row, "title"@))
    &&& issue.body@ == text_of(at_spec(row, "body"@))
    &&& issue.state == if str_spec(at_spec(row, "state"@)) matches Some(t) && eq_ignore_case_spec(
        t,
        "CLOSED"@,
    ) {
        IssueState::Closed
    } else {
        IssueState::Open
    }
    &&& issue.author@ == text_of(at_spec(at_spec(row, "author"@), "login"@))
    &&& issue.updated_at@ == text_of(at_spec(row, "updatedAt"@))
    &&& issue.url@ == text_of(at_spec(row, "url"@))
    &&& views(issue.labels@) == label_names(row)
    &&& issue.parent_number == parent_of(row)
    &&& issue.sub_completed == summary_count(row, "completed"@)
    &&& issue.sub_total == summary_count(row, "total"@)
    &&& exists|cs: Seq<IssueComment>|
        comments_from(at_spec(row, "comments"@), cs) && newest_first_comments(
            cs,
            issue.comments@,
        )
}

/// The label names of a row.
fn parse_labels(row: &Json) -> (out: Vec<String>)
    ensures
        views(out@) == label_names(*row),
{
    let mut out: Vec<String> = Vec::new();
    match member(row, "labels").as_array() {
        Some(ls) => {
            let ghost all = ls@;
            let ghost named = |l: Json| str_spec(at_spec(l, "name"@)) is Some;
            let ghost name_of = |l: Json| text_of(at_spec(l, "name"@));
            let mut i: usize = 0;
            while i < ls.len()
                invariant
                    all == ls@,
                    i <= all.len(),
                    named == (|l: Json| str_spec(at_spec(l, "name"@)) is Some),
                    name_of == (|l: Json| text_of(at_spec(l, "name"@))),
                    views(out@) == all.take(i as int).filter(named).map_values(name_of),
                decreases all.len() - i,
            {
                proof {
                    assert(all.take(i + 1) =~= all.take(i as int).push(all[i as int]));
                    all.take(i as int).lemma_filter_push(all[i as int], named);
                }
                match str_field(&ls[i], "name") {
                    Some(name) => {
                        push_string(&mut out, owned(name));
                        proof {
                            assert(views(out@) =~= all.take(i + 1).filter(named).map_values(
                                name_of,
                            ));
                        }
                    },
                    None => {
                        proof {
                            assert(views(out@) =~= all.take(i + 1).filter(named).map_values(
                                name_of,
                            ));
                        }
                    },
                }
                i = i + 1;
            }
            proof {
                assert(all.take(all.len() as int) =~= all);
            }
        },
        None => {
            proof {
                assert(views(out@) =~= label_names(*row));
            }
        },
    }
    out
}

/// A sub-issue count from the row's summary.
fn summary_field(row: &Json, key: &str) -> (n: u32)
    ensures
        n == summary_count(*row, key@),
{
    match member(member(row, "subIssuesSummary"), key).as_u64() {
        Some(v) => v as u32,
        None => 0,
    }
}

/// Read one issue row.
fn parse_issue(row: &Json) -> (issue: Issue)
    requires
        issue_row_kept(*row),
    ensures
        row_issue(*row, issue),
{
    let number = match member(row, "number").as_u64() {
        Some(n) => n,
        None => 0,
    };
    let closed = match str_field(row, "state") {
        Some(t) => eq_ignore_ascii_case(t, "CLOSED"),
        None => false,
    };
    let parent_number = match member(member(row, "parent"), "number").as_u64() {
        Some(n) => if n > 0 {
            Some(n)
        } else {
            None
        },
        None => None,
    };
    let cs = parse_comments(member(row, "comments"));
    let ghost raw = cs@;
    let comments = sort_newest_first(cs);
    let issue = Issue {
        number,
        title: owned(text_field(row, "title")),
        body: owned(text_field(row, "body")),
        state: if closed {
            IssueState::Closed
        } else {
            IssueState::Open
        },
        author: owned(text_field(member(row, "author"), "login")),
        updated_at: owned(text_field(row, "updatedAt")),
        url: owned(text_field(row, "url")),
        labels: parse_labels(row),
        parent_number,
        sub_completed: summary_field(row, "completed"),
        sub_total: summary_field(row, "total"),
        comments,
    };
    proof {
        assert(comments_from(at_spec(*row, "comments"@), raw));
        assert(newest_first_comments(raw, issue.comments@));
    }
    issue
}

/// The issue rows that list, in order.
pub open spec fn kept_issue_rows(rows: Seq<Json>) -> Seq<Json> {
    rows.filter(|r: Json| issue_row_kept(r))
}

/// What reading the document `value` of `gh issue list --json` gives: every row with a
/// nonzero number, in order, read as [`row_issue`] says; a document that is not an array is
/// refused.
pub open spec fn issues_read(value: Json, r: Result<Vec<Issue>, IssueError>) -> bool {
    match r {
        Ok(issues) => (array_spec(value) matches Some(rows) && issues@.len()
            == kept_issue_rows(rows).len() && forall|i: int|
            0 <= i < issues@.len() ==> row_issue(kept_issue_rows(rows)[i], #[trigger] issues@[i])),
        Err(e) => array_spec(value) is None && (e matches IssueError::Other(m) && m@
            == "issue list JSON is not an array"@),
    }
}

/// Read `gh issue list --json` output: its text must be JSON (else the parser's message,
/// prefixed `invalid issue list JSON: `), then the document is read as [`parse_issues_doc`]
/// does.
pub fn parse_issues(json: &str) -> (r: Result<Vec<Issue>, IssueError>)
    ensures
        match json_parse(json@) {
            Err(e) => r matches Err(IssueError::Other(m)) && m@ == "invalid issue list JSON: "@ + e,
            Ok(v) => issues_read(v, r),
        },
{
    match parse_json(json) {
        Err(e) => {
            let mut m = owned("invalid issue list JSON: ");
            push_str(&mut m, e.as_str());
            Err(IssueError::Other(m))
        },
        Ok(v) => parse_issues_doc(&v),
    }
}

/// Read `gh issue list --json` output: every row with a nonzero number, in order, read as
/// [`row_issue`] says; a document that is not an array is refused.
pub fn parse_issues_doc(value: &Json) -> (r: Result<Vec<Issue>, IssueError>)
    ensures
        issues_read(*value, r),
{
    let rows = match value.as_array() {
        Some(rows) => rows,
        None => {
            return Err(IssueError::Other(owned("issue list JSON is not an array")));
        },
    };
    let ghost all = rows@;
    let mut issues: Vec<Issue> = Vec::new();
    let mut i: usize = 0;
    while i < rows.len()
        invariant
            all == rows@,
            i <= all.len(),
            issues@.len() == kept_issue_rows(all.take(i as int)).len(),
            forall|j: int|
                0 <= j < issues@.len() ==> row_issue(
                    kept_issue_rows(all.take(i as int))[j],
                    #[trigger] issues@[j],
                ),
        decreases all.len() - i,
    {
        proof {
            assert(all.take(i + 1) =~= all.take(i as int).push(all[i as int]));
            all.take(i as int).lemma_filter_push(all[i as int], |r: Json| issue_row_kept(r));
        }
        let row = &rows[i];
        let keep = match member(row, "number").as_u64() {
            Some(n) => n != 0,
            None => false,
        };
        if keep {
            issues.push(parse_issue(row));
        }
        i = i + 1;
    }
    proof {
        assert(all.take(all.len() as int) =~= all);
    }
    Ok(issues)
}
} // verus!

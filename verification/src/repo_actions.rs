//! Explicit, user-confirmed Git mutations: commit, discard and push.
//!
//! A dialog guards the exact repository state the user saw: `HEAD` and, for every path of
//! every selected row, the working-tree entry and the index entry. A mutation runs only while
//! that state still holds. Running Git and reading the working tree are the front end's;
//! this module holds the requests, the guards and their checks, and the argument lists.

use vstd::prelude::*;

use crate::model::ChangedFile;
use crate::text::{
    all_ws, is_blank, opt_eq, owned, push_str, push_string, same_opt, str_eq, to_chars,
    from_chars, trim_end_chars, trim_end_spec, trim_spec, views, trim,
};

verus! {

/// What a working-tree path held when it was guarded.
#[derive(Clone, Debug, PartialEq, Eq)]
pub enum WorktreeState {
    Missing,
    /// A regular file: its length and the hash of its bytes.
    File { len: u64, hash: u64 },
    /// A symbolic link: the bytes of its target.
    Symlink(Vec<u8>),
    Other,
}

/// One path's guarded state: the working-tree entry and the raw `ls-files --stage` record.
#[derive(Clone, Debug, PartialEq, Eq)]
pub struct PathState {
    pub path: String,
    pub worktree: WorktreeState,
    pub index: Vec<u8>,
}

/// One changed-file row together with the state of each of its paths.
#[derive(Clone, Debug, PartialEq, Eq)]
pub struct GuardedChange {
    pub file: ChangedFile,
    pub paths: Vec<PathState>,
}

/// The guarded selection shown by a commit or discard dialog.
#[derive(Clone, Debug, PartialEq, Eq)]
pub struct GuardedSelection {
    pub head: Option<String>,
    pub changes: Vec<GuardedChange>,
}

/// One serialized repository mutation requested by the UI.
#[derive(Clone, Debug)]
pub enum Request {
    OpenCommit { files: Vec<ChangedFile> },
    Commit { selection: GuardedSelection, message: String },
    OpenDiscard { file: ChangedFile },
    Discard { selection: GuardedSelection },
    Push,
}

/// The operation named by a completion and by the UI's busy state.
#[derive(Clone, Copy, Debug, PartialEq, Eq, Structural)]
pub enum Kind {
    PrepareCommit,
    Commit,
    PrepareDiscard,
    Discard,
    Push,
}

/// Successful mutation detail for the status line.
#[derive(Clone, Debug, PartialEq, Eq)]
pub enum Success {
    CommitDialog(GuardedSelection),
    Commit { oid: String, files: usize, warning: Option<String> },
    DiscardDialog(GuardedSelection),
    Discard { path: String },
    Push { branch: String },
}

/// The worker's one-for-one answer to a request.
#[derive(Debug)]
pub struct Completion {
    pub kind: Kind,
    pub result: Result<Success, String>,
}

impl Request {
    /// The operation a request names.
    pub fn kind(&self) -> (k: Kind)
        ensures
            k == match self {
                Request::OpenCommit { .. } => Kind::PrepareCommit,
                Request::Commit { .. } => Kind::Commit,
                Request::OpenDiscard { .. } => Kind::PrepareDiscard,
                Request::Discard { .. } => Kind::Discard,
                Request::Push => Kind::Push,
            },
    {
        match self {
            Request::OpenCommit { .. } => Kind::PrepareCommit,
            Request::Commit { .. } => Kind::Commit,
            Request::OpenDiscard { .. } => Kind::PrepareDiscard,
            Request::Discard { .. } => Kind::Discard,
            Request::Push => Kind::Push,
        }
    }
}

/// Two working-tree states are the same.
pub open spec fn same_worktree(a: WorktreeState, b: WorktreeState) -> bool {
    match (a, b) {
        (WorktreeState::Missing, WorktreeState::Missing) => true,
        (WorktreeState::File { len: l1, hash: h1 }, WorktreeState::File { len: l2, hash: h2 }) => l1
            == l2 && h1 == h2,
        (WorktreeState::Symlink(x), WorktreeState::Symlink(y)) => x@ == y@,
        (WorktreeState::Other, WorktreeState::Other) => true,
        _ => false,
    }
}

/// Two guarded path states are the same.
pub open spec fn same_state(a: PathState, b: PathState) -> bool {
    a.path@ == b.path@ && same_worktree(a.worktree, b.worktree) && a.index@ == b.index@
}

/// Two guarded rows are the same.
pub open spec fn same_change(a: GuardedChange, b: GuardedChange) -> bool {
    &&& a.file == b.file
    &&& a.paths@.len() == b.paths@.len()
    &&& forall|i: int| 0 <= i < a.paths@.len() ==> same_state(#[trigger] a.paths@[i], b.paths@[i])
}

/// Whether two byte strings are equal.
fn bytes_eq(a: &Vec<u8>, b: &Vec<u8>) -> (r: bool)
    ensures
        r == (a@ == b@),
{
    if a.len() != b.len() {
        return false;
    }
    let mut i: usize = 0;
    while i < a.len()
        invariant
            a@.len() == b@.len(),
            i <= a@.len(),
            forall|j: int| 0 <= j < i ==> a@[j] == b@[j],
        decreases a@.len() - i,
    {
        if a[i] != b[i] {
            return false;
        }
        i = i + 1;
    }
    proof {
        assert(a@ =~= b@);
    }
    true
}

/// A copy of a byte string.
fn bytes_copy(a: &Vec<u8>) -> (r: Vec<u8>)
    ensures
        r@ == a@,
{
    let mut r: Vec<u8> = Vec::new();
    let mut i: usize = 0;
    while i < a.len()
        invariant
            i <= a@.len(),
            r@ == a@.take(i as int),
        decreases a@.len() - i,
    {
        r.push(a[i]);
        i = i + 1;
        proof {
            assert(r@ =~= a@.take(i as int));
        }
    }
    proof {
        assert(a@.take(a@.len() as int) =~= a@);
    }
    r
}

/// Whether two working-tree states are the same.
pub fn worktree_eq(a: &WorktreeState, b: &WorktreeState) -> (r: bool)
    ensures
        r == same_worktree(*a, *b),
{
    match (a, b) {
        (WorktreeState::Missing, WorktreeState::Missing) => true,
        (WorktreeState::File { len: l1, hash: h1 }, WorktreeState::File { len: l2, hash: h2 }) => *l1
            == *l2 && *h1 == *h2,
        (WorktreeState::Symlink(x), WorktreeState::Symlink(y)) => bytes_eq(x, y),
        (WorktreeState::Other, WorktreeState::Other) => true,
        _ => false,
    }
}

/// Whether two guarded path states are the same.
pub fn state_eq(a: &PathState, b: &PathState) -> (r: bool)
    ensures
        r == same_state(*a, *b),
{
    str_eq(a.path.as_str(), b.path.as_str()) && worktree_eq(&a.worktree, &b.worktree) && bytes_eq(
        &a.index,
        &b.index,
    )
}

/// A copy of a working-tree state.
fn worktree_copy(a: &WorktreeState) -> (r: WorktreeState)
    ensures
        same_worktree(r, *a),
{
    match a {
        WorktreeState::Missing => WorktreeState::Missing,
        WorktreeState::File { len, hash } => WorktreeState::File { len: *len, hash: *hash },
        WorktreeState::Symlink(t) => WorktreeState::Symlink(bytes_copy(t)),
        WorktreeState::Other => WorktreeState::Other,
    }
}

/// A copy of a changed-file row.
pub fn file_copy(f: &ChangedFile) -> (r: ChangedFile)
    ensures
        r == *f,
{
    ChangedFile {
        path: f.path.clone(),
        kind: f.kind,
        additions: f.additions,
        deletions: f.deletions,
        previous_path: match &f.previous_path {
            Some(p) => Some(p.clone()),
            None => None,
        },
    }
}

/// A copy of a guarded row.
fn change_copy(c: &GuardedChange) -> (r: GuardedChange)
    ensures
        same_change(r, *c),
{
    let mut paths: Vec<PathState> = Vec::new();
    let mut i: usize = 0;
    while i < c.paths.len()
        invariant
            i <= c.paths@.len(),
            paths@.len() == i,
            forall|j: int| 0 <= j < i ==> same_state(#[trigger] paths@[j], c.paths@[j]),
        decreases c.paths@.len() - i,
    {
        let s = &c.paths[i];
        paths.push(
            PathState {
                path: owned(s.path.as_str()),
                worktree: worktree_copy(&s.worktree),
                index: bytes_copy(&s.index),
            },
        );
        i = i + 1;
    }
    GuardedChange { file: file_copy(&c.file), paths }
}

/// The rows of `changes` whose pick is set, in order; rows past the end of `picks` are not
/// picked.
pub open spec fn picked(changes: Seq<GuardedChange>, picks: Seq<bool>, n: nat) -> Seq<GuardedChange>
    decreases n,
{
    if n == 0 {
        Seq::empty()
    } else {
        let rest = picked(changes, picks, (n - 1) as nat);
        if picks[n - 1] {
            rest.push(changes[n - 1])
        } else {
            rest
        }
    }
}

/// The smaller of two lengths.
pub open spec fn min_len(a: nat, b: nat) -> nat {
    if a <= b {
        a
    } else {
        b
    }
}

/// Two row lists are the same row for row.
pub open spec fn same_changes(a: Seq<GuardedChange>, b: Seq<GuardedChange>) -> bool {
    a.len() == b.len() && forall|i: int| 0 <= i < a.len() ==> same_change(#[trigger] a[i], b[i])
}

impl GuardedSelection {
    /// Keep only the picker rows the user selected, with their opening guards.
    pub fn selected(&self, selected: &[bool]) -> (s: GuardedSelection)
        ensures
            same_opt(s.head, self.head),
            same_changes(
                s.changes@,
                picked(
                    self.changes@,
                    selected@,
                    min_len(self.changes@.len(), selected@.len()),
                ),
            ),
    {
        let n: usize = if self.changes.len() <= selected.len() {
            self.changes.len()
        } else {
            selected.len()
        };
        let mut changes: Vec<GuardedChange> = Vec::new();
        let mut i: usize = 0;
        while i < n
            invariant
                n == min_len(self.changes@.len(), selected@.len()),
                i <= n,
                same_changes(changes@, picked(self.changes@, selected@, i as nat)),
            decreases n - i,
        {
            if selected[i] {
                changes.push(change_copy(&self.changes[i]));
            }
            i = i + 1;
            proof {
                let p = picked(self.changes@, selected@, i as nat);
                assert(forall|j: int| 0 <= j < changes@.len() ==> same_change(
                    #[trigger] changes@[j],
                    p[j],
                ));
            }
        }
        GuardedSelection { head: crate::text::opt_copy(&self.head), changes }
    }
}

/// The paths a row touches: a rename's old path first, then its path.
pub open spec fn change_paths_spec(file: ChangedFile) -> Seq<Seq<char>> {
    match file.previous_path {
        Some(p) => seq![p@, file.path@],
        None => seq![file.path@],
    }
}

/// The paths a row touches.
pub fn change_paths(file: &ChangedFile) -> (paths: Vec<String>)
    ensures
        views(paths@) == change_paths_spec(*file),
{
    let mut paths: Vec<String> = Vec::new();
    match &file.previous_path {
        Some(p) => push_string(&mut paths, owned(p.as_str())),
        None => {},
    }
    push_string(&mut paths, owned(file.path.as_str()));
    proof {
        assert(views(paths@) =~= change_paths_spec(*file));
    }
    paths
}

/// The pathspec naming exactly `path`, from the top of the worktree, with no glob magic.
pub open spec fn literal_spec(path: Seq<char>) -> Seq<char> {
    ":(top,literal)"@ + path
}

/// The pathspec naming exactly `path`.
pub fn literal(path: &str) -> (s: String)
    ensures
        s@ == literal_spec(path@),
{
    let mut s = owned(":(top,literal)");
    push_str(&mut s, path);
    s
}

/// The pathspecs of every path of the selected rows, each once, in first-seen order.
pub open spec fn pathspecs_spec(all: Seq<Seq<char>>, specs: Seq<Seq<char>>) -> bool {
    &&& forall|i: int, j: int| 0 <= i < j < specs.len() ==> specs[i] != specs[j]
    &&& forall|k: int| 0 <= k < all.len() ==> specs.contains(#[trigger] literal_spec(all[k]))
    &&& forall|i: int|
        #![trigger specs[i]]
        0 <= i < specs.len() ==> exists|k: int| 0 <= k < all.len() && specs[i] == #[trigger] literal_spec(all[k])
}

/// Every path of the rows, in order.
pub open spec fn all_paths(changes: Seq<GuardedChange>) -> Seq<Seq<char>>
    decreases changes.len(),
{
    if changes.len() == 0 {
        Seq::empty()
    } else {
        all_paths(changes.drop_last()) + change_paths_spec(changes.last().file)
    }
}

/// Adding the next path keeps the pathspecs: its pathspec is appended unless already held.
proof fn lemma_pathspecs_step(seen: Seq<Seq<char>>, specs: Seq<Seq<char>>, x: Seq<char>)
    requires
        pathspecs_spec(seen, specs),
    ensures
        specs.contains(literal_spec(x)) ==> pathspecs_spec(seen.push(x), specs),
        !specs.contains(literal_spec(x)) ==> pathspecs_spec(
            seen.push(x),
            specs.push(literal_spec(x)),
        ),
{
    let now = seen.push(x);
    let lx = literal_spec(x);
    if specs.contains(lx) {
        assert forall|k: int| 0 <= k < now.len() implies specs.contains(
            #[trigger] literal_spec(now[k]),
        ) by {
            if k < seen.len() {
                assert(now[k] == seen[k]);
            }
        }
        assert forall|i: int| #![trigger specs[i]] 0 <= i < specs.len() implies exists|k: int|
            0 <= k < now.len() && specs[i] == #[trigger] literal_spec(now[k]) by {
            let k = choose|k: int| 0 <= k < seen.len() && specs[i] == #[trigger] literal_spec(seen[k]);
            assert(now[k] == seen[k]);
            assert(specs[i] == literal_spec(now[k]));
        }
    } else {
        let ns = specs.push(lx);
        assert forall|i: int, j: int| 0 <= i < j < ns.len() implies ns[i] != ns[j] by {
            if j == specs.len() {
                assert(ns[i] == specs[i]);
                assert(ns[j] == lx);
            } else {
                assert(ns[i] == specs[i]);
                assert(ns[j] == specs[j]);
            }
        }
        assert forall|k: int| 0 <= k < now.len() implies ns.contains(
            #[trigger] literal_spec(now[k]),
        ) by {
            if k < seen.len() {
                assert(now[k] == seen[k]);
                let w = choose|w: int| 0 <= w < specs.len() && specs[w] == literal_spec(seen[k]);
                assert(ns[w] == specs[w]);
            } else {
                assert(ns[specs.len() as int] == lx);
            }
        }
        assert forall|i: int| #![trigger ns[i]] 0 <= i < ns.len() implies exists|k: int|
            0 <= k < now.len() && ns[i] == #[trigger] literal_spec(now[k]) by {
            if i < specs.len() {
                assert(ns[i] == specs[i]);
                let k = choose|k: int| 0 <= k < seen.len() && specs[i] == #[trigger] literal_spec(seen[k]);
                assert(now[k] == seen[k]);
                assert(ns[i] == literal_spec(now[k]));
            } else {
                assert(now[seen.len() as int] == x);
                assert(ns[i] == literal_spec(now[seen.len() as int]));
            }
        }
    }
}

/// Whether `specs` already holds `s`.
fn holds(specs: &Vec<String>, s: &str) -> (b: bool)
    ensures
        b == views(specs@).contains(s@),
{
    let mut i: usize = 0;
    while i < specs.len()
        invariant
            i <= specs@.len(),
            forall|j: int| 0 <= j < i ==> specs@[j]@ != s@,
        decreases specs@.len() - i,
    {
        if str_eq(specs[i].as_str(), s) {
            proof {
                assert(views(specs@)[i as int] == s@);
            }
            return true;
        }
        i = i + 1;
    }
    proof {
        if views(specs@).contains(s@) {
            let k = choose|k: int| 0 <= k < views(specs@).len() && views(specs@)[k] == s@;
            assert(specs@[k]@ == s@);
        }
    }
    false
}

/// The pathspecs of every path of the selected rows, each once, in first-seen order.
pub fn selection_pathspecs(selection: &GuardedSelection) -> (specs: Vec<String>)
    ensures
        pathspecs_spec(all_paths(selection.changes@), views(specs@)),
{
    let ghost changes = selection.changes@;
    let mut specs: Vec<String> = Vec::new();
    let mut c: usize = 0;
    while c < selection.changes.len()
        invariant
            changes == selection.changes@,
            c <= changes.len(),
            pathspecs_spec(all_paths(changes.take(c as int)), views(specs@)),
        decreases changes.len() - c,
    {
        let paths = change_paths(&selection.changes[c].file);
        let ghost before = all_paths(changes.take(c as int));
        proof {
            assert(changes.take(c + 1).drop_last() =~= changes.take(c as int));
        }
        let mut p: usize = 0;
        while p < paths.len()
            invariant
                changes == selection.changes@,
                c < changes.len(),
                p <= paths@.len(),
                views(paths@) == change_paths_spec(changes[c as int].file),
                before == all_paths(changes.take(c as int)),
                pathspecs_spec(before + views(paths@).take(p as int), views(specs@)),
            decreases paths@.len() - p,
        {
            let spec = literal(paths[p].as_str());
            let ghost old_specs = views(specs@);
            let ghost seen = before + views(paths@).take(p as int);
            proof {
                assert(before + views(paths@).take(p + 1) =~= seen.push(paths@[p as int]@));
                lemma_pathspecs_step(seen, old_specs, paths@[p as int]@);
            }
            if !holds(&specs, spec.as_str()) {
                push_string(&mut specs, spec);
            }
            p = p + 1;
        }
        proof {
            assert(views(paths@).take(paths@.len() as int) =~= views(paths@));
            assert(all_paths(changes.take(c + 1)) =~= before + views(paths@));
        }
        c = c + 1;
    }
    proof {
        assert(changes.take(changes.len() as int) =~= changes);
    }
    specs
}

/// Why a commit is refused before anything runs: no rows, or a blank message.
pub fn commit_refusal(selection: &GuardedSelection, message: &str) -> (r: Option<String>)
    ensures
        selection.changes@.len() == 0 ==> (r matches Some(m) && m@ == "select at least one file"@),
        selection.changes@.len() > 0 && all_ws(message@) ==> (r matches Some(m) && m@
            == "commit message required"@),
        selection.changes@.len() > 0 && !all_ws(message@) ==> r is None,
{
    if selection.changes.len() == 0 {
        Some(owned("select at least one file"))
    } else if is_blank(message) {
        Some(owned("commit message required"))
    } else {
        None
    }
}

/// Why a discard is refused before anything runs: it takes exactly one row.
pub fn discard_refusal(selection: &GuardedSelection) -> (r: Option<String>)
    ensures
        selection.changes@.len() != 1 ==> (r matches Some(m) && m@ == "discard requires one file"@),
        selection.changes@.len() == 1 ==> r is None,
{
    if selection.changes.len() != 1 {
        Some(owned("discard requires one file"))
    } else {
        None
    }
}

/// The guard on `HEAD`: the commit it names now must be the one the dialog saw.
pub fn head_check(expected: &Option<String>, observed: &Option<String>) -> (r: Result<(), String>)
    ensures
        same_opt(*expected, *observed) ==> r is Ok,
        !same_opt(*expected, *observed) ==> (r matches Err(m) && m@
            == "HEAD changed; reopen the dialog and try again"@),
{
    if opt_eq(expected, observed) {
        Ok(())
    } else {
        Err(owned("HEAD changed; reopen the dialog and try again"))
    }
}

/// The guard on one path of the row for `file`: its state now must be the one the dialog
/// saw.
pub fn path_check(file: &str, expected: &PathState, observed: &PathState) -> (r: Result<(), String>)
    ensures
        same_state(*expected, *observed) ==> r is Ok,
        !same_state(*expected, *observed) ==> (r matches Err(m) && m@ == file@
            + " changed; reopen the dialog and try again"@),
{
    if state_eq(expected, observed) {
        Ok(())
    } else {
        let mut m = owned(file);
        push_str(&mut m, " changed; reopen the dialog and try again");
        Err(m)
    }
}

/// The arguments that stage the pathspecs into the temporary index: `add -A --`, then them.
pub fn add_args(specs: &Vec<String>) -> (args: Vec<String>)
    ensures
        views(args@) == seq!["add"@, "-A"@, "--"@] + views(specs@),
{
    let mut args: Vec<String> = Vec::new();
    push_string(&mut args, owned("add"));
    push_string(&mut args, owned("-A"));
    push_string(&mut args, owned("--"));
    append_all(&mut args, specs);
    args
}

/// The arguments that reconcile the real index with the commit: `reset --quiet HEAD --`,
/// then the pathspecs.
pub fn reset_args(specs: &Vec<String>) -> (args: Vec<String>)
    ensures
        views(args@) == seq!["reset"@, "--quiet"@, "HEAD"@, "--"@] + views(specs@),
{
    let mut args: Vec<String> = Vec::new();
    push_string(&mut args, owned("reset"));
    push_string(&mut args, owned("--quiet"));
    push_string(&mut args, owned("HEAD"));
    push_string(&mut args, owned("--"));
    append_all(&mut args, specs);
    args
}

/// The arguments that restore paths from `HEAD` in both the index and the worktree.
pub fn restore_args(specs: &Vec<String>) -> (args: Vec<String>)
    ensures
        views(args@) == seq![
            "restore"@,
            "--source=HEAD"@,
            "--staged"@,
            "--worktree"@,
            "--"@,
        ] + views(specs@),
{
    let mut args: Vec<String> = Vec::new();
    push_string(&mut args, owned("restore"));
    push_string(&mut args, owned("--source=HEAD"));
    push_string(&mut args, owned("--staged"));
    push_string(&mut args, owned("--worktree"));
    push_string(&mut args, owned("--"));
    append_all(&mut args, specs);
    args
}

/// The arguments that drop a path absent from `HEAD` from the index.
pub fn untrack_args(path: &str) -> (args: Vec<String>)
    ensures
        views(args@) == seq!["rm"@, "--quiet"@, "--cached"@, "-f"@, "--"@, literal_spec(path@)],
{
    let mut args: Vec<String> = Vec::new();
    push_string(&mut args, owned("rm"));
    push_string(&mut args, owned("--quiet"));
    push_string(&mut args, owned("--cached"));
    push_string(&mut args, owned("-f"));
    push_string(&mut args, owned("--"));
    push_string(&mut args, literal(path));
    proof {
        assert(views(args@) =~= seq![
            "rm"@,
            "--quiet"@,
            "--cached"@,
            "-f"@,
            "--"@,
            literal_spec(path@),
        ]);
    }
    args
}

/// Append copies of `more` to `args`.
fn append_all(args: &mut Vec<String>, more: &Vec<String>)
    ensures
        views(final(args)@) == views(old(args)@) + views(more@),
{
    let ghost start = views(args@);
    let mut i: usize = 0;
    while i < more.len()
        invariant
            i <= more@.len(),
            views(args@) == start + views(more@).take(i as int),
        decreases more@.len() - i,
    {
        push_string(args, owned(more[i].as_str()));
        i = i + 1;
        proof {
            assert(views(args@) =~= start + views(more@).take(i as int));
        }
    }
    proof {
        assert(views(more@).take(more@.len() as int) =~= views(more@));
    }
}

/// How a discard treats the row's paths, given which of them `HEAD` holds: the pathspecs to
/// restore from `HEAD`, and the positions of the paths to delete.
pub fn discard_plan(change: &GuardedChange, in_head: &Vec<bool>) -> (plan: (Vec<String>, Vec<usize>))
    requires
        in_head@.len() == change.paths@.len(),
    ensures
        views(plan.0@) == Seq::new(change.paths@.len(), |i: int| i).filter(|i: int| in_head@[i]).map_values(
            |i: int| literal_spec(change.paths@[i].path@),
        ),
        plan.1@.map_values(|i: usize| i as int) == Seq::new(change.paths@.len(), |i: int| i).filter(
            |i: int| !in_head@[i],
        ),
{
    let ghost idx = Seq::new(change.paths@.len(), |i: int| i);
    let ghost keep = |i: int| in_head@[i];
    let ghost drop = |i: int| !in_head@[i];
    let mut restore: Vec<String> = Vec::new();
    let mut remove: Vec<usize> = Vec::new();
    let mut i: usize = 0;
    while i < change.paths.len()
        invariant
            i <= change.paths@.len(),
            in_head@.len() == change.paths@.len(),
            idx == Seq::new(change.paths@.len(), |i: int| i),
            keep == (|i: int| in_head@[i]),
            drop == (|i: int| !in_head@[i]),
            views(restore@) == idx.take(i as int).filter(keep).map_values(
                |i: int| literal_spec(change.paths@[i].path@),
            ),
            remove@.map_values(|i: usize| i as int) == idx.take(i as int).filter(drop),
        decreases change.paths@.len() - i,
    {
        proof {
            assert(idx.take(i + 1) =~= idx.take(i as int).push(i as int));
            idx.take(i as int).lemma_filter_push(i as int, keep);
            idx.take(i as int).lemma_filter_push(i as int, drop);
        }
        if in_head[i] {
            let ghost before = views(restore@);
            push_string(&mut restore, literal(change.paths[i].path.as_str()));
            proof {
                assert(views(restore@) =~= idx.take(i + 1).filter(keep).map_values(
                    |i: int| literal_spec(change.paths@[i].path@),
                ));
            }
        } else {
            remove.push(i);
            proof {
                assert(remove@.map_values(|i: usize| i as int) =~= idx.take(i + 1).filter(drop));
            }
        }
        i = i + 1;
    }
    proof {
        assert(idx.take(change.paths@.len() as int) =~= idx);
    }
    (restore, remove)
}

/// What a push targets, from `symbolic-ref --short HEAD`'s output and the branch's
/// `%(upstream:remotename)%00%(upstream:remoteref)` line: the branch (trimmed), the remote
/// and the refspec `HEAD:<remote ref>`; refused when either upstream field is empty.
pub open spec fn upstream_fields(line: Seq<char>) -> (Seq<char>, Seq<char>) {
    let t = trim_end_spec(line);
    let k = first_nul(t, 0);
    let remote = t.take(k as int);
    let rest = if k < t.len() {
        t.skip((k + 1) as int)
    } else {
        Seq::empty()
    };
    let k2 = first_nul(rest, 0);
    (remote, rest.take(k2 as int))
}

/// The position of the first NUL of `s` at or after `i`, or its length.
pub open spec fn first_nul(s: Seq<char>, i: nat) -> nat
    decreases s.len() - i,
{
    if i >= s.len() {
        s.len()
    } else if s[i as int] == '\0' {
        i
    } else {
        first_nul(s, i + 1)
    }
}

/// `first_nul` lies at or after `i`, within `s`, on a NUL unless at the end.
proof fn lemma_first_nul(s: Seq<char>, i: nat)
    requires
        i <= s.len(),
    ensures
        i <= first_nul(s, i) <= s.len(),
        first_nul(s, i) < s.len() ==> s[first_nul(s, i) as int] == '\0',
    decreases s.len() - i,
{
    if i < s.len() && s[i as int] != '\0' {
        lemma_first_nul(s, i + 1);
    }
}

/// The first NUL-terminated field of `cs` from `from`: its end.
fn nul_end(cs: &Vec<char>, from: usize) -> (k: usize)
    requires
        from <= cs@.len(),
    ensures
        k == first_nul(cs@, from as nat),
        from <= k <= cs@.len(),
{
    let mut k = from;
    proof {
        lemma_first_nul(cs@, from as nat);
    }
    while k < cs.len() && cs[k] != '\0'
        invariant
            from <= k <= cs@.len(),
            first_nul(cs@, k as nat) == first_nul(cs@, from as nat),
        decreases cs@.len() - k,
    {
        k = k + 1;
    }
    k
}

/// `first_nul` on a suffix is `first_nul` on the whole, shifted.
proof fn lemma_first_nul_skip(s: Seq<char>, d: nat, i: nat)
    requires
        d <= s.len(),
        i <= s.len() - d,
    ensures
        first_nul(s.skip(d as int), i) + d == first_nul(s, i + d),
    decreases s.len() - d - i,
{
    if i < s.len() - d && s[(i + d) as int] != '\0' {
        assert(s.skip(d as int)[i as int] == s[(i + d) as int]);
        lemma_first_nul_skip(s, d, i + 1);
    } else if i < s.len() - d {
        assert(s.skip(d as int)[i as int] == s[(i + d) as int]);
    }
}

/// What a push targets: `(branch, remote, refspec)`, or the refusal.
pub fn push_target(branch_out: &str, upstream_out: &str) -> (r: Result<(String, String, String), String>)
    ensures
        ({
            let branch = trim_spec(branch_out@);
            let (remote, remote_ref) = upstream_fields(upstream_out@);
            if remote.len() == 0 || remote_ref.len() == 0 {
                r matches Err(m) && m@ == branch + " has no configured upstream"@
            } else {
                r matches Ok((b, rm, refspec)) && b@ == branch && rm@ == remote && refspec@
                    == "HEAD:"@ + remote_ref
            }
        }),
{
    let branch = trim(branch_out);
    let all = to_chars(upstream_out);
    let t = trim_end_chars(all.as_slice());
    let ghost ts = t@;
    let k = nul_end(&t, 0);
    let remote = span(&t, 0, k);
    proof {
        assert(ts.subrange(0, k as int) =~= ts.take(k as int));
    }
    let remote_ref = if k < t.len() {
        let k2 = nul_end(&t, k + 1);
        proof {
            lemma_first_nul_skip(ts, (k + 1) as nat, 0);
            assert(ts.skip(k + 1).take((k2 - (k + 1)) as int) =~= ts.subrange(k + 1, k2 as int));
        }
        span(&t, k + 1, k2)
    } else {
        proof {
            assert(Seq::<char>::empty().take(0) =~= Seq::<char>::empty());
        }
        String::new()
    };
    if char_len(&remote) == 0 || char_len(&remote_ref) == 0 {
        let mut m = branch;
        push_str(&mut m, " has no configured upstream");
        return Err(m);
    }
    let mut refspec = owned("HEAD:");
    push_str(&mut refspec, remote_ref.as_str());
    Ok((branch, remote, refspec))
}

/// The characters `cs[a..b]` as a string.
fn span(cs: &Vec<char>, a: usize, b: usize) -> (s: String)
    requires
        a <= b <= cs@.len(),
    ensures
        s@ == cs@.subrange(a as int, b as int),
{
    let mut s = String::new();
    let mut i = a;
    while i < b
        invariant
            a <= i <= b <= cs@.len(),
            s@ == cs@.subrange(a as int, i as int),
        decreases b - i,
    {
        crate::text::push_char(&mut s, cs[i]);
        i = i + 1;
        proof {
            assert(s@ =~= cs@.subrange(a as int, i as int));
        }
    }
    s
}

/// The number of characters of `s`.
fn char_len(s: &String) -> (n: usize)
    ensures
        n == s@.len(),
{
    crate::text::char_count(s.as_str())
}

} // verus!

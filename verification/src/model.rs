//! In-memory review model: scopes, changed files, and comments.
//!
//! A comment's lifecycle (id, author, status) lives in [`crate::comments::StoredComment`];
//! `CommentStore` is the session view over a `Vec` of them. A refresh never drops a comment —
//! only a delete, or an external agent removing its file, does.

use vstd::prelude::*;

use crate::comments::{new_id, now_iso, Author, Status, StoredComment};
use crate::text::{decimal, digit, has_prefix, has_suffix, owned, push_str, push_u64};

verus! {

/// Which set of changes the Changes view shows.
#[derive(Clone, Copy, PartialEq, Eq, Debug, Structural)]
pub enum Scope {
    Uncommitted,
    Branch,
    LastTurn,
}

impl Scope {
    /// The scope's chip label.
    pub fn label(self) -> (s: &'static str)
        ensures
            s@ == match self {
                Scope::Uncommitted => "uncommitted"@,
                Scope::Branch => "branch"@,
                Scope::LastTurn => "last turn"@,
            },
    {
        match self {
            Scope::Uncommitted => "uncommitted",
            Scope::Branch => "branch",
            Scope::LastTurn => "last turn",
        }
    }

    /// The next scope for the header chip click: uncommitted → branch → last turn → uncommitted.
    pub open spec fn next(self) -> Scope {
        match self {
            Scope::Uncommitted => Scope::Branch,
            Scope::Branch => Scope::LastTurn,
            Scope::LastTurn => Scope::Uncommitted,
        }
    }

    /// Cycle to the next scope.
    pub fn cycle(self) -> (s: Scope)
        ensures
            s == self.next(),
    {
        match self {
            Scope::Uncommitted => Scope::Branch,
            Scope::Branch => Scope::LastTurn,
            Scope::LastTurn => Scope::Uncommitted,
        }
    }
}

/// Three clicks on the scope chip come back to where they started, and no fewer do.
pub proof fn law_scope_cycle_has_period_three(s: Scope)
    ensures
        s.next().next().next() == s,
        s.next() != s,
        s.next().next() != s,
{
}

/// How a file changed within a scope.
#[derive(Clone, Copy, PartialEq, Eq, Debug, Structural)]
pub enum ChangeKind {
    Added,
    Modified,
    Deleted,
    Renamed,
    Untracked,
}

impl ChangeKind {
    /// The one-letter marker of a change.
    pub open spec fn marker_spec(self) -> char {
        match self {
            ChangeKind::Added => 'A',
            ChangeKind::Modified => 'M',
            ChangeKind::Deleted => 'D',
            ChangeKind::Renamed => 'R',
            ChangeKind::Untracked => '?',
        }
    }

    /// The one-letter marker shown beside a file.
    pub fn marker(self) -> (c: char)
        ensures
            c == self.marker_spec(),
            c == match self {
                ChangeKind::Added => 'A',
                ChangeKind::Modified => 'M',
                ChangeKind::Deleted => 'D',
                ChangeKind::Renamed => 'R',
                ChangeKind::Untracked => '?',
            },
    {
        match self {
            ChangeKind::Added => 'A',
            ChangeKind::Modified => 'M',
            ChangeKind::Deleted => 'D',
            ChangeKind::Renamed => 'R',
            ChangeKind::Untracked => '?',
        }
    }
}

/// A row in the Changes list.
#[derive(Clone, PartialEq, Eq, Debug)]
pub struct ChangedFile {
    pub path: String,
    pub kind: ChangeKind,
    pub additions: u32,
    pub deletions: u32,
    /// The old path of a renamed file; `None` for every other kind.
    pub previous_path: Option<String>,
}

/// Which side of the diff a comment's lines live on.
#[derive(Clone, Copy, PartialEq, Eq, Debug, Structural)]
pub enum Side {
    New,
    Old,
}

/// A comment on a run of diff lines, carrying the snippet.
#[derive(Clone, PartialEq, Eq, Debug)]
pub struct Comment {
    pub file: String,
    pub side: Side,
    pub start: u32,
    pub end: u32,
    /// Verbatim diff lines the comment anchors to, each keeping its `+`/`-`/space marker.
    pub lines: String,
    pub text: String,
    /// True when anchored to a diff (the `Changes` tab); false for a File-view comment.
    pub diff_anchored: bool,
}

/// The `path:start-end` (or `path:line`) location, with ` (removed)` when old-side.
pub open spec fn location_spec(file: Seq<char>, side: Side, start: nat, end: nat) -> Seq<char> {
    let range = if start == end {
        file + seq![':'] + decimal(start)
    } else {
        file + seq![':'] + decimal(start) + seq!['-'] + decimal(end)
    };
    match side {
        Side::New => range,
        Side::Old => range + " (removed)"@,
    }
}

impl Comment {
    /// The `path:start-end` (or `path:line`) location, with ` (removed)` when old-side.
    pub fn location(&self) -> (out: String)
        ensures
            out@ == location_spec(self.file@, self.side, self.start as nat, self.end as nat),
    {
        let mut out = owned(self.file.as_str());
        crate::text::push_char(&mut out, ':');
        push_u64(&mut out, self.start as u64);
        if self.start != self.end {
            crate::text::push_char(&mut out, '-');
            push_u64(&mut out, self.end as u64);
        }
        match self.side {
            Side::New => {},
            Side::Old => push_str(&mut out, " (removed)"),
        }
        proof {
            let range = if self.start == self.end {
                self.file@ + seq![':'] + decimal(self.start as nat)
            } else {
                self.file@ + seq![':'] + decimal(self.start as nat) + seq!['-'] + decimal(
                    self.end as nat,
                )
            };
            assert(out@ =~= location_spec(
                self.file@,
                self.side,
                self.start as nat,
                self.end as nat,
            ));
        }
        out
    }
}

/// The in-memory comment list for one review session.
#[derive(Debug)]
pub struct CommentStore {
    items: Vec<StoredComment>,
}

impl CommentStore {
    /// The comments, in order.
    pub closed spec fn items(&self) -> Seq<StoredComment> {
        self.items@
    }

    /// An empty list.
    pub fn new() -> (s: Self)
        ensures
            s.items() == Seq::<StoredComment>::empty(),
    {
        CommentStore { items: Vec::new() }
    }

    /// How many comments there are.
    pub fn len(&self) -> (n: usize)
        ensures
            n == self.items().len(),
    {
        self.items.len()
    }

    /// Whether there are none.
    pub fn is_empty(&self) -> (b: bool)
        ensures
            b == (self.items().len() == 0),
    {
        self.items.len() == 0
    }

    /// The comments, in order.
    pub fn iter(&self) -> (out: &[StoredComment])
        ensures
            out@ == self.items(),
    {
        self.items.as_slice()
    }

    /// The comment at `index`, if any.
    pub fn get(&self, index: usize) -> (out: Option<&StoredComment>)
        ensures
            index < self.items().len() ==> out == Some(&self.items()[index as int]),
            index >= self.items().len() ==> out is None,
    {
        if index < self.items.len() {
            Some(&self.items[index])
        } else {
            None
        }
    }

    /// The current index of the comment with id `id`: the first with that id, or `None`.
    pub fn index_of(&self, id: &str) -> (out: Option<usize>)
        ensures
            match out {
                Some(i) => i < self.items().len() && self.items()[i as int].id@ == id@ && forall|
                    j: int,
                | 0 <= j < i ==> self.items()[j].id@ != id@,
                None => forall|j: int|
                    0 <= j < self.items().len() ==> self.items()[j].id@ != id@,
            },
    {
        let mut i: usize = 0;
        while i < self.items.len()
            invariant
                i <= self.items@.len(),
                forall|j: int| 0 <= j < i ==> self.items@[j].id@ != id@,
            decreases self.items@.len() - i,
        {
            if crate::text::str_eq(self.items[i].id.as_str(), id) {
                return Some(i);
            }
            i = i + 1;
        }
        None
    }

    /// Append a comment written just now, wrapping it with fresh lifecycle metadata (a new
    /// id, `Author::User`, `Status::Open`). Returns its index.
    pub fn add(&mut self, comment: Comment) -> (index: usize)
        requires
            old(self).items().len() < usize::MAX,
        ensures
            index == old(self).items().len(),
            final(self).items().len() == old(self).items().len() + 1,
            final(self).items().take(index as int) == old(self).items(),
            final(self).items()[index as int].comment == comment,
            final(self).items()[index as int].author == Author::User,
            final(self).items()[index as int].status == Status::Open,
            crate::comments::valid_id_spec(final(self).items()[index as int].id@),
    {
        let id = new_id();
        let created_at = now_iso();
        self.items.push(StoredComment { id, author: Author::User, status: Status::Open, created_at, comment });
        let index = self.items.len() - 1;
        proof {
            assert(self.items@.take(index as int) =~= old(self).items@);
        }
        index
    }

    /// Replace the text of the comment at `index`. Returns `false` if out of range.
    pub fn edit(&mut self, index: usize, text: String) -> (ok: bool)
        ensures
            ok == (index < old(self).items().len()),
            final(self).items().len() == old(self).items().len(),
            forall|j: int|
                0 <= j < old(self).items().len() && j != index ==> final(self).items()[j] == old(
                    self,
                ).items()[j],
            ok ==> ({
                let (o, n) = (old(self).items()[index as int], final(self).items()[index as int]);
                &&& n.comment.text == text
                &&& n.id == o.id && n.author == o.author && n.status == o.status
                &&& n.created_at == o.created_at
                &&& n.comment.file == o.comment.file && n.comment.side == o.comment.side
                &&& n.comment.start == o.comment.start && n.comment.end == o.comment.end
                &&& n.comment.lines == o.comment.lines
                &&& n.comment.diff_anchored == o.comment.diff_anchored
            }),
    {
        if index < self.items.len() {
            let mut item = self.items.remove(index);
            item.comment.text = text;
            self.items.insert(index, item);
            true
        } else {
            false
        }
    }

    /// Flip the status of the comment at `index`. Returns `false` if out of range.
    pub fn set_status(&mut self, index: usize, status: Status) -> (ok: bool)
        ensures
            ok == (index < old(self).items().len()),
            final(self).items().len() == old(self).items().len(),
            forall|j: int|
                0 <= j < old(self).items().len() && j != index ==> final(self).items()[j] == old(
                    self,
                ).items()[j],
            ok ==> final(self).items()[index as int] == (StoredComment {
                status,
                ..old(self).items()[index as int]
            }),
    {
        if index < self.items.len() {
            let mut item = self.items.remove(index);
            item.status = status;
            self.items.insert(index, item);
            true
        } else {
            false
        }
    }

    /// Remove and return the comment at `index`.
    pub fn take(&mut self, index: usize) -> (out: Option<StoredComment>)
        ensures
            index < old(self).items().len() ==> out == Some(old(self).items()[index as int])
                && final(self).items() == old(self).items().remove(index as int),
            index >= old(self).items().len() ==> out is None && final(self).items() == old(
                self,
            ).items(),
    {
        if index < self.items.len() {
            Some(self.items.remove(index))
        } else {
            None
        }
    }

    /// Replace the whole set.
    pub fn replace(&mut self, items: Vec<StoredComment>)
        ensures
            final(self).items() == items@,
    {
        self.items = items;
    }
}


/// A decimal rendering ends with the digit of its last place.
proof fn lemma_decimal_ends_in_a_digit(n: nat)
    ensures
        decimal(n).len() >= 1,
        decimal(n).last() == digit(n % 10),
{
}

/// A location ends with ` (removed)` exactly when its comment is on the old side, whether it
/// names one line or a range; the old side's location is the new side's with that mark added.
pub proof fn law_removed_marks_exactly_the_old_side(file: Seq<char>, side: Side, start: nat, end: nat)
    ensures
        has_suffix(location_spec(file, side, start, end), " (removed)"@) <==> side == Side::Old,
        location_spec(file, Side::Old, start, end) == location_spec(file, Side::New, start, end)
            + " (removed)"@,
{
    reveal_strlit(" (removed)");
    let marker = " (removed)"@;
    let new_side = location_spec(file, Side::New, start, end);
    let last = if start == end {
        start
    } else {
        end
    };
    lemma_decimal_ends_in_a_digit(last);
    assert(new_side.last() == digit(last % 10));
    if has_suffix(new_side, marker) {
        assert(new_side.skip(new_side.len() - marker.len()).last() == new_side.last());
        assert(marker.last() == ')');
    }
    let old_side = location_spec(file, Side::Old, start, end);
    assert(old_side.skip(old_side.len() - marker.len()) =~= marker);
}


/// A location starts with the file and its first line; a range's location is its first
/// line's location with `-` and the last line added (on the same side).
pub proof fn law_a_range_extends_its_first_line(file: Seq<char>, side: Side, start: nat, end: nat)
    ensures
        has_prefix(location_spec(file, side, start, end), file + seq![':'] + decimal(start)),
        start != end ==> location_spec(file, Side::New, start, end) == location_spec(
            file,
            Side::New,
            start,
            start,
        ) + seq!['-'] + decimal(end),
{
    let p = file + seq![':'] + decimal(start);
    let l = location_spec(file, side, start, end);
    assert(l.take(p.len() as int) =~= p);
}

} // verus!

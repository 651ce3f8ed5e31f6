//! Mouse text selection: the drag state and the copied text. The extraction turns spanned
//! rows into clipboard text; hit-testing and painting are the terminal front end's.

use vstd::prelude::*;

use crate::diff::{row_text, Row};
use crate::file_list::{self, RowKind};
use crate::text::{decimal, join, join_strings, push_str, push_string, push_u64, to_chars, views};

verus! {

/// Where a text drag lives, locked at mouse-down.
#[derive(Clone, Copy, Debug, PartialEq, Eq, Structural)]
pub enum Surface {
    /// The read pane's diff rows: character-precise source text.
    Read,
    /// The read pane's painted lines: character-precise painted text.
    Painted,
    /// A spliced comment card in the read pane, confined to the card it started on.
    Card { comment: usize },
    /// The file navigator: row-granular, a row copies its repo-relative path.
    Files,
    /// The `PR` tab's checks-and-comments navigator: row-granular displayed text.
    PrNav,
}

/// One endpoint: a logical row in its surface plus a character offset into that row's text.
#[derive(Clone, Copy, Debug, PartialEq, Eq, Structural, PartialOrd, Ord)]
pub struct Point {
    pub row: usize,
    pub chr: usize,
}

/// An active text drag: born at mouse-down, ended on release or an interrupting event.
#[derive(Clone, Copy, Debug)]
pub struct TextDrag {
    pub surface: Surface,
    pub anchor: Point,
    pub extent: Point,
}

/// The one live mouse gesture.
#[derive(Clone, Copy, Debug)]
pub enum Gesture {
    /// No live gesture.
    Idle,
    /// A text gesture over a selectable surface, with the mouse-down's multi-click count
    /// (1 single, 2 double, 3 triple and beyond).
    Text { drag: TextDrag, count: u8 },
    /// A gutter comment gesture: line selection by drag, the composer on release.
    Gutter,
}

/// Document order on points: by row, then by character.
pub open spec fn point_le(a: Point, b: Point) -> bool {
    a.row < b.row || (a.row == b.row && a.chr <= b.chr)
}

impl TextDrag {
    /// The selection's endpoints in document order; both ends are inclusive.
    pub fn ordered(&self) -> (p: (Point, Point))
        ensures
            point_le(p.0, p.1),
            (p.0 == self.anchor && p.1 == self.extent) || (p.0 == self.extent && p.1
                == self.anchor),
            point_le(self.anchor, self.extent) ==> p.0 == self.anchor,
    {
        if self.anchor.row < self.extent.row || (self.anchor.row == self.extent.row
            && self.anchor.chr <= self.extent.chr) {
            (self.anchor, self.extent)
        } else {
            (self.extent, self.anchor)
        }
    }
}

/// The characters of `text` from `from` up to and including `to` (to the end when `to` is
/// `None`), clamped to the text.
pub open spec fn slice_spec(text: Seq<char>, from: nat, to: Option<nat>) -> Seq<char> {
    let start = if from < text.len() {
        from as int
    } else {
        text.len() as int
    };
    let rest = text.subrange(start, text.len() as int);
    match to {
        Some(t) => {
            let n = if t + 1 > from {
                (t + 1 - from) as int
            } else {
                0
            };
            rest.take(if n < rest.len() {
                n
            } else {
                rest.len() as int
            })
        },
        None => rest,
    }
}

/// The characters of `text` from `from` through `to`, clamped to the text.
pub fn slice_chars(text: &str, from: usize, to: Option<usize>) -> (out: String)
    ensures
        out@ == slice_spec(
            text@,
            from as nat,
            match to {
                Some(t) => Some(t as nat),
                None => None,
            },
        ),
{
    let cs = to_chars(text);
    let start = if from < cs.len() {
        from
    } else {
        cs.len()
    };
    let end = match to {
        Some(t) => {
            let n: usize = if t >= from {
                if t - from < cs.len() - start {
                    t - from + 1
                } else {
                    cs.len() - start
                }
            } else {
                0
            };
            if n < cs.len() - start {
                start + n
            } else {
                cs.len()
            }
        },
        None => cs.len(),
    };
    let mut out = String::new();
    let mut i = start;
    while i < end
        invariant
            start <= i <= end <= cs@.len(),
            cs@ == text@,
            out@ == cs@.subrange(start as int, i as int),
        decreases end - i,
    {
        crate::text::push_char(&mut out, cs[i]);
        proof {
            assert(out@ =~= cs@.subrange(start as int, i + 1));
        }
        i = i + 1;
    }
    proof {
        assert(out@ =~= slice_spec(
            text@,
            from as nat,
            match to {
                Some(t) => Some(t as nat),
                None => None,
            },
        ));
    }
    out
}

/// The last row a selection ending at row `b` reaches among `len` rows.
pub open spec fn hi_row(b: nat, len: nat) -> int {
    let last = if len > 0 {
        len - 1
    } else {
        0
    };
    if b < last {
        b as int
    } else {
        last as int
    }
}

/// The copied parts of rows `a.row ..= hi` that lie before position `k`: each content row cut
/// at the endpoints on the first and last rows, folds skipped.
pub open spec fn read_parts(rows: Seq<Row>, a: Point, b: Point, k: int) -> Seq<Seq<char>>
    decreases k,
{
    if k <= a.row || k <= 0 {
        Seq::empty()
    } else {
        let i = k - 1;
        let hi = hi_row(b.row as nat, rows.len());
        let before = read_parts(rows, a, b, i);
        if i < rows.len() && i <= hi && !(rows[i] is Fold) {
            before.push(
                slice_spec(
                    row_text(rows[i]),
                    if i == a.row {
                        a.chr as nat
                    } else {
                        0
                    },
                    if i == hi {
                        Some(b.chr as nat)
                    } else {
                        None
                    },
                ),
            )
        } else {
            before
        }
    }
}

/// The clipboard text for a read-surface selection over `rows`: each spanned content row
/// contributes its source line once, the first and last rows cut at the endpoints, folds
/// contribute nothing; the lines are joined by newlines.
pub fn read_text(rows: &[Row], a: Point, b: Point) -> (out: String)
    ensures
        out@ == join(read_parts(rows@, a, b, rows@.len() as int), "\n"@),
{
    let last = if rows.len() > 0 {
        rows.len() - 1
    } else {
        0
    };
    let hi = if b.row < last {
        b.row
    } else {
        last
    };
    let mut parts: Vec<String> = Vec::new();
    let mut i: usize = a.row;
    if i > rows.len() {
        i = rows.len();
    }
    while i < rows.len()
        invariant
            i <= rows@.len(),
            a.row <= i || rows@.len() <= i,
            hi == hi_row(b.row as nat, rows@.len()),
            views(parts@) == read_parts(rows@, a, b, i as int),
        decreases rows@.len() - i,
    {
        if i <= hi && rows[i].is_content() {
            let text = rows[i].text();
            let from = if i == a.row {
                a.chr
            } else {
                0
            };
            let to = if i == hi {
                Some(b.chr)
            } else {
                None
            };
            push_string(&mut parts, slice_chars(text.as_str(), from, to));
        }
        i = i + 1;
    }
    join_strings(&parts, "\n")
}

/// The copied parts of lines `a.row ..= hi` before position `k`, the first and last cut at
/// the endpoints.
pub open spec fn line_parts(lines: Seq<String>, a: Point, b: Point, k: int) -> Seq<Seq<char>>
    decreases k,
{
    if k <= a.row || k <= 0 {
        Seq::empty()
    } else {
        let i = k - 1;
        let hi = hi_row(b.row as nat, lines.len());
        let before = line_parts(lines, a, b, i);
        if i < lines.len() && i <= hi {
            before.push(
                slice_spec(
                    lines[i]@,
                    if i == a.row {
                        a.chr as nat
                    } else {
                        0
                    },
                    if i == hi {
                        Some(b.chr as nat)
                    } else {
                        None
                    },
                ),
            )
        } else {
            before
        }
    }
}

/// The clipboard text for a selection over prebuilt line texts (painted surfaces and cards):
/// whole lines between the endpoints, the first and last cut at them.
pub fn lines_text(lines: &[String], a: Point, b: Point) -> (out: String)
    ensures
        out@ == join(line_parts(lines@, a, b, lines@.len() as int), "\n"@),
{
    let last = if lines.len() > 0 {
        lines.len() - 1
    } else {
        0
    };
    let hi = if b.row < last {
        b.row
    } else {
        last
    };
    let mut parts: Vec<String> = Vec::new();
    let mut i: usize = a.row;
    if i > lines.len() {
        i = lines.len();
    }
    while i < lines.len()
        invariant
            i <= lines@.len(),
            a.row <= i || lines@.len() <= i,
            hi == hi_row(b.row as nat, lines@.len()),
            views(parts@) == line_parts(lines@, a, b, i as int),
        decreases lines@.len() - i,
    {
        if i <= hi {
            let from = if i == a.row {
                a.chr
            } else {
                0
            };
            let to = if i == hi {
                Some(b.chr)
            } else {
                None
            };
            push_string(&mut parts, slice_chars(lines[i].as_str(), from, to));
        }
        i = i + 1;
    }
    join_strings(&parts, "\n")
}

/// The paths of navigator rows before position `k` within `a_row ..= hi`: a directory row its
/// directory path, a file row its entry's repo-relative path (none for a stale index).
pub open spec fn file_parts(
    rows: Seq<file_list::Row>,
    entries: Seq<file_list::Entry>,
    a_row: nat,
    b_row: nat,
    k: int,
) -> Seq<Seq<char>>
    decreases k,
{
    if k <= a_row || k <= 0 {
        Seq::empty()
    } else {
        let i = k - 1;
        let before = file_parts(rows, entries, a_row, b_row, i);
        if i < rows.len() && i <= hi_row(b_row, rows.len()) {
            match rows[i].kind {
                RowKind::Dir { path, .. } => before.push(path@),
                RowKind::File { index, .. } => if index < entries.len() {
                    before.push(entries[index as int].path@)
                } else {
                    before
                },
            }
        } else {
            before
        }
    }
}

/// The clipboard text for a navigator selection: each spanned row's full repo-relative path,
/// directories included, one per line.
pub fn files_text(
    rows: &[file_list::Row],
    entries: &[file_list::Entry],
    a_row: usize,
    b_row: usize,
) -> (out: String)
    ensures
        out@ == join(
            file_parts(rows@, entries@, a_row as nat, b_row as nat, rows@.len() as int),
            "\n"@,
        ),
{
    let last = if rows.len() > 0 {
        rows.len() - 1
    } else {
        0
    };
    let hi = if b_row < last {
        b_row
    } else {
        last
    };
    let mut parts: Vec<String> = Vec::new();
    let mut i: usize = a_row;
    if i > rows.len() {
        i = rows.len();
    }
    while i < rows.len()
        invariant
            i <= rows@.len(),
            a_row <= i || rows@.len() <= i,
            hi == hi_row(b_row as nat, rows@.len()),
            views(parts@) == file_parts(rows@, entries@, a_row as nat, b_row as nat, i as int),
        decreases rows@.len() - i,
    {
        if i <= hi {
            match &rows[i].kind {
                RowKind::Dir { path, .. } => push_string(&mut parts, path.clone()),
                RowKind::File { index, .. } => if *index < entries.len() {
                    push_string(&mut parts, entries[*index].path.clone());
                },
            }
        }
        i = i + 1;
    }
    join_strings(&parts, "\n")
}

/// A word character: a letter, a digit, or an underscore.
pub open spec fn is_word(c: char) -> bool {
    crate::text::alphanumeric(c) || c == '_'
}

/// `(s, e)` is the unbroken run of word characters covering `chr`.
pub open spec fn word_run(cs: Seq<char>, chr: int, s: int, e: int) -> bool {
    &&& 0 <= s <= chr <= e < cs.len()
    &&& forall|k: int| s <= k <= e ==> is_word(#[trigger] cs[k])
    &&& (s == 0 || !is_word(cs[s - 1]))
    &&& (e + 1 == cs.len() || !is_word(cs[e + 1]))
}

/// Whether a character is a word character.
fn word_char(c: char) -> (b: bool)
    ensures
        b == is_word(c),
{
    crate::text::is_alphanumeric(c) || c == '_'
}

/// The word at char `chr` of `text`: the inclusive char range of the unbroken run of
/// letters, digits, and underscores covering it. Whitespace, punctuation, and offsets past
/// the text yield `None`.
pub fn token_at(text: &str, chr: usize) -> (r: Option<(usize, usize)>)
    ensures
        match r {
            Some((s, e)) => word_run(text@, chr as int, s as int, e as int),
            None => chr >= text@.len() || !is_word(text@[chr as int]),
        },
{
    let chars = to_chars(text);
    if chr >= chars.len() || !word_char(chars[chr]) {
        return None;
    }
    let mut s = chr;
    while s > 0 && word_char(chars[s - 1])
        invariant
            chars@ == text@,
            s <= chr < chars@.len(),
            forall|k: int| s <= k <= chr ==> is_word(#[trigger] chars@[k]),
        decreases s,
    {
        s = s - 1;
    }
    let mut e = chr;
    while e < chars.len() - 1 && word_char(chars[e + 1])
        invariant
            chars@ == text@,
            s <= chr <= e < chars@.len(),
            forall|k: int| s <= k <= e ==> is_word(#[trigger] chars@[k]),
        decreases chars@.len() - e,
    {
        e = e + 1;
    }
    Some((s, e))
}

/// The footer status after a copy: the character count and the plural as it reads.
pub open spec fn copied_spec(n: nat) -> Seq<char> {
    "copied "@ + decimal(n) + if n == 1 {
        " char"@
    } else {
        " chars"@
    }
}

/// The footer status after a copy of `text`: `copied N char(s)`, counting characters.
pub fn copied_status(text: &str) -> (s: String)
    ensures
        s@ == copied_spec(text@.len()),
{
    let n = crate::text::char_count(text);
    let mut s = String::new();
    push_str(&mut s, "copied ");
    push_u64(&mut s, n as u64);
    if n == 1 {
        push_str(&mut s, " char");
    } else {
        push_str(&mut s, " chars");
    }
    s
}

} // verus!

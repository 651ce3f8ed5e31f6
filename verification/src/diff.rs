//! The diff rows a read pane shows: context, deletion, insertion, and folded context.

use vstd::prelude::*;

use crate::text::push_str;

verus! {

/// One run of row text (its color is a presentation concern and lives with the painter).
#[derive(Clone, Debug, PartialEq, Eq)]
pub struct Span {
    pub text: String,
}

/// One row of a file diff.
#[derive(Debug, PartialEq, Eq)]
pub enum Row {
    Context { old_no: u32, new_no: u32, spans: Vec<Span> },
    Deletion { old_no: u32, spans: Vec<Span>, emphasis: Vec<(usize, usize)> },
    Insertion { new_no: u32, spans: Vec<Span>, emphasis: Vec<(usize, usize)> },
    /// Unchanged lines collapsed behind one row.
    Fold { lines: Vec<Row> },
}

/// The concatenated text of `spans`.
pub open spec fn spans_text(spans: Seq<Span>) -> Seq<char>
    decreases spans.len(),
{
    if spans.len() == 0 {
        Seq::empty()
    } else {
        spans_text(spans.drop_last()) + spans.last().text@
    }
}

/// A row's source text: its spans joined; a fold has none.
pub open spec fn row_text(r: Row) -> Seq<char> {
    match r {
        Row::Context { spans, .. } => spans_text(spans@),
        Row::Deletion { spans, .. } => spans_text(spans@),
        Row::Insertion { spans, .. } => spans_text(spans@),
        Row::Fold { .. } => Seq::empty(),
    }
}

fn join_spans(spans: &Vec<Span>) -> (out: String)
    ensures
        out@ == spans_text(spans@),
{
    let mut out = String::new();
    let mut i: usize = 0;
    while i < spans.len()
        invariant
            i <= spans@.len(),
            out@ == spans_text(spans@.take(i as int)),
        decreases spans@.len() - i,
    {
        proof {
            assert(spans@.take(i + 1).drop_last() =~= spans@.take(i as int));
        }
        push_str(&mut out, spans[i].text.as_str());
        i = i + 1;
    }
    proof {
        assert(spans@.take(spans@.len() as int) =~= spans@);
    }
    out
}

impl Row {
    /// Whether the row shows source text (everything but a fold).
    pub fn is_content(&self) -> (b: bool)
        ensures
            b == !(self is Fold),
    {
        match self {
            Row::Fold { .. } => false,
            _ => true,
        }
    }

    /// The row's source text.
    pub fn text(&self) -> (out: String)
        ensures
            out@ == row_text(*self),
    {
        match self {
            Row::Context { spans, .. } => join_spans(spans),
            Row::Deletion { spans, .. } => join_spans(spans),
            Row::Insertion { spans, .. } => join_spans(spans),
            Row::Fold { .. } => String::new(),
        }
    }

    /// How many source lines the row stands for: one for content, the folded count for a fold.
    pub fn hidden(&self) -> (n: usize)
        ensures
            n == match *self {
                Row::Fold { lines } => lines@.len(),
                _ => 1,
            },
    {
        match self {
            Row::Fold { lines } => lines.len(),
            _ => 1,
        }
    }
}

} // verus!

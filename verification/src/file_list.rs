//! The file navigator's rows: directories and files of the Changes tree.

use vstd::prelude::*;

use crate::model::ChangeKind;

verus! {

/// How a file changed, with its line counts.
#[derive(Clone, Copy, Debug, PartialEq, Eq)]
pub struct Annotation {
    pub change: ChangeKind,
    pub additions: u32,
    pub deletions: u32,
}

/// One listed file.
#[derive(Clone, Debug, PartialEq, Eq)]
pub struct Entry {
    pub path: String,
    pub previous_path: Option<String>,
    pub annotation: Option<Annotation>,
    pub ignored: bool,
    pub is_dir: bool,
}

/// What a navigator row shows.
#[derive(Clone, Debug, PartialEq, Eq)]
pub enum RowKind {
    /// A directory, by its repo-relative path.
    Dir { path: String, expanded: bool },
    /// A file, by its index into the entries.
    File { index: usize, annotation: Option<Annotation> },
}

/// One painted navigator row.
#[derive(Clone, Debug, PartialEq, Eq)]
pub struct Row {
    pub depth: usize,
    pub name: String,
    pub kind: RowKind,
    pub ignored: bool,
}

} // verus!

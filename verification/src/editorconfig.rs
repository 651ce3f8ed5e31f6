//! The `EditorConfig` property that affects source display: the tab stop.
//!
//! Reading the `.editorconfig` files is the front end's (it walks parent directories, so it
//! happens when a file model is built, never while a frame paints); this module decides what
//! the resolved property means.

use vstd::prelude::*;

verus! {

/// The historical tab stop when no usable property applies.
pub const DEFAULT_TAB_WIDTH: usize = 4;

/// The tab stop for a resolved `tab_width` (with `indent_size` as its fallback): its width
/// when it is a positive number; the default when it is missing, unset, malformed or zero.
pub fn effective_tab_width(resolved: Option<usize>) -> (w: usize)
    ensures
        w == match resolved {
            Some(n) if n > 0 => n,
            _ => DEFAULT_TAB_WIDTH,
        },
{
    match resolved {
        Some(n) if n > 0 => n,
        _ => DEFAULT_TAB_WIDTH,
    }
}

} // verus!

//! The search paths handed to the tools the sidebar runs.
//!
//! The sidebar's own tools (`git`, the forge command-line clients) resolve on the usual host
//! bin directories first, so a stripped pane `PATH` cannot hide them; the user's own tools
//! (the editor, and whatever it launches) resolve on the user's `PATH` first, with the host
//! bin directories only as a fallback. Reading the environment and looking files up are the
//! front end's.

use vstd::prelude::*;

use crate::text::{owned, push_str};

verus! {

/// The usual host bin directories, `:`-joined, in lookup order.
pub open spec fn common_bins() -> Seq<char> {
    "/opt/homebrew/bin:/usr/local/bin:/usr/bin:/bin"@
}

/// The usual host bin directories, `:`-joined.
pub fn common_bins_joined() -> (s: String)
    ensures
        s@ == common_bins(),
{
    owned("/opt/homebrew/bin:/usr/local/bin:/usr/bin:/bin")
}

/// The sidebar's own search path: the common bins, then the inherited `PATH` when it is set
/// and non-empty.
pub open spec fn prepended_spec(inherited: Option<Seq<char>>) -> Seq<char> {
    match inherited {
        Some(p) if p.len() > 0 => common_bins() + ":"@ + p,
        _ => common_bins(),
    }
}

/// The user's search path: the inherited `PATH` when it is set and non-empty, then the
/// common bins. A set-but-empty `PATH` counts as none, so no empty entry (the working
/// directory) ever comes first.
pub open spec fn appended_spec(inherited: Option<Seq<char>>) -> Seq<char> {
    match inherited {
        Some(p) if p.len() > 0 => p + ":"@ + common_bins(),
        _ => common_bins(),
    }
}

/// The characters of an optional string.
pub open spec fn opt_chars(o: Option<&str>) -> Option<Seq<char>> {
    match o {
        Some(s) => Some(s@),
        None => None,
    }
}

/// The sidebar's own search path.
pub fn prepended_path(inherited: Option<&str>) -> (path: String)
    ensures
        path@ == prepended_spec(opt_chars(inherited)),
{
    let mut path = common_bins_joined();
    match inherited {
        Some(p) => {
            if crate::text::char_count(p) > 0 {
                push_str(&mut path, ":");
                push_str(&mut path, p);
            }
        },
        None => {},
    }
    path
}

/// The user's search path.
pub fn appended_path(inherited: Option<&str>) -> (path: String)
    ensures
        path@ == appended_spec(opt_chars(inherited)),
{
    match inherited {
        Some(p) => {
            if crate::text::char_count(p) > 0 {
                let mut path = owned(p);
                push_str(&mut path, ":");
                push_str(&mut path, "/opt/homebrew/bin:/usr/local/bin:/usr/bin:/bin");
                return path;
            }
            common_bins_joined()
        },
        None => common_bins_joined(),
    }
}

} // verus!

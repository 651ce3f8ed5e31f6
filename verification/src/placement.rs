//! Where the sidebar pane opens (the configured toggle placement and split direction) and the
//! host operating system the pane entrypoints are named for.

use vstd::prelude::*;

verus! {

/// How the sidebar pane is placed when it opens.
#[derive(Clone, Copy, Debug, PartialEq, Eq, Structural)]
pub enum TogglePlacement {
    Split,
    Zoomed,
    Tab,
    Overlay,
}

impl TogglePlacement {
    /// The placement's herdr spelling.
    pub open spec fn spelling(self) -> Seq<char> {
        match self {
            TogglePlacement::Split => "split"@,
            TogglePlacement::Zoomed => "zoomed"@,
            TogglePlacement::Tab => "tab"@,
            TogglePlacement::Overlay => "overlay"@,
        }
    }

    /// The placement as herdr's `--placement` takes it.
    pub fn as_str(self) -> (s: &'static str)
        ensures
            s@ == self.spelling(),
    {
        match self {
            TogglePlacement::Split => "split",
            TogglePlacement::Zoomed => "zoomed",
            TogglePlacement::Tab => "tab",
            TogglePlacement::Overlay => "overlay",
        }
    }
}

/// Which way a split opens.
#[derive(Clone, Copy, Debug, PartialEq, Eq, Structural)]
pub enum ToggleDirection {
    Right,
    Down,
}

impl ToggleDirection {
    /// The direction's herdr spelling.
    pub open spec fn spelling(self) -> Seq<char> {
        match self {
            ToggleDirection::Right => "right"@,
            ToggleDirection::Down => "down"@,
        }
    }

    /// The direction as herdr's `--direction` takes it.
    pub fn as_str(self) -> (s: &'static str)
        ensures
            s@ == self.spelling(),
    {
        match self {
            ToggleDirection::Right => "right",
            ToggleDirection::Down => "down",
        }
    }
}

/// The operating system the binary runs on: Windows has its own pane entrypoints and launcher.
#[derive(Clone, Copy, Debug, PartialEq, Eq, Structural)]
pub enum HostOs {
    Unix,
    Windows,
}

} // verus!

//! How a spawned forge tool failed, before its output is classified. Spawning and draining the
//! tool is the application's work.

use vstd::prelude::*;

verus! {

/// How a spawned tool run failed, before its stdout/stderr is classified by the caller.
#[derive(Debug, PartialEq, Eq)]
pub enum RunFail {
    /// The tool binary is not on `PATH`.
    NotFound,
    /// The tool ran and exited non-zero; its stderr, for the caller to classify.
    Failed { stderr: String },
    /// The cancellation flag was observed set while or after the tool ran.
    Cancelled,
    /// Any other I/O failure spawning or waiting on the child.
    Io(String),
}

} // verus!

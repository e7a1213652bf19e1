//! The state of a task started in the background.

use vstd::prelude::*;

verus! {

/// Where a background run stands.
#[derive(Clone, Copy, Debug, PartialEq, Eq, Structural)]
pub enum RunStatus {
    Running,
    Succeeded,
    Failed,
}

impl RunStatus {
    /// The status of a run whose process has exited.
    pub fn exited(success: bool) -> (r: RunStatus)
        ensures
            r == if success {
                RunStatus::Succeeded
            } else {
                RunStatus::Failed
            },
    {
        if success {
            RunStatus::Succeeded
        } else {
            RunStatus::Failed
        }
    }
}

} // verus!

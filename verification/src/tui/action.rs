//! What a screen asks the application to do.

use vstd::prelude::*;

use crate::model::Task;
use super::editor::LaunchMode;

verus! {

/// What a screen asks the application to do.
#[derive(Debug)]
pub enum Action {
    Quit,
    ToggleHelp,
    OpenDashboard,
    /// Start the task in the background.
    Run(Task),
    /// Leave the interface and run the task in its place.
    SelectOneShot(Task),
    /// Stop the run with this index, in start order.
    Kill(usize),
    /// Open the command editor on the task.
    Edit(Task, LaunchMode),
}

} // verus!

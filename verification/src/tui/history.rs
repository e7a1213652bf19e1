//! The history view: background runs, newest first, with a selection.

use vstd::prelude::*;

use crate::model::{Task, TaskView};
use super::keys::{Key, KeyCode};
use super::action::Action;
use super::picker::{moved_down, moved_up, position};

verus! {

broadcast use vstd::string::group_string_axioms;

/// The history view's selection: a position in the list of runs shown
/// newest first.
#[derive(Debug)]
pub struct History {
    pub selected: Option<usize>,
}

/// The run (by its index in start order) at a position of the list shown
/// newest first.
pub open spec fn run_at(selected: Option<usize>, run_count: nat) -> Option<usize> {
    match selected {
        Some(s) => if s < run_count {
            Some((run_count - 1 - s) as usize)
        } else {
            None
        },
        None => None,
    }
}

/// What a key does to the history view: `j`, Down and Ctrl-N move down,
/// `k` and Up move up; `r` reruns the selected run's task and `x` kills the
/// selected run.
pub open spec fn history_step(
    old: History,
    new: History,
    key: Key,
    runs: Seq<Task>,
    r: Option<Action>,
) -> bool {
    let count = runs.len();
    match key.code {
        KeyCode::Char(c) => if c == 'j' || (c == 'n' && key.ctrl) {
            new.selected == moved_down(old.selected, count) && r is None
        } else if c == 'k' {
            new.selected == moved_up(old.selected) && r is None
        } else if c == 'r' {
            new.selected == old.selected && match run_at(old.selected, count) {
                Some(i) => r matches Some(Action::Run(t)) && t@ == runs[i as int]@,
                None => r is None,
            }
        } else if c == 'x' {
            new.selected == old.selected && match run_at(old.selected, count) {
                Some(i) => r == Some(Action::Kill(i)),
                None => r is None,
            }
        } else {
            new.selected == old.selected && r is None
        },
        KeyCode::Down => new.selected == moved_down(old.selected, count) && r is None,
        KeyCode::Up => new.selected == moved_up(old.selected) && r is None,
        _ => new.selected == old.selected && r is None,
    }
}

impl History {
    /// A history view with nothing selected.
    pub fn new() -> (r: History)
        ensures
            r.selected is None,
    {
        History { selected: None }
    }

    /// The index, in start order, of the selected run, where the selection
    /// is within the list.
    pub fn selected_index(&self, run_count: usize) -> (r: Option<usize>)
        ensures
            r == run_at(self.selected, run_count as nat),
    {
        match self.selected {
            Some(s) => if s < run_count {
                Some(run_count - 1 - s)
            } else {
                None
            },
            None => None,
        }
    }

    /// Keeps the selection within a list of `run_count` runs.
    pub fn normalize_selection(&mut self, run_count: usize)
        ensures
            final(self).selected == if run_count == 0 {
                None
            } else {
                Some(
                    (if position(old(self).selected) < run_count - 1 {
                        position(old(self).selected)
                    } else {
                        run_count - 1
                    }) as usize,
                )
            },
    {
        if run_count == 0 {
            self.selected = None;
        } else {
            let i = match self.selected {
                Some(i) => i,
                None => 0,
            };
            self.selected = Some(if i < run_count - 1 { i } else { run_count - 1 });
        }
    }

    /// Handles a key; `runs` are the tasks of the runs in start order.
    pub fn handle_key(&mut self, key: Key, runs: &[Task]) -> (r: Option<Action>)
        ensures
            history_step(*old(self), *final(self), key, runs@, r),
    {
        let count = runs.len();
        let down = match key.code {
            KeyCode::Char(c) => c == 'j' || (c == 'n' && key.ctrl),
            KeyCode::Down => true,
            _ => false,
        };
        let up = match key.code {
            KeyCode::Char(c) => c == 'k',
            KeyCode::Up => true,
            _ => false,
        };
        let i = match self.selected {
            Some(i) => i,
            None => 0,
        };
        if down {
            let last = if count == 0 { 0 } else { count - 1 };
            self.selected = Some(if i < last { i + 1 } else { last });
            return None;
        }
        if up {
            self.selected = Some(if i > 0 { i - 1 } else { 0 });
            return None;
        }
        match key.code {
            KeyCode::Char(c) => {
                if c == 'r' {
                    match self.selected_index(count) {
                        Some(index) => Some(Action::Run(runs[index].clone())),
                        None => None,
                    }
                } else if c == 'x' {
                    match self.selected_index(count) {
                        Some(index) => Some(Action::Kill(index)),
                        None => None,
                    }
                } else {
                    None
                }
            },
            _ => None,
        }
    }
}

} // verus!

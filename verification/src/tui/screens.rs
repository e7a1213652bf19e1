//! The two screens: picking one task to run in place of the interface,
//! and the dashboard of background runs.

use vstd::prelude::*;

use crate::model::{Task, TaskView};
use super::action::Action;
use super::editor::LaunchMode;
use super::history::{history_step, History};
use super::keys::{Key, KeyCode};
use super::picker::{picker_step, selected_of, task_opt_view, TaskPicker};

verus! {

broadcast use vstd::string::group_string_axioms;

/// The screen that picks one task to run in place of the interface.
#[derive(Debug)]
pub struct OneShot {
    pub picker: TaskPicker,
}

/// What a key does on the one-shot screen: `e`, while not typing a query,
/// opens the editor on the selected task; every other key goes to the
/// picker, and a task it hands back is chosen to run.
pub open spec fn one_shot_step(
    old: OneShot,
    new: OneShot,
    key: Key,
    root: Seq<char>,
    tasks: Seq<Task>,
    r: Option<Action>,
) -> bool {
    if !old.picker.searching && key.code == KeyCode::Char('e') {
        &&& new == old
        &&& match selected_of(root, tasks, old.picker.query@, old.picker.selected) {
            Some(t) => r matches Some(Action::Edit(e, m)) && e@ == t@ && m == LaunchMode::OneShot,
            None => r is None,
        }
    } else {
        match r {
            Some(Action::SelectOneShot(t)) => picker_step(old.picker, new.picker, key, root, tasks, Some(t)),
            None => picker_step(old.picker, new.picker, key, root, tasks, None),
            _ => false,
        }
    }
}

impl OneShot {
    /// A one-shot screen with a fresh picker.
    pub fn new() -> (r: OneShot)
        ensures
            r.picker.query@.len() == 0,
            !r.picker.searching,
            r.picker.selected is None,
    {
        OneShot { picker: TaskPicker::new() }
    }

    /// Whether keys go to the query being typed.
    pub fn captures_input(&self) -> (r: bool)
        ensures
            r == self.picker.searching,
    {
        self.picker.is_searching()
    }

    /// Handles a key.
    pub fn handle_key(&mut self, key: Key, root: &str, tasks: &[Task]) -> (r: Option<Action>)
        ensures
            one_shot_step(*old(self), *final(self), key, root@, tasks@, r),
    {
        if !self.picker.is_searching() && key.code == KeyCode::Char('e') {
            return match self.picker.selected_task(root, tasks) {
                Some(t) => Some(Action::Edit(t.clone(), LaunchMode::OneShot)),
                None => None,
            };
        }
        match self.picker.handle_key(key, root, tasks) {
            Some(t) => Some(Action::SelectOneShot(t)),
            None => None,
        }
    }
}

/// The dashboard's tabs.
#[derive(Clone, Copy, Debug, PartialEq, Eq, Structural)]
pub enum Tab {
    Launcher,
    Projects,
    History,
}

/// The dashboard: a launcher that starts tasks in the background, the
/// projects found, and the history of runs.
#[derive(Debug)]
pub struct Dashboard {
    pub tab: Tab,
    pub launcher: TaskPicker,
    pub history: History,
}

/// What a key does on the dashboard: `L`, `P` and `H` switch tabs; other
/// keys go to the launcher, whose chosen task is started in the
/// background, or to the history; the projects tab takes no keys.
pub open spec fn dashboard_step(
    old: Dashboard,
    new: Dashboard,
    key: Key,
    root: Seq<char>,
    tasks: Seq<Task>,
    runs: Seq<Task>,
    r: Option<Action>,
) -> bool {
    if key.code == KeyCode::Char('L') {
        new == Dashboard { tab: Tab::Launcher, ..old } && r is None
    } else if key.code == KeyCode::Char('P') {
        new == Dashboard { tab: Tab::Projects, ..old } && r is None
    } else if key.code == KeyCode::Char('H') {
        new == Dashboard { tab: Tab::History, ..old } && r is None
    } else {
        &&& new.tab == old.tab
        &&& match old.tab {
            Tab::Launcher => new.history == old.history && match r {
                Some(Action::Run(t)) => picker_step(old.launcher, new.launcher, key, root, tasks, Some(t)),
                None => picker_step(old.launcher, new.launcher, key, root, tasks, None),
                _ => false,
            },
            Tab::Projects => new == old && r is None,
            Tab::History => new.launcher == old.launcher && history_step(
                old.history,
                new.history,
                key,
                runs,
                r,
            ),
        }
    }
}

impl Dashboard {
    /// A dashboard on the launcher tab, with nothing selected.
    pub fn new() -> (r: Dashboard)
        ensures
            r.tab == Tab::Launcher,
            r.launcher.query@.len() == 0,
            !r.launcher.searching,
            r.launcher.selected is None,
            r.history.selected is None,
    {
        Dashboard { tab: Tab::Launcher, launcher: TaskPicker::new(), history: History::new() }
    }

    /// Whether keys go to the launcher's query being typed.
    pub fn captures_input(&self) -> (r: bool)
        ensures
            r == (self.tab == Tab::Launcher && self.launcher.searching),
    {
        self.tab == Tab::Launcher && self.launcher.is_searching()
    }

    /// The position of the current tab among the tabs.
    pub fn tab_index(&self) -> (r: usize)
        ensures
            r == match self.tab {
                Tab::Launcher => 0usize,
                Tab::Projects => 1usize,
                Tab::History => 2usize,
            },
    {
        match self.tab {
            Tab::Launcher => 0,
            Tab::Projects => 1,
            Tab::History => 2,
        }
    }

    /// Handles a key; `runs` are the tasks of the background runs in start
    /// order.
    pub fn handle_key(&mut self, key: Key, root: &str, tasks: &[Task], runs: &[Task]) -> (r: Option<
        Action,
    >)
        ensures
            dashboard_step(*old(self), *final(self), key, root@, tasks@, runs@, r),
    {
        if key.code == KeyCode::Char('L') {
            self.tab = Tab::Launcher;
            return None;
        }
        if key.code == KeyCode::Char('P') {
            self.tab = Tab::Projects;
            return None;
        }
        if key.code == KeyCode::Char('H') {
            self.tab = Tab::History;
            return None;
        }
        match self.tab {
            Tab::Launcher => match self.launcher.handle_key(key, root, tasks) {
                Some(t) => Some(Action::Run(t)),
                None => None,
            },
            Tab::Projects => None,
            Tab::History => self.history.handle_key(key, runs),
        }
    }
}

} // verus!

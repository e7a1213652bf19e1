//! The interface as a whole: which screen is shown, the help overlay, the
//! command editor, and what a key asks the application to do.

use vstd::prelude::*;

use crate::model::{command_line_of, Task, TaskView};
use super::action::Action;
use super::editor::{editor_step, CommandEditor, EditorResult, LaunchMode};
use super::keys::{Key, KeyCode};
use super::history::{history_step, run_at};
use super::screens::{dashboard_step, one_shot_step, Dashboard, OneShot, Tab};

verus! {

broadcast use vstd::string::group_string_axioms;

/// The screen shown.
#[derive(Debug)]
pub enum Screen {
    OneShot(OneShot),
    Dashboard(Dashboard),
}

/// What the application is asked to do with the outside world.
#[derive(Debug)]
pub enum Effect {
    /// Start the task in the background.
    Spawn(Task),
    /// Stop the run with this index, in start order.
    Kill(usize),
}

/// The state of the interface.
///
/// `one_shot` is the task chosen to run in place of the interface, once
/// one is; `exit` ends the interface; `error` is the last error to show.
#[derive(Debug)]
pub struct AppState {
    pub screen: Screen,
    pub help: bool,
    pub exit: bool,
    pub one_shot: Option<Task>,
    pub editor: Option<CommandEditor>,
    pub error: Option<String>,
}

/// A dashboard as it is first opened.
pub open spec fn fresh_dashboard(d: Dashboard) -> bool {
    &&& d.tab == Tab::Launcher
    &&& d.launcher.query@.len() == 0
    &&& !d.launcher.searching
    &&& d.launcher.selected is None
    &&& d.history.selected is None
}

/// An editor as it is first opened on a task.
pub open spec fn fresh_editor(e: CommandEditor, t: TaskView, mode: LaunchMode) -> bool {
    &&& e.task@ == t
    &&& e.mode == mode
    &&& e.input@ == command_line_of(t)
    &&& e.cursor == e.input@.len()
    &&& e.error is None
}

/// What the screen's key handling does to the screen, handing back an
/// action.
pub open spec fn screen_step(
    old: Screen,
    new: Screen,
    key: Key,
    root: Seq<char>,
    tasks: Seq<Task>,
    runs: Seq<Task>,
    a: Option<Action>,
) -> bool {
    match old {
        Screen::OneShot(o) => new matches Screen::OneShot(n) && one_shot_step(o, n, key, root, tasks, a),
        Screen::Dashboard(o) => new matches Screen::Dashboard(n) && dashboard_step(
            o,
            n,
            key,
            root,
            tasks,
            runs,
            a,
        ),
    }
}

/// What an action does to the state: a task to run in the background
/// becomes an effect, as does a run to stop; a task chosen to run in place
/// of the interface ends it; a task to edit opens the editor.
pub open spec fn apply_action(s: AppState, a: Option<Action>, new: AppState, r: Option<Effect>) -> bool {
    match a {
        None => new == s && r is None,
        Some(Action::Run(t)) => new == s && r == Some(Effect::Spawn(t)),
        Some(Action::Kill(i)) => new == s && r == Some(Effect::Kill(i)),
        Some(Action::SelectOneShot(t)) => new == (AppState { one_shot: Some(t), exit: true, ..s })
            && r is None,
        Some(Action::Edit(t, m)) => r is None && (new.editor matches Some(e) && fresh_editor(
            e,
            t@,
            m,
        )) && new == (AppState { editor: new.editor, ..s }),
        Some(Action::Quit) => new == (AppState { exit: true, ..s }) && r is None,
        Some(Action::ToggleHelp) => new == (AppState { help: !s.help, ..s }) && r is None,
        Some(Action::OpenDashboard) => r is None && (new.screen matches Screen::Dashboard(d)
            && fresh_dashboard(d)) && new == (AppState { screen: new.screen, ..s }),
    }
}

/// A key handled by the screen, then its action applied.
pub open spec fn through_screen(
    old: AppState,
    mid: Screen,
    a: Option<Action>,
    new: AppState,
    key: Key,
    root: Seq<char>,
    tasks: Seq<Task>,
    runs: Seq<Task>,
    r: Option<Effect>,
) -> bool {
    screen_step(old.screen, mid, key, root, tasks, runs, a) && apply_action(
        AppState { screen: mid, ..old },
        a,
        new,
        r,
    )
}

/// On the dashboard's history, `x` stops the selected run: with the runs
/// listed newest first, the run at position `s` is the one started
/// `runs.len() - 1 - s`-th, and that index is what the stop effect names.
pub proof fn x_stops_the_selected_run(
    old: AppState,
    mid: Screen,
    a: Option<Action>,
    new: AppState,
    key: Key,
    root: Seq<char>,
    tasks: Seq<Task>,
    runs: Seq<Task>,
    r: Option<Effect>,
    s: usize,
)
    requires
        old.screen matches Screen::Dashboard(d) && d.tab == Tab::History && d.history.selected
            == Some(s),
        s < runs.len(),
        key.code == KeyCode::Char('x'),
        through_screen(old, mid, a, new, key, root, tasks, runs, r),
    ensures
        r == Some(Effect::Kill((runs.len() - 1 - s) as usize)),
        new == (AppState { screen: mid, ..old }),
{
}

/// On the dashboard's history, `r` starts the selected run's task again
/// in the background.
pub proof fn r_reruns_the_selected_run(
    old: AppState,
    mid: Screen,
    a: Option<Action>,
    new: AppState,
    key: Key,
    root: Seq<char>,
    tasks: Seq<Task>,
    runs: Seq<Task>,
    r: Option<Effect>,
    s: usize,
)
    requires
        old.screen matches Screen::Dashboard(d) && d.tab == Tab::History && d.history.selected
            == Some(s),
        s < runs.len(),
        runs.len() <= usize::MAX,
        key.code == KeyCode::Char('r'),
        through_screen(old, mid, a, new, key, root, tasks, runs, r),
    ensures
        r matches Some(Effect::Spawn(t)) && t@ == runs[runs.len() - 1 - s]@,
        new == (AppState { screen: mid, ..old }),
{
    if let Screen::Dashboard(d) = old.screen {
        let i = runs.len() - 1 - s;
        assert(run_at(d.history.selected, runs.len()) == Some(i as usize));
        if let Screen::Dashboard(n) = mid {
            assert(history_step(d.history, n.history, key, runs, a));
        }
    }
}

/// A key handled by the open editor (leaving it as `e` and reporting
/// `res`): cancelling closes the editor; launching closes it and either ends
/// the interface with the task chosen or starts the task in the background;
/// otherwise the editor stays open.
pub open spec fn through_editor(
    old: AppState,
    e: CommandEditor,
    res: EditorResult,
    new: AppState,
    key: Key,
    r: Option<Effect>,
) -> bool {
    &&& old.editor matches Some(before) && editor_step(before, e, key, res)
    &&& match res {
        EditorResult::Continue => new == (AppState { editor: Some(e), ..old }) && r is None,
        EditorResult::Cancel => new == (AppState { editor: None, ..old }) && r is None,
        EditorResult::Launch(t, LaunchMode::OneShot) => new == (AppState {
            editor: None,
            one_shot: Some(t),
            exit: true,
            ..old
        }) && r is None,
        EditorResult::Launch(t, LaunchMode::Dashboard) => new == (AppState { editor: None, ..old })
            && r == Some(Effect::Spawn(t)),
    }
}

/// Whether the screen takes every key, for a query being typed.
pub open spec fn screen_captures(s: Screen) -> bool {
    match s {
        Screen::OneShot(o) => o.picker.searching,
        Screen::Dashboard(d) => d.tab == Tab::Launcher && d.launcher.searching,
    }
}

impl AppState {
    /// The one-shot screen, with nothing chosen.
    pub fn new() -> (r: AppState)
        ensures
            r.screen matches Screen::OneShot(o) && o.picker.query@.len() == 0 && !o.picker.searching
                && o.picker.selected is None,
            !r.help,
            !r.exit,
            r.one_shot is None,
            r.editor is None,
            r.error is None,
    {
        AppState {
            screen: Screen::OneShot(OneShot::new()),
            help: false,
            exit: false,
            one_shot: None,
            editor: None,
            error: None,
        }
    }

    /// The open editor, if any, can take a key.
    pub open spec fn wf(&self) -> bool {
        self.editor matches Some(e) ==> e.wf() && e.input@.len() < usize::MAX
    }

    /// Whether the open editor, if any, can take a key.
    pub fn ready(&self) -> (r: bool)
        ensures
            r == self.wf(),
    {
        match &self.editor {
            Some(e) => e.cursor <= e.input.len() && e.input.len() < usize::MAX,
            None => true,
        }
    }

    /// Keeps an error message to show.
    pub fn record_error(&mut self, message: String)
        ensures
            *final(self) == (AppState { error: Some(message), ..*old(self) }),
    {
        self.error = Some(message);
    }

    /// Handles a key. The help overlay, while shown, takes every key and
    /// closes on `?` or Esc. The editor, while open, takes every key:
    /// cancelling closes it, and launching closes it and either ends the
    /// interface with the task chosen or starts the task in the background.
    /// A screen typing a query takes every key. Otherwise `q` ends the
    /// interface, `?` shows help, Ctrl-D opens the dashboard from the
    /// one-shot screen, and other keys go to the screen.
    pub fn handle_key(&mut self, key: Key, root: &str, tasks: &[Task], runs: &[Task]) -> (r: Option<
        Effect,
    >)
        requires
            old(self).wf(),
        ensures
            old(self).help ==> r is None && *final(self) == (AppState {
                help: !(key.code == KeyCode::Char('?') || key.code == KeyCode::Esc),
                ..*old(self)
            }),
            !old(self).help && old(self).editor is Some ==> exists|e: CommandEditor, res: EditorResult|
                #[trigger] through_editor(*old(self), e, res, *final(self), key, r),
            !old(self).help && old(self).editor is None && !screen_captures(old(self).screen)
                && key.code == KeyCode::Char('q') ==> r is None && *final(self) == (AppState {
                exit: true,
                ..*old(self)
            }),
            !old(self).help && old(self).editor is None && !screen_captures(old(self).screen)
                && key.code == KeyCode::Char('?') ==> r is None && *final(self) == (AppState {
                help: true,
                ..*old(self)
            }),
            !old(self).help && old(self).editor is None && !screen_captures(old(self).screen)
                && key.code == KeyCode::Char('d') && key.ctrl && old(self).screen is OneShot ==> r
                is None && (final(self).screen matches Screen::Dashboard(d) && fresh_dashboard(d))
                && *final(self) == (AppState { screen: final(self).screen, ..*old(self) }),
            !old(self).help && old(self).editor is None && (screen_captures(old(self).screen) || !(
            key.code == KeyCode::Char('q') || key.code == KeyCode::Char('?') || (key.code
                == KeyCode::Char('d') && key.ctrl && old(self).screen is OneShot))) ==> exists|
                mid: Screen,
                a: Option<Action>,
            |
                #[trigger] through_screen(
                    *old(self),
                    mid,
                    a,
                    *final(self),
                    key,
                    root@,
                    tasks@,
                    runs@,
                    r,
                ),
    {
        if self.help {
            if key.code == KeyCode::Char('?') || key.code == KeyCode::Esc {
                self.help = false;
            }
            return None;
        }
        if self.editor.is_some() {
            let ghost start = *self;
            let mut editor = self.editor.take().unwrap();
            let result = editor.handle_key(key);
            let ghost e = editor;
            let ghost res = result;
            match result {
                EditorResult::Continue => {
                    self.editor = Some(editor);
                    assert(through_editor(start, e, res, *self, key, None));
                    return None;
                },
                EditorResult::Cancel => {
                    assert(through_editor(start, e, res, *self, key, None));
                    return None;
                },
                EditorResult::Launch(task, LaunchMode::OneShot) => {
                    self.one_shot = Some(task);
                    self.exit = true;
                    assert(through_editor(start, e, res, *self, key, None));
                    return None;
                },
                EditorResult::Launch(task, LaunchMode::Dashboard) => {
                    let r = Some(Effect::Spawn(task));
                    assert(through_editor(start, e, res, *self, key, r));
                    return r;
                },
            }
        }
        let captured = match &self.screen {
            Screen::OneShot(s) => s.captures_input(),
            Screen::Dashboard(d) => d.captures_input(),
        };
        if !captured {
            if key.code == KeyCode::Char('q') {
                self.exit = true;
                return None;
            }
            if key.code == KeyCode::Char('?') {
                self.help = true;
                return None;
            }
            let on_one_shot = match &self.screen {
                Screen::OneShot(_) => true,
                Screen::Dashboard(_) => false,
            };
            if key.code == KeyCode::Char('d') && key.ctrl && on_one_shot {
                self.screen = Screen::Dashboard(Dashboard::new());
                return None;
            }
        }
        let ghost before = *self;
        let action = match &mut self.screen {
            Screen::OneShot(s) => s.handle_key(key, root, tasks),
            Screen::Dashboard(d) => d.handle_key(key, root, tasks, runs),
        };
        let ghost mid = self.screen;
        let ghost a = action;
        let ghost after_screen = *self;
        assert(after_screen == (AppState { screen: mid, ..before }));
        let r = self.apply(action);
        assert(through_screen(before, mid, a, *self, key, root@, tasks@, runs@, r));
        r
    }

    fn apply(&mut self, action: Option<Action>) -> (r: Option<Effect>)
        ensures
            apply_action(*old(self), action, *final(self), r),
    {
        match action {
            None => None,
            Some(Action::Run(t)) => Some(Effect::Spawn(t)),
            Some(Action::Kill(i)) => Some(Effect::Kill(i)),
            Some(Action::SelectOneShot(t)) => {
                self.one_shot = Some(t);
                self.exit = true;
                None
            },
            Some(Action::Edit(t, m)) => {
                self.editor = Some(CommandEditor::new(t, m));
                None
            },
            Some(Action::Quit) => {
                self.exit = true;
                None
            },
            Some(Action::ToggleHelp) => {
                self.help = !self.help;
                None
            },
            Some(Action::OpenDashboard) => {
                self.screen = Screen::Dashboard(Dashboard::new());
                None
            },
        }
    }
}

} // verus!

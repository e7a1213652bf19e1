use yobiko::model::Task;
use yobiko::runner::RunStatus;
use yobiko::tui::action::Action;
use yobiko::tui::editor::LaunchMode;
use yobiko::tui::history::History;
use yobiko::tui::keys::{Key, KeyCode};
use yobiko::tui::screens::{Dashboard, OneShot, Tab};
use yobiko::tui::state::{AppState, Effect, Screen};

fn task(name: &str, cwd: &str, command: &str, args: &[&str]) -> Task {
    Task {
        name: name.into(),
        cwd: cwd.into(),
        command: command.into(),
        args: args.iter().map(|arg| (*arg).into()).collect(),
        content: None,
    }
}

fn key(code: KeyCode) -> Key {
    Key::plain(code)
}

fn tasks() -> Vec<Task> {
    vec![
        task("test", "/p/a", "cargo", &["test"]),
        task("lint", "/p/b", "npm", &["run", "lint"]),
    ]
}

#[test]
fn q_exits_and_help_takes_every_key() {
    let tasks = tasks();
    let mut state = AppState::new();
    assert!(state.handle_key(key(KeyCode::Char('?')), "/p", &tasks, &[]).is_none());
    assert!(state.help);
    state.handle_key(key(KeyCode::Char('q')), "/p", &tasks, &[]);
    assert!(state.help && !state.exit);
    state.handle_key(key(KeyCode::Esc), "/p", &tasks, &[]);
    assert!(!state.help);
    state.handle_key(key(KeyCode::Char('q')), "/p", &tasks, &[]);
    assert!(state.exit);
    assert!(state.one_shot.is_none());
}

#[test]
fn enter_chooses_the_selected_task_to_run_in_place() {
    let tasks = tasks();
    let mut state = AppState::new();
    state.handle_key(key(KeyCode::Down), "/p", &tasks, &[]);
    state.handle_key(key(KeyCode::Enter), "/p", &tasks, &[]);
    assert!(state.exit);
    assert_eq!(state.one_shot, Some(tasks[1].clone()));
}

#[test]
fn typing_a_query_captures_q() {
    let tasks = tasks();
    let mut state = AppState::new();
    state.handle_key(key(KeyCode::Char('/')), "/p", &tasks, &[]);
    state.handle_key(key(KeyCode::Char('q')), "/p", &tasks, &[]);
    assert!(!state.exit);
    match &state.screen {
        Screen::OneShot(screen) => assert_eq!(screen.picker.query_text(), "q"),
        Screen::Dashboard(_) => panic!("expected the one-shot screen"),
    }
}

#[test]
fn edited_commands_run_through_sh() {
    let tasks = tasks();
    let mut state = AppState::new();
    state.handle_key(key(KeyCode::Char('e')), "/p", &tasks, &[]);
    assert!(state.editor.is_some());
    for c in " -q".chars() {
        state.handle_key(key(KeyCode::Char(c)), "/p", &tasks, &[]);
    }
    state.handle_key(key(KeyCode::Enter), "/p", &tasks, &[]);
    let chosen = state.one_shot.clone().unwrap();
    assert_eq!(chosen.command_line(), "sh -c 'cargo test -q'");
    assert!(state.editor.is_none() && state.exit);
}

#[test]
fn dashboard_runs_in_the_background_and_kills_from_history() {
    let tasks = tasks();
    let mut state = AppState::new();
    state.handle_key(Key::ctrl(KeyCode::Char('d')), "/p", &tasks, &[]);
    assert!(matches!(state.screen, Screen::Dashboard(_)));
    match state.handle_key(key(KeyCode::Enter), "/p", &tasks, &[]) {
        Some(Effect::Spawn(task)) => assert_eq!(task, tasks[0]),
        _ => panic!("expected a task to start"),
    }
    let runs = vec![tasks[0].clone(), tasks[1].clone()];
    state.handle_key(key(KeyCode::Char('H')), "/p", &tasks, &runs);
    state.handle_key(key(KeyCode::Down), "/p", &tasks, &runs);
    match state.handle_key(key(KeyCode::Char('x')), "/p", &tasks, &runs) {
        Some(Effect::Kill(index)) => assert_eq!(index, 0),
        _ => panic!("expected a run to stop"),
    }
    match state.handle_key(key(KeyCode::Char('r')), "/p", &tasks, &runs) {
        Some(Effect::Spawn(task)) => assert_eq!(task, tasks[0]),
        _ => panic!("expected a rerun"),
    }
}

#[test]
fn history_lists_runs_newest_first() {
    let runs = tasks();
    let mut history = History::new();
    assert_eq!(history.selected_index(2), None);
    history.handle_key(key(KeyCode::Char('k')), &runs);
    assert_eq!(history.selected_index(2), Some(1));
    history.handle_key(key(KeyCode::Char('j')), &runs);
    history.handle_key(key(KeyCode::Char('j')), &runs);
    assert_eq!(history.selected, Some(1));
    assert_eq!(history.selected_index(2), Some(0));
    assert!(matches!(history.handle_key(key(KeyCode::Char('r')), &runs), Some(Action::Run(t)) if t == runs[0]));
    history.normalize_selection(0);
    assert_eq!(history.selected, None);
}

#[test]
fn dashboard_tabs_switch_on_capitals() {
    let tasks = tasks();
    let mut dashboard = Dashboard::new();
    assert_eq!(dashboard.tab_index(), 0);
    assert!(dashboard.handle_key(key(KeyCode::Char('P')), "/p", &tasks, &[]).is_none());
    assert_eq!(dashboard.tab, Tab::Projects);
    assert!(dashboard.handle_key(key(KeyCode::Enter), "/p", &tasks, &[]).is_none());
    dashboard.handle_key(key(KeyCode::Char('H')), "/p", &tasks, &[]);
    assert_eq!(dashboard.tab_index(), 2);
    dashboard.handle_key(key(KeyCode::Char('L')), "/p", &tasks, &[]);
    dashboard.handle_key(key(KeyCode::Char('/')), "/p", &tasks, &[]);
    assert!(dashboard.captures_input());
}

#[test]
fn one_shot_opens_the_editor_on_e() {
    let tasks = tasks();
    let mut screen = OneShot::new();
    match screen.handle_key(key(KeyCode::Char('e')), "/p", &tasks) {
        Some(Action::Edit(task, LaunchMode::OneShot)) => assert_eq!(task, tasks[0]),
        _ => panic!("expected the editor"),
    }
    assert!(!screen.captures_input());
}

#[test]
fn run_status_follows_the_exit() {
    assert_eq!(RunStatus::exited(true), RunStatus::Succeeded);
    assert_eq!(RunStatus::exited(false), RunStatus::Failed);
}

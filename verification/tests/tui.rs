use yobiko::model::Task;
use yobiko::paths::relative_dir;
use yobiko::tui::editor::{CommandEditor, EditorResult, LaunchMode};
use yobiko::tui::keys::{Key, KeyCode};
use yobiko::tui::picker::{filtered_tasks, fuzzy_matches, TaskPicker};
use yobiko::tui::status::dots_frame;

const DOTS_INTERVAL_MS: u128 = 80;
const DOTS_FRAMES: [&str; 10] = ["⠋", "⠙", "⠹", "⠸", "⠼", "⠴", "⠦", "⠧", "⠇", "⠏"];

fn picker_task(cwd: &str, command: &str, args: &[&str]) -> Task {
    Task {
        name: "not displayed".into(),
        cwd: cwd.into(),
        command: command.into(),
        args: args.iter().map(|arg| (*arg).into()).collect(),
        content: None,
    }
}

fn editor() -> CommandEditor {
    CommandEditor::new(
        Task {
            name: "test".into(),
            cwd: String::new(),
            command: "yarn".into(),
            args: vec!["run".into(), "test".into()],
            content: None,
        },
        LaunchMode::OneShot,
    )
}

fn key(code: KeyCode) -> Key {
    Key::plain(code)
}

#[test]
fn dots_spinner_uses_cli_spinners_frames_and_interval() {
    for (index, frame) in DOTS_FRAMES.iter().enumerate() {
        assert_eq!(dots_frame(DOTS_INTERVAL_MS * index as u128), *frame);
    }
    assert_eq!(
        dots_frame(DOTS_INTERVAL_MS * DOTS_FRAMES.len() as u128),
        DOTS_FRAMES[0]
    );
}

#[test]
fn dots_spinner_holds_each_frame_for_the_interval() {
    assert_eq!(dots_frame(79), DOTS_FRAMES[0]);
    assert_eq!(dots_frame(80), DOTS_FRAMES[1]);
    assert_eq!(dots_frame(80 * 23 + 5), DOTS_FRAMES[3]);
}

#[test]
fn displayed_directory_is_relative_to_scan_root() {
    let root = "/projects/example";
    assert_eq!(relative_dir(root, "/projects/example"), ".");
    assert_eq!(relative_dir(root, "/projects/example/crates/app"), "crates/app");
}

#[test]
fn directories_outside_the_root_are_shown_whole() {
    assert_eq!(relative_dir("/projects/example", "/projects/examples/app"), "/projects/examples/app");
    assert_eq!(relative_dir("/projects/example", "/other"), "/other");
    assert_eq!(relative_dir("/projects/example/", "/projects//example/./crates/"), "crates");
    assert_eq!(relative_dir("", "/a/b"), "/a/b");
    assert_eq!(relative_dir("", "a/b/"), "a/b");
    assert_eq!(relative_dir("", "/a/./"), "/a");
    assert_eq!(relative_dir("", "./"), ".");
    assert_eq!(relative_dir("", "/"), "/");
    assert_eq!(relative_dir("", ""), ".");
    assert_eq!(relative_dir("/p", "/p/a//b/"), "a//b");
    assert_eq!(relative_dir("/", "/a"), "a");
    assert_eq!(relative_dir("./x", "./x/y"), "y");
}

#[test]
fn fuzzy_matches_displayed_directory_and_command_line() {
    let root = "/projects";
    let tasks = [
        picker_task("/projects/crates/app", "cargo", &["test"]),
        picker_task("/projects/web", "npm", &["run", "lint"]),
    ];

    assert_eq!(filtered_tasks(root, &tasks, "CRAPP TST"), vec![&tasks[0]]);
    assert_eq!(filtered_tasks(root, &tasks, "npm lint"), vec![&tasks[1]]);
}

#[test]
fn an_empty_query_lists_every_task_in_order() {
    let root = "/projects";
    let tasks = [
        picker_task("/projects/web", "npm", &["run", "lint"]),
        picker_task("/projects/crates/app", "cargo", &["test"]),
    ];

    assert_eq!(filtered_tasks(root, &tasks, ""), vec![&tasks[0], &tasks[1]]);
}

#[test]
fn does_not_match_text_that_is_not_displayed() {
    let root = "/projects";
    let tasks = [picker_task("/projects/app", "cargo", &["test"])];

    assert!(filtered_tasks(root, &tasks, "not displayed").is_empty());
    assert!(filtered_tasks(root, &tasks, "projects").is_empty());
}

#[test]
fn fuzzy_matching_ignores_ascii_case_and_needs_order() {
    assert!(fuzzy_matches("anything", ""));
    assert!(fuzzy_matches("Cargo Test", "ct"));
    assert!(!fuzzy_matches("Cargo Test", "tc"));
    assert!(!fuzzy_matches("", "a"));
    assert!(!fuzzy_matches("ÄB", "äb"));
}

#[test]
fn appends_text_and_launches_through_sh() {
    let mut editor = editor();
    for character in " --runInBand".chars() {
        assert!(matches!(
            editor.handle_key(key(KeyCode::Char(character))),
            EditorResult::Continue
        ));
    }
    let EditorResult::Launch(task, LaunchMode::OneShot) = editor.handle_key(key(KeyCode::Enter))
    else {
        panic!("expected one-shot launch");
    };
    assert_eq!(task.command, "sh");
    assert_eq!(task.args, ["-c", "yarn run test --runInBand"]);
    assert_eq!(task.name, "test");
}

#[test]
fn rejects_an_empty_command() {
    let mut editor = editor();
    editor.input.clear();
    editor.cursor = 0;
    assert!(matches!(
        editor.handle_key(key(KeyCode::Enter)),
        EditorResult::Continue
    ));
    assert_eq!(editor.error, Some("Command cannot be empty"));
}

#[test]
fn editor_moves_and_deletes_around_the_cursor() {
    let mut editor = editor();
    assert_eq!(editor.input.iter().collect::<String>(), "yarn run test");
    editor.handle_key(key(KeyCode::Home));
    editor.handle_key(key(KeyCode::Delete));
    assert_eq!(editor.input.iter().collect::<String>(), "arn run test");
    editor.handle_key(key(KeyCode::Char('b')));
    editor.handle_key(key(KeyCode::Right));
    editor.handle_key(key(KeyCode::Backspace));
    assert_eq!(editor.input.iter().collect::<String>(), "brn run test");
    assert_eq!(editor.cursor, 1);
    editor.handle_key(Key::ctrl(KeyCode::Char('u')));
    assert!(editor.input.is_empty());
    assert!(matches!(editor.handle_key(key(KeyCode::Esc)), EditorResult::Cancel));
    let (before, under, after) = {
        let mut editor = self::editor();
        editor.cursor = 4;
        editor.split_at_cursor()
    };
    assert_eq!((before.as_str(), under, after.as_str()), ("yarn", ' ', "run test"));
}

#[test]
fn typing_then_backspace_restores_the_text() {
    let mut editor = editor();
    editor.handle_key(key(KeyCode::Left));
    let input = editor.input.clone();
    let cursor = editor.cursor;
    editor.handle_key(key(KeyCode::Char('x')));
    editor.handle_key(key(KeyCode::Backspace));
    assert_eq!(editor.input, input);
    assert_eq!(editor.cursor, cursor);
}

#[test]
fn picker_filters_and_moves_the_selection() {
    let root = "/projects";
    let tasks = [
        picker_task("/projects/a", "cargo", &["test"]),
        picker_task("/projects/b", "npm", &["test"]),
        picker_task("/projects/c", "go", &["vet"]),
    ];
    let mut picker = TaskPicker::new();
    assert_eq!(picker.handle_key(key(KeyCode::Down), root, &tasks), None);
    assert_eq!(picker.handle_key(key(KeyCode::Down), root, &tasks), None);
    assert_eq!(picker.handle_key(key(KeyCode::Down), root, &tasks), None);
    assert_eq!(picker.selected, Some(2));
    assert_eq!(picker.handle_key(key(KeyCode::Char('k')), root, &tasks), None);
    assert_eq!(picker.handle_key(key(KeyCode::Enter), root, &tasks), Some(tasks[1].clone()));
    picker.handle_key(key(KeyCode::Char('/')), root, &tasks);
    assert!(picker.is_searching());
    for c in "tst".chars() {
        picker.handle_key(key(KeyCode::Char(c)), root, &tasks);
    }
    assert_eq!(picker.query_text(), "tst");
    assert_eq!(picker.selected, Some(0));
    picker.handle_key(key(KeyCode::Enter), root, &tasks);
    assert!(!picker.is_searching());
    assert_eq!(picker.handle_key(key(KeyCode::Down), root, &tasks), None);
    assert_eq!(picker.handle_key(key(KeyCode::Down), root, &tasks), None);
    assert_eq!(picker.selected, Some(1));
    assert_eq!(picker.handle_key(key(KeyCode::Enter), root, &tasks), Some(tasks[1].clone()));
    picker.normalize_selection(0);
    assert_eq!(picker.selected, None);
}

#[test]
fn a_match_survives_a_shorter_query_and_a_longer_text() {
    assert!(fuzzy_matches("cargo test", "cgtst"));
    assert!(fuzzy_matches("cargo test", "cgt"));
    assert!(fuzzy_matches("(app) cargo test --all", "cgtst"));
    assert!(!fuzzy_matches("cargo", "cgtst"));
}

#[test]
fn keys_keep_the_task_and_mode_of_the_editor() {
    let mut editor = editor();
    for code in [KeyCode::Left, KeyCode::Home, KeyCode::Delete, KeyCode::Char('x'), KeyCode::End, KeyCode::Backspace] {
        editor.handle_key(key(code));
        assert_eq!(editor.task.name, "test");
        assert_eq!(editor.mode, LaunchMode::OneShot);
        assert!(editor.cursor <= editor.input.len());
        assert!(editor.error.is_none());
    }
}

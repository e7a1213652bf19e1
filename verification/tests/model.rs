use yobiko::model::{shell_quote, sort_by_name, Task};

fn task(command: &str, args: &[&str]) -> Task {
    Task {
        name: "example".into(),
        cwd: String::new(),
        command: command.into(),
        args: args.iter().map(|arg| (*arg).into()).collect(),
        content: None,
    }
}

#[test]
fn command_line_quotes_shell_metacharacters() {
    assert_eq!(
        task("yarn", &["run", "test: unit", "it's-safe"]).command_line(),
        "yarn run 'test: unit' 'it'\\''s-safe'"
    );
}

#[test]
fn shell_command_is_displayed_as_it_is_executed() {
    assert_eq!(
        task("yarn", &["run", "test"])
            .with_shell_command("yarn run test --runInBand".into())
            .command_line(),
        "sh -c 'yarn run test --runInBand'"
    );
}

#[test]
fn empty_words_are_quoted() {
    assert_eq!(shell_quote(""), "''");
    assert_eq!(task("echo", &[""]).command_line(), "echo ''");
}

#[test]
fn safe_words_are_left_as_they_are() {
    assert_eq!(shell_quote("a-Z_0@%+=:,./"), "a-Z_0@%+=:,./");
    assert_eq!(shell_quote("naïve"), "'naïve'");
    assert_eq!(shell_quote("$HOME"), "'$HOME'");
}

#[test]
fn with_shell_command_keeps_name_directory_and_content() {
    let mut original = task("npm", &["run", "build"]);
    original.cwd = "/work".into();
    original.content = Some("vite build".into());
    let shell = original.clone().with_shell_command("npm run build -- --watch".into());
    assert_eq!(shell.name, original.name);
    assert_eq!(shell.cwd, original.cwd);
    assert_eq!(shell.content, original.content);
    assert_eq!(shell.command, "sh");
    assert_eq!(shell.args, ["-c", "npm run build -- --watch"]);
}

#[test]
fn clone_keeps_every_field() {
    let mut original = task("go", &["test", "./..."]);
    original.content = Some("x".into());
    assert_eq!(original.clone(), original);
}

#[test]
fn sorting_by_name_keeps_the_order_of_equal_names() {
    let named = |name: &str, command: &str| Task { name: name.into(), ..task(command, &[]) };
    let sorted = sort_by_name(vec![
        named("test", "first"),
        named("build", "b"),
        named("test", "second"),
        named("check", "c"),
        named("test", "third"),
    ]);
    let order: Vec<(&str, &str)> =
        sorted.iter().map(|t| (t.name.as_str(), t.command.as_str())).collect();
    assert_eq!(
        order,
        [("build", "b"), ("check", "c"), ("test", "first"), ("test", "second"), ("test", "third")]
    );
}

use yobiko::config::ConfigValue;
use yobiko::files::{join_path, FileState, Marker, Snapshot};
use yobiko::model::{Provider, Task};
use yobiko::providers::{cargo, discover, docker_compose, go, mise, npm, uv, yobiko as native};
use yobiko::scan::{always_ignored, scan, tasks_of, walk_depth};

fn file(text: &str) -> FileState {
    FileState::Present { is_file: true, read: Ok(text.into()) }
}

fn snapshot(dir: &str, files: Vec<(Marker, FileState)>) -> Snapshot {
    Snapshot { dir: dir.into(), files }
}

fn command_lines(tasks: &[Task]) -> Vec<String> {
    tasks.iter().map(Task::command_line).collect()
}

#[test]
fn exposes_standard_cargo_commands() {
    let dir = snapshot(
        "/work/example",
        vec![(Marker::CargoToml, file("[package]\nname = \"example\"\nversion = \"0.1.0\"\n"))],
    );
    let workspace = cargo::workspace(&dir).unwrap();
    assert_eq!(workspace.provider.name(), "cargo");
    assert_eq!(
        command_lines(&workspace.tasks),
        ["cargo check", "cargo test", "cargo build", "cargo fmt", "cargo clippy"]
    );
    assert!(workspace.tasks.iter().all(|task| task.cwd == "/work/example"));
}

#[test]
fn ignores_invalid_manifests() {
    let dir = snapshot("/work/example", vec![(Marker::CargoToml, file("not toml"))]);
    assert!(cargo::workspace(&dir).is_none());
}

#[test]
fn recognizes_compose_filenames() {
    for marker in [
        Marker::ComposeYaml,
        Marker::ComposeYml,
        Marker::DockerComposeYaml,
        Marker::DockerComposeYml,
    ] {
        let dir = snapshot("/work/app", vec![(marker, file("services: {}\n"))]);
        let workspace = docker_compose::workspace(&dir).unwrap();
        assert_eq!(workspace.provider.name(), "docker-compose");
    }
}

#[test]
fn exposes_standard_compose_commands() {
    let dir = snapshot("/work/app", vec![(Marker::ComposeYaml, file("services: {}\n"))]);
    let workspace = docker_compose::workspace(&dir).unwrap();
    assert_eq!(
        command_lines(&workspace.tasks),
        [
            "docker compose up",
            "docker compose up --wait",
            "docker compose down",
            "docker compose build",
            "docker compose pull",
            "docker compose ps",
            "docker compose logs",
        ]
    );
}

#[test]
fn ignores_directories_without_a_compose_file() {
    let dir = snapshot("/work/app", vec![]);
    assert!(docker_compose::workspace(&dir).is_none());
    let directory_only = snapshot(
        "/work/app",
        vec![(Marker::ComposeYaml, FileState::Present { is_file: false, read: Err("Is a directory (os error 21)".into()) })],
    );
    assert!(docker_compose::workspace(&directory_only).is_none());
}

#[test]
fn creates_one_workspace_when_multiple_compose_files_exist() {
    let dir = snapshot(
        "/work/app",
        vec![
            (Marker::ComposeYaml, file("services: {}\n")),
            (Marker::DockerComposeYml, file("services: {}\n")),
        ],
    );
    assert_eq!(docker_compose::workspace(&dir).unwrap().tasks.len(), 7);
    assert_eq!(discover(&dir).0.len(), 1);
}

#[test]
fn exposes_standard_go_commands() {
    let dir = snapshot("/work/go", vec![(Marker::GoMod, file("module example.com/project\n\ngo 1.24\n"))]);
    let workspace = go::workspace(&dir).unwrap();
    assert_eq!(workspace.provider.name(), "go");
    assert_eq!(
        command_lines(&workspace.tasks),
        ["go test ./...", "go build ./...", "go fmt ./...", "go vet ./..."]
    );
}

#[test]
fn ignores_invalid_go_mod_files() {
    let dir = snapshot("/work/go", vec![(Marker::GoMod, file("go 1.24\n"))]);
    assert!(go::workspace(&dir).is_none());
}

#[test]
fn module_lines_may_be_indented() {
    assert!(go::declares_module_exec("go 1.24\n\t  module x\n"));
    assert!(go::declares_module_exec("\r\nmodule x\r\n"));
    assert!(!go::declares_module_exec("// module x\n"));
    assert!(!go::declares_module_exec("modules x\nmodule\n"));
}

#[test]
fn discovers_compose_alongside_other_providers() {
    let dir = snapshot(
        "/work/mixed",
        vec![
            (Marker::ComposeYaml, file("services: {}\n")),
            (Marker::PackageJson, file(r#"{"scripts":{"test":"ok"}}"#)),
        ],
    );
    let providers = discover(&dir).0.into_iter().map(|workspace| workspace.provider.name()).collect::<Vec<_>>();
    assert_eq!(providers, ["docker-compose", "npm"]);
}

#[test]
fn requires_an_uv_marker() {
    let manifest = "[project]\nname = \"example\"\nversion = \"0.1.0\"\n";
    let dir = snapshot("/work/py", vec![(Marker::PyprojectToml, file(manifest))]);
    assert!(uv::workspace(&dir).is_none());

    let dir = snapshot(
        "/work/py",
        vec![(Marker::PyprojectToml, file(manifest)), (Marker::UvLock, file(""))],
    );
    let workspace = uv::workspace(&dir).unwrap();
    assert_eq!(workspace.tasks.len(), 1);
    assert_eq!(workspace.tasks[0].name, "sync");
    assert_eq!(workspace.tasks[0].command_line(), "uv sync");
}

#[test]
fn tool_uv_table_is_an_uv_marker() {
    let dir = snapshot("/work/py", vec![(Marker::PyprojectToml, file("[tool.uv]\npackage = false\n"))]);
    assert!(uv::workspace(&dir).is_some());
}

#[test]
fn npm_uses_the_package_manager_of_the_lock_file() {
    let package = r#"{"scripts":{"test":"jest","build":"vite build","odd":1}}"#;
    let npm_dir = snapshot("/work/web", vec![(Marker::PackageJson, file(package))]);
    let workspace = npm::workspace(&npm_dir).unwrap();
    assert_eq!(command_lines(&workspace.tasks), ["npm run build", "npm run odd", "npm run test"]);
    assert_eq!(workspace.tasks[0].content.as_deref(), Some("vite build"));
    assert_eq!(workspace.tasks[1].content, None);

    let yarn_dir = snapshot(
        "/work/web",
        vec![(Marker::PackageJson, file(package)), (Marker::YarnLock, file(""))],
    );
    assert_eq!(npm::workspace(&yarn_dir).unwrap().tasks[0].command, "yarn");
    let pnpm_dir = snapshot(
        "/work/web",
        vec![
            (Marker::PackageJson, file(package)),
            (Marker::YarnLock, file("")),
            (Marker::PnpmLock, file("")),
        ],
    );
    assert_eq!(npm::workspace(&pnpm_dir).unwrap().tasks[0].command, "pnpm");
    let no_scripts = snapshot("/work/web", vec![(Marker::PackageJson, file(r#"{"name":"x"}"#))]);
    assert!(npm::workspace(&no_scripts).is_none());
    let invalid = snapshot("/work/web", vec![(Marker::PackageJson, file("{"))]);
    assert!(npm::workspace(&invalid).is_none());
}

#[test]
fn mise_shows_what_each_task_runs() {
    let config = "[tasks]\nlint = \"cargo clippy\"\nsteps = [\"a\", 1, \"b\"]\n\
                  [tasks.build]\nrun = \"cargo build\"\ndescription = \"Build it\"\n\
                  [tasks.docs]\ndescription = \"Write docs\"\n\
                  [tasks.none]\nalias = \"n\"\n";
    let dir = snapshot("/work/m", vec![(Marker::MiseToml, file(config))]);
    let workspace = mise::workspace(&dir).unwrap();
    let shown = workspace
        .tasks
        .iter()
        .map(|task| (task.name.as_str(), task.command_line(), task.content.clone()))
        .collect::<Vec<_>>();
    assert_eq!(
        shown,
        [
            ("build", "mise run build".to_string(), Some("cargo build".to_string())),
            ("docs", "mise run docs".to_string(), Some("Write docs".to_string())),
            ("lint", "mise run lint".to_string(), Some("cargo clippy".to_string())),
            ("none", "mise run none".to_string(), None),
            ("steps", "mise run steps".to_string(), Some("a\nb".to_string())),
        ]
    );
    let no_tasks = snapshot("/work/m", vec![(Marker::MiseToml, file("[env]\nA = \"1\"\n"))]);
    assert!(mise::workspace(&no_tasks).is_none());
}

#[test]
fn loads_shell_tasks_alphabetically() {
    let dir = snapshot(
        "/work/native",
        vec![(
            Marker::YobikoToml,
            file("[tasks.zed]\nrun = \"printf z\"\n[tasks.alpha]\nrun = \"cargo test && cargo fmt\"\n"),
        )],
    );
    let workspace = native::workspace(&dir).unwrap().unwrap();
    assert_eq!(workspace.provider.name(), "yobiko");
    assert_eq!(workspace.tasks[0].name, "alpha");
    assert_eq!(workspace.tasks[0].command, "sh");
    assert_eq!(workspace.tasks[0].args, ["-c", "cargo test && cargo fmt"]);
    assert_eq!(workspace.tasks[1].name, "zed");
}

#[test]
fn accepts_empty_manifests_without_a_workspace() {
    let dir = snapshot("/work/native", vec![(Marker::YobikoToml, file(""))]);
    assert!(native::workspace(&dir).unwrap().is_none());
    let dir = snapshot("/work/native", vec![(Marker::YobikoToml, file("[tasks]\n"))]);
    assert!(native::workspace(&dir).unwrap().is_none());
    let dir = snapshot("/work/native", vec![]);
    assert!(native::workspace(&dir).unwrap().is_none());
}

#[test]
fn rejects_the_entire_manifest_for_invalid_tasks() {
    let dir = snapshot(
        "/work/native",
        vec![(
            Marker::YobikoToml,
            file("[tasks.valid]\nrun = \"true\"\n[tasks.invalid]\nruns = \"false\"\n"),
        )],
    );
    let error = native::workspace(&dir).unwrap_err();
    assert!(error.message.contains("unknown key `runs`"));
    assert_eq!(error.message, "unknown key `runs` in task `invalid`");
    assert_eq!(error.path, "/work/native/yobiko.toml");
}

#[test]
fn rejects_empty_commands_and_unknown_top_level_keys() {
    let dir = snapshot("/work/native", vec![(Marker::YobikoToml, file("[tasks.test]\nrun = \"  \"\n"))]);
    assert!(native::workspace(&dir).unwrap_err().message.contains("empty `run`"));

    let dir = snapshot("/work/native", vec![(Marker::YobikoToml, file("version = 1\n"))]);
    assert!(native::workspace(&dir)
        .unwrap_err()
        .message
        .contains("unknown top-level key `version`"));
}

#[test]
fn reports_each_kind_of_invalid_task() {
    let message = |manifest: &str| {
        let dir = snapshot("/w", vec![(Marker::YobikoToml, file(manifest))]);
        native::workspace(&dir).unwrap_err().message
    };
    assert_eq!(message("tasks = 1\n"), "`tasks` must be a table");
    assert_eq!(message("[tasks]\nx = \"echo\"\n"), "task `x` must be defined as a table");
    assert_eq!(message("[tasks.x]\nrun = 1\n"), "task `x` requires a string `run` value");
    assert_eq!(message("[tasks.x]\n"), "task `x` requires a string `run` value");
    assert_eq!(message("[tasks.x]\nrun = \"\u{3000}\\t\"\n"), "task `x` has an empty `run` value");
    let unreadable = snapshot(
        "/w/",
        vec![(Marker::YobikoToml, FileState::Present { is_file: true, read: Err("denied".into()) })],
    );
    let error = native::workspace(&unreadable).unwrap_err();
    assert_eq!((error.path.as_str(), error.message.as_str()), ("/w/yobiko.toml", "denied"));
    let not_toml = snapshot("/w", vec![(Marker::YobikoToml, file("not toml"))]);
    assert!(!native::workspace(&not_toml).unwrap_err().message.is_empty());
}

#[test]
fn puts_native_workspaces_before_discovered_providers() {
    let root = snapshot("/work", vec![(Marker::CargoToml, file("[workspace]\n"))]);
    let nested = snapshot("/work/nested", vec![(Marker::YobikoToml, file("[tasks.test]\nrun = \"true\"\n"))]);
    let found = scan(vec![root, nested]);
    assert_eq!(found.workspaces.len(), 2);
    assert_eq!(found.workspaces[0].provider, Provider::Yobiko);
    assert_eq!(found.workspaces[1].provider, Provider::Cargo);
    let tasks = tasks_of(&found.workspaces);
    assert_eq!(tasks.len(), 6);
    assert_eq!(tasks[0].command_line(), "sh -c true");
    assert_eq!(tasks[1].command_line(), "cargo check");
}

#[test]
fn collects_all_native_manifest_diagnostics() {
    let root = snapshot("/work", vec![(Marker::YobikoToml, file("not toml"))]);
    let nested = snapshot("/work/nested", vec![(Marker::YobikoToml, file("also not toml"))]);
    let found = scan(vec![root, nested]);
    assert!(found.workspaces.is_empty());
    assert_eq!(found.diagnostics.len(), 2);
    assert_eq!(found.diagnostics[1].path, "/work/nested/yobiko.toml");
}

#[test]
fn scan_helpers() {
    assert!(always_ignored(Some(".git")));
    assert!(always_ignored(Some("node_modules")));
    assert!(!always_ignored(Some("src")));
    assert!(!always_ignored(None));
    assert_eq!(walk_depth(3), 2);
    assert_eq!(walk_depth(0), 0);
    assert_eq!(join_path("", "a"), "a");
    assert_eq!(join_path("/", "a"), "/a");
    assert_eq!(join_path("/x", "a"), "/x/a");
    assert_eq!(Marker::all().len(), 13);
    assert_eq!(Marker::PnpmLock.file_name(), "pnpm-lock.yaml");
}

fn text(s: &str) -> ConfigValue {
    ConfigValue::Text(s.into())
}

fn table(entries: Vec<(&str, ConfigValue)>) -> ConfigValue {
    ConfigValue::Table(entries.into_iter().map(|(k, v)| (k.to_string(), v)).collect())
}

#[test]
fn reads_a_parsed_manifest() {
    let dir = String::from("/work/app");
    let doc = table(vec![(
        "tasks",
        table(vec![
            ("test", table(vec![("run", text("cargo test"))])),
            ("build", table(vec![("run", text("cargo build"))])),
        ]),
    )]);
    let workspace = native::read_manifest(&dir, &doc).unwrap().unwrap();
    assert_eq!(workspace.provider.name(), "yobiko");
    let names: Vec<&str> = workspace.tasks.iter().map(|t| t.name.as_str()).collect();
    assert_eq!(names, ["build", "test"]);
    assert_eq!(workspace.tasks[0].args, ["-c", "cargo build"]);

    let bad = table(vec![("tasks", table(vec![("x", text("echo"))]))]);
    let diagnostic = native::read_manifest(&dir, &bad).unwrap_err();
    assert_eq!(diagnostic.path, "/work/app/yobiko.toml");
    assert_eq!(diagnostic.message, "task `x` must be defined as a table");

    assert!(native::read_manifest(&dir, &table(vec![])).unwrap().is_none());
    let not_table = native::read_manifest(&dir, &text("x")).unwrap_err();
    assert_eq!(not_table.message, "manifest must be a TOML table");
}

#[test]
fn builds_workspaces_from_parsed_configs() {
    let dir = String::from("/work/app");
    let config = table(vec![(
        "tasks",
        table(vec![
            ("lint", table(vec![("run", text("eslint ."))])),
            ("fmt", text("prettier -w .")),
        ]),
    )]);
    let workspace = mise::workspace_of_config(&dir, &config).unwrap();
    assert_eq!(command_lines(&workspace.tasks), ["mise run lint", "mise run fmt"]);
    assert_eq!(workspace.tasks[0].content.as_deref(), Some("eslint ."));
    assert!(mise::workspace_of_config(&dir, &table(vec![])).is_none());

    let package = table(vec![("scripts", table(vec![("dev", text("vite"))]))]);
    let workspace = npm::workspace_of_package(&dir, "pnpm", &package).unwrap();
    assert_eq!(command_lines(&workspace.tasks), ["pnpm run dev"]);
    assert_eq!(workspace.tasks[0].content.as_deref(), Some("vite"));
    assert!(npm::workspace_of_package(&dir, "npm", &table(vec![("scripts", text("x"))])).is_none());

    assert!(uv::declares_tool_uv(&table(vec![("tool", table(vec![("uv", table(vec![]))]))])));
    assert!(!uv::declares_tool_uv(&table(vec![("tool", table(vec![("ruff", table(vec![]))]))])));
    assert!(!uv::declares_tool_uv(&text("tool")));
}

#[test]
fn discovery_asks_every_provider_once_in_order() {
    let dir = snapshot(
        "/work/all",
        vec![
            (Marker::UvLock, file("")),
            (Marker::PyprojectToml, file("[project]\nname = \"x\"\n")),
            (Marker::MiseToml, file("[tasks.lint]\nrun = \"ruff\"\n")),
            (Marker::PackageJson, file(r#"{"scripts":{"dev":"vite"}}"#)),
            (Marker::GoMod, file("module example.com/x\n")),
            (Marker::ComposeYml, file("services: {}\n")),
            (Marker::ComposeYaml, file("services: {}\n")),
            (Marker::CargoToml, file("[package]\nname = \"x\"\n")),
            (Marker::YobikoToml, file("[tasks.hello]\nrun = \"echo hi\"\n")),
        ],
    );
    let (found, diagnostics) = discover(&dir);
    let providers = found.iter().map(|workspace| workspace.provider.name()).collect::<Vec<_>>();
    assert_eq!(providers, ["yobiko", "cargo", "docker-compose", "go", "npm", "mise", "uv"]);
    assert!(diagnostics.is_empty());
}

//! npm: the `scripts` of a `package.json`, run with the package manager
//! that the directory's lock file names.

use vstd::prelude::*;

use crate::config::{field, get_field, json_document, parse_json, ConfigValue};
use crate::files::{exists_at, text_at, Marker, Snapshot};
use crate::model::{task_views, Provider, Task, TaskView, Workspace};
use super::{make_task, strings2, task_view};

verus! {

broadcast use vstd::string::group_string_axioms;

/// The package manager of a directory: pnpm where `pnpm-lock.yaml` exists,
/// else yarn where `yarn.lock` exists, else npm.
pub open spec fn npm_runner(s: Snapshot) -> Seq<char> {
    if exists_at(s, Marker::PnpmLock) {
        "pnpm"@
    } else if exists_at(s, Marker::YarnLock) {
        "yarn"@
    } else {
        "npm"@
    }
}

/// The text of a string value.
pub open spec fn text_value(v: ConfigValue) -> Option<Seq<char>> {
    match v {
        ConfigValue::Text(s) => Some(s@),
        _ => None,
    }
}

/// The entries of the `scripts` object of a directory's `package.json`,
/// where it reads, parses, and has such an object.
pub open spec fn npm_scripts(s: Snapshot) -> Option<Seq<(String, ConfigValue)>> {
    match text_at(s, Marker::PackageJson) {
        Some(source) => match json_document(source) {
            Some(package) => scripts_object(package),
            None => None,
        },
        None => None,
    }
}

/// The entries of the `scripts` object of a parsed `package.json`, where it
/// has such an object.
pub open spec fn scripts_object(package: ConfigValue) -> Option<Seq<(String, ConfigValue)>> {
    match get_field(package, "scripts"@) {
        Some(ConfigValue::Table(entries)) => Some(entries@),
        _ => None,
    }
}

/// The task for one script: `<runner> run <name>`, showing the script's
/// text where it is a string.
pub open spec fn script_task(dir: Seq<char>, runner: Seq<char>, e: (String, ConfigValue)) -> TaskView {
    task_view(e.0@, dir, runner, seq!["run"@, e.0@], text_value(e.1))
}

/// The tasks for a list of scripts, in the same order.
pub open spec fn npm_tasks(dir: Seq<char>, runner: Seq<char>, entries: Seq<(String, ConfigValue)>) -> Seq<
    TaskView,
> {
    entries.map_values(|e: (String, ConfigValue)| script_task(dir, runner, e))
}

fn text_of(v: &ConfigValue) -> (r: Option<String>)
    ensures
        match r {
            Some(s) => text_value(*v) == Some(s@),
            None => text_value(*v) is None,
        },
{
    match v {
        ConfigValue::Text(s) => Some(s.clone()),
        _ => None,
    }
}

/// The npm workspace of a directory: one task per entry of the `scripts`
/// object of `package.json`, in the parsed object's order, run as
/// `<runner> run <name>`.
pub fn workspace(snapshot: &Snapshot) -> (r: Option<Workspace>)
    ensures
        r is Some <==> npm_scripts(*snapshot) is Some,
        r matches Some(w) ==> w.dir@ == snapshot.dir@ && w.provider == Provider::Npm
            && task_views(w.tasks@) == npm_tasks(
            snapshot.dir@,
            npm_runner(*snapshot),
            npm_scripts(*snapshot).unwrap(),
        ),
{
    let source = match snapshot.text(Marker::PackageJson) {
        Some(source) => source,
        None => return None,
    };
    let package = match parse_json(source.as_str()) {
        Some(package) => package,
        None => return None,
    };
    let runner = if snapshot.has_entry(Marker::PnpmLock) {
        "pnpm"
    } else if snapshot.has_entry(Marker::YarnLock) {
        "yarn"
    } else {
        "npm"
    };
    workspace_of_package(&snapshot.dir, runner, &package)
}

/// The npm workspace of `dir` once its `package.json` has been parsed as
/// `package`: one task per entry of its `scripts` object, in order, run as
/// `<runner> run <name>`; none where it has no such object.
pub fn workspace_of_package(dir: &String, runner: &str, package: &ConfigValue) -> (r: Option<Workspace>)
    ensures
        r is Some <==> scripts_object(*package) is Some,
        r matches Some(w) ==> w.dir@ == dir@ && w.provider == Provider::Npm
            && task_views(w.tasks@) == npm_tasks(dir@, runner@, scripts_object(*package).unwrap()),
{
    let scripts = match field(package, "scripts") {
        Some(ConfigValue::Table(entries)) => entries,
        _ => return None,
    };
    let ghost expected = npm_tasks(dir@, runner@, scripts@);
    let mut tasks: Vec<Task> = Vec::new();
    let mut i: usize = 0;
    while i < scripts.len()
        invariant
            i <= scripts@.len(),
            expected == npm_tasks(dir@, runner@, scripts@),
            task_views(tasks@) =~= expected.take(i as int),
        decreases scripts@.len() - i,
    {
        let name = &scripts[i].0;
        let task = make_task(name.clone(), dir, runner, strings2("run", name.as_str()), text_of(&scripts[i].1));
        assert(task@ == expected[i as int]);
        let ghost before = tasks@;
        tasks.push(task);
        assert(task_views(tasks@) =~= task_views(before).push(task@));
        assert(expected.take(i + 1) =~= expected.take(i as int).push(expected[i as int]));
        i = i + 1;
    }
    assert(expected.take(i as int) =~= expected);
    Some(Workspace { dir: dir.clone(), provider: Provider::Npm, tasks })
}

} // verus!

//! Cargo: a `Cargo.toml` that parses offers Cargo's standard commands.

use vstd::prelude::*;

use crate::config::{parse_toml, toml_document};
use crate::files::{text_at, Marker, Snapshot};
use crate::model::{task_views, Provider, Task, TaskView, Workspace};
use super::{make_task, strings1, task_view};

verus! {

broadcast use vstd::string::group_string_axioms;

/// The commands offered, in order.
pub open spec fn cargo_commands() -> Seq<Seq<char>> {
    seq!["check"@, "test"@, "build"@, "fmt"@, "clippy"@]
}

/// The task that runs `cargo <command>` in `dir`.
pub open spec fn cargo_task(dir: Seq<char>, command: Seq<char>) -> TaskView {
    task_view(command, dir, "cargo"@, seq![command], None)
}

/// The tasks of a Cargo workspace in `dir`.
pub open spec fn cargo_tasks(dir: Seq<char>) -> Seq<TaskView> {
    cargo_commands().map_values(|c: Seq<char>| cargo_task(dir, c))
}

/// Whether the directory holds a `Cargo.toml` that reads and parses.
pub open spec fn has_cargo_manifest(s: Snapshot) -> bool {
    text_at(s, Marker::CargoToml) matches Some(source) && toml_document(source) is Ok
}

fn push_cargo_task(tasks: &mut Vec<Task>, dir: &String, command: &str)
    ensures
        task_views(final(tasks)@) == task_views(old(tasks)@).push(cargo_task(dir@, command@)),
{
    let ghost before = tasks@;
    tasks.push(make_task(String::from_str(command), dir, "cargo", strings1(command), None));
    assert(task_views(tasks@) =~= task_views(before).push(cargo_task(dir@, command@)));
}

/// The Cargo workspace of a directory: `cargo check`, `test`, `build`,
/// `fmt` and `clippy`, where a `Cargo.toml` reads and parses as TOML.
pub fn workspace(snapshot: &Snapshot) -> (r: Option<Workspace>)
    ensures
        r is Some <==> has_cargo_manifest(*snapshot),
        r matches Some(w) ==> w.dir@ == snapshot.dir@ && w.provider == Provider::Cargo
            && task_views(w.tasks@) == cargo_tasks(snapshot.dir@),
{
    let source = match snapshot.text(Marker::CargoToml) {
        Some(source) => source,
        None => return None,
    };
    if parse_toml(source.as_str()).is_err() {
        return None;
    }
    let dir = &snapshot.dir;
    let mut tasks: Vec<Task> = Vec::new();
    push_cargo_task(&mut tasks, dir, "check");
    push_cargo_task(&mut tasks, dir, "test");
    push_cargo_task(&mut tasks, dir, "build");
    push_cargo_task(&mut tasks, dir, "fmt");
    push_cargo_task(&mut tasks, dir, "clippy");
    assert(task_views(tasks@) =~= cargo_tasks(dir@));
    Some(Workspace { dir: dir.clone(), provider: Provider::Cargo, tasks })
}

} // verus!

//! uv: a `pyproject.toml` that parses, next to a `uv.lock` or with a
//! `[tool.uv]` table, offers `uv sync`.

use vstd::prelude::*;

use crate::config::{field, get_field, parse_toml, toml_document, ConfigValue};
use crate::files::{is_file_at, text_at, Marker, Snapshot};
use crate::model::{task_views, Provider, Task, TaskView, Workspace};
use super::{make_task, strings1, task_view};

verus! {

broadcast use vstd::string::group_string_axioms;

/// Whether a parsed `pyproject.toml` has a `tool.uv` entry.
pub open spec fn has_tool_uv(config: ConfigValue) -> bool {
    match get_field(config, "tool"@) {
        Some(tool) => get_field(tool, "uv"@) is Some,
        None => false,
    }
}

/// Whether the directory is a uv project: `pyproject.toml` reads and
/// parses, and `uv.lock` is a regular file or the manifest has `tool.uv`.
pub open spec fn is_uv_project(s: Snapshot) -> bool {
    text_at(s, Marker::PyprojectToml) matches Some(source) && toml_document(source) matches Ok(
        config,
    ) && (is_file_at(s, Marker::UvLock) || has_tool_uv(config))
}

/// The one task of a uv workspace in `dir`: `uv sync`.
pub open spec fn uv_tasks(dir: Seq<char>) -> Seq<TaskView> {
    seq![task_view("sync"@, dir, "uv"@, seq!["sync"@], None)]
}

/// Whether a parsed `pyproject.toml` has a `tool.uv` entry.
pub fn declares_tool_uv(config: &ConfigValue) -> (r: bool)
    ensures
        r == has_tool_uv(*config),
{
    match field(config, "tool") {
        Some(tool) => field(tool, "uv").is_some(),
        None => false,
    }
}

/// The uv workspace of a directory: `uv sync`, where the directory is a uv
/// project.
pub fn workspace(snapshot: &Snapshot) -> (r: Option<Workspace>)
    ensures
        r is Some <==> is_uv_project(*snapshot),
        r matches Some(w) ==> w.dir@ == snapshot.dir@ && w.provider == Provider::Uv
            && task_views(w.tasks@) == uv_tasks(snapshot.dir@),
{
    let source = match snapshot.text(Marker::PyprojectToml) {
        Some(source) => source,
        None => return None,
    };
    let config = match parse_toml(source.as_str()) {
        Ok(config) => config,
        Err(_) => return None,
    };
    let marked = snapshot.is_file(Marker::UvLock) || declares_tool_uv(&config);
    if !marked {
        return None;
    }
    let dir = &snapshot.dir;
    let tasks = vec![make_task(String::from_str("sync"), dir, "uv", strings1("sync"), None)];
    assert(task_views(tasks@) =~= uv_tasks(dir@));
    Some(Workspace { dir: dir.clone(), provider: Provider::Uv, tasks })
}

} // verus!

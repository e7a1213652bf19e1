//! mise: the `[tasks]` of a `mise.toml`, each run as `mise run <name>`.

use vstd::prelude::*;

use crate::config::{
    field, find_key, get_entry, get_field, key_index, lemma_key_index, lookup, parse_toml,
    toml_document, ConfigValue,
};
use crate::files::{text_at, Marker, Snapshot};
use crate::model::{task_views, Provider, Task, TaskView, Workspace};
use crate::text::{join_with, push_char};
use super::{make_task, strings2, task_view};

verus! {

broadcast use vstd::string::group_string_axioms;

/// The strings among a list's items, in order.
pub open spec fn list_texts(items: Seq<ConfigValue>) -> Seq<Seq<char>>
    decreases items.len(),
{
    if items.len() == 0 {
        Seq::empty()
    } else {
        let rest = list_texts(items.drop_last());
        match items.last() {
            ConfigValue::Text(s) => rest.push(s@),
            _ => rest,
        }
    }
}

/// What a task definition says the task does: a string as it is; a list
/// as its strings, one per line; a table as what its `run` says, else as
/// its `description` string.
pub open spec fn mise_content(v: ConfigValue) -> Option<Seq<char>>
    decreases v,
{
    match v {
        ConfigValue::Text(s) => Some(s@),
        ConfigValue::List(items) => Some(join_with(list_texts(items@), seq!['\n'])),
        ConfigValue::Table(entries) => {
            let run = match key_index(entries@, "run"@) {
                Some(i) => if 0 <= i < entries@.len() {
                    mise_content(entries@[i].1)
                } else {
                    None
                },
                None => None,
            };
            match run {
                Some(c) => Some(c),
                None => match lookup(entries@, "description"@) {
                    Some(ConfigValue::Text(d)) => Some(d@),
                    _ => None,
                },
            }
        },
        ConfigValue::Other => None,
    }
}

/// A task table that says what it runs shows what its `run` says, whatever
/// its description; a list of strings shows them one per line.
pub proof fn a_run_value_is_what_a_task_shows(v: ConfigValue, run: ConfigValue)
    requires
        v matches ConfigValue::Table(entries) && lookup(entries@, "run"@) == Some(run),
        mise_content(run) is Some,
    ensures
        mise_content(v) == mise_content(run),
{
    if let ConfigValue::Table(entries) = v {
        lemma_key_index(entries@, "run"@);
    }
}

/// A task table without `run` shows its `description` string.
pub proof fn a_description_is_shown_without_run(v: ConfigValue, description: String)
    requires
        v matches ConfigValue::Table(entries) && lookup(entries@, "run"@) is None && lookup(
            entries@,
            "description"@,
        ) == Some(ConfigValue::Text(description)),
    ensures
        mise_content(v) == Some(description@),
{
}

/// A list made only of strings shows those strings, one per line.
pub proof fn a_list_of_strings_shows_one_per_line(items: Seq<ConfigValue>, lines: Seq<Seq<char>>)
    requires
        items.len() == lines.len(),
        forall|i: int| #![trigger items[i]] 0 <= i < items.len() ==> (items[i] matches ConfigValue::Text(s) && s@ == lines[i]),
    ensures
        list_texts(items) == lines,
    decreases items.len(),
{
    if items.len() > 0 {
        a_list_of_strings_shows_one_per_line(items.drop_last(), lines.drop_last());
        assert(lines.drop_last().push(lines.last()) =~= lines);
    }
}

/// The strings of a list, one per line.
fn joined_lines(items: &Vec<ConfigValue>) -> (r: String)
    ensures
        r@ == join_with(list_texts(items@), seq!['\n']),
{
    let mut r = String::new();
    let mut any = false;
    let mut k: usize = 0;
    while k < items.len()
        invariant
            k <= items@.len(),
            any == (list_texts(items@.take(k as int)).len() > 0),
            r@ == join_with(list_texts(items@.take(k as int)), seq!['\n']),
        decreases items@.len() - k,
    {
        assert(items@.take(k + 1).drop_last() =~= items@.take(k as int));
        let ghost ws = list_texts(items@.take(k as int));
        match &items[k] {
            ConfigValue::Text(s) => {
                if any {
                    push_char(&mut r, '\n');
                }
                r.append(s.as_str());
                assert(ws.push(s@).drop_last() =~= ws);
                assert(r@ =~= join_with(ws.push(s@), seq!['\n']));
                any = true;
            },
            _ => {},
        }
        k = k + 1;
    }
    assert(items@.take(k as int) =~= items@);
    r
}

/// What a task definition says the task does: a string as it is; a list
/// as its strings, one per line; a table as what its `run` says, else as
/// its `description` string; nothing for anything else.
pub fn content(v: &ConfigValue) -> (r: Option<String>)
    ensures
        match r {
            Some(s) => mise_content(*v) == Some(s@),
            None => mise_content(*v) is None,
        },
    decreases v,
{
    match v {
        ConfigValue::Text(s) => Some(s.clone()),
        ConfigValue::List(items) => Some(joined_lines(items)),
        ConfigValue::Table(entries) => {
            let run = match find_key(entries, "run") {
                Some(i) => content(&entries[i].1),
                None => None,
            };
            match run {
                Some(c) => Some(c),
                None => match get_entry(entries, "description") {
                    Some(ConfigValue::Text(d)) => Some(d.clone()),
                    _ => None,
                },
            }
        },
        ConfigValue::Other => None,
    }
}

/// The entries of the `tasks` table of a directory's `mise.toml`, where it
/// reads, parses, and has such a table.
pub open spec fn mise_definitions(s: Snapshot) -> Option<Seq<(String, ConfigValue)>> {
    match text_at(s, Marker::MiseToml) {
        Some(source) => match toml_document(source) {
            Ok(config) => tasks_table(config),
            Err(_) => None,
        },
        None => None,
    }
}

/// The entries of the `tasks` table of a parsed `mise.toml`, where it has
/// such a table.
pub open spec fn tasks_table(config: ConfigValue) -> Option<Seq<(String, ConfigValue)>> {
    match get_field(config, "tasks"@) {
        Some(ConfigValue::Table(entries)) => Some(entries@),
        _ => None,
    }
}

/// The task for one definition: `mise run <name>`.
pub open spec fn mise_task(dir: Seq<char>, e: (String, ConfigValue)) -> TaskView {
    task_view(e.0@, dir, "mise"@, seq!["run"@, e.0@], mise_content(e.1))
}

/// The tasks for a list of definitions, in the same order.
pub open spec fn mise_tasks(dir: Seq<char>, entries: Seq<(String, ConfigValue)>) -> Seq<TaskView> {
    entries.map_values(|e: (String, ConfigValue)| mise_task(dir, e))
}

/// The mise workspace of a directory: one task per entry of the `tasks`
/// table of `mise.toml`, in the parsed table's order, run as
/// `mise run <name>`.
pub fn workspace(snapshot: &Snapshot) -> (r: Option<Workspace>)
    ensures
        r is Some <==> mise_definitions(*snapshot) is Some,
        r matches Some(w) ==> w.dir@ == snapshot.dir@ && w.provider == Provider::Mise
            && task_views(w.tasks@) == mise_tasks(snapshot.dir@, mise_definitions(*snapshot).unwrap()),
{
    let source = match snapshot.text(Marker::MiseToml) {
        Some(source) => source,
        None => return None,
    };
    match parse_toml(source.as_str()) {
        Ok(config) => workspace_of_config(&snapshot.dir, &config),
        Err(_) => None,
    }
}

/// The mise workspace of `dir` once its `mise.toml` has been parsed as
/// `config`: one task per entry of its `tasks` table, in order, run as
/// `mise run <name>`; none where it has no such table.
pub fn workspace_of_config(dir: &String, config: &ConfigValue) -> (r: Option<Workspace>)
    ensures
        r is Some <==> tasks_table(*config) is Some,
        r matches Some(w) ==> w.dir@ == dir@ && w.provider == Provider::Mise
            && task_views(w.tasks@) == mise_tasks(dir@, tasks_table(*config).unwrap()),
{
    let definitions = match field(config, "tasks") {
        Some(ConfigValue::Table(entries)) => entries,
        _ => return None,
    };
    let ghost expected = mise_tasks(dir@, definitions@);
    let mut tasks: Vec<Task> = Vec::new();
    let mut i: usize = 0;
    while i < definitions.len()
        invariant
            i <= definitions@.len(),
            expected == mise_tasks(dir@, definitions@),
            task_views(tasks@) =~= expected.take(i as int),
        decreases definitions@.len() - i,
    {
        let name = &definitions[i].0;
        let task = make_task(name.clone(), dir, "mise", strings2("run", name.as_str()), content(&definitions[i].1));
        assert(task@ == expected[i as int]);
        let ghost before = tasks@;
        tasks.push(task);
        assert(task_views(tasks@) =~= task_views(before).push(task@));
        assert(expected.take(i + 1) =~= expected.take(i as int).push(expected[i as int]));
        i = i + 1;
    }
    assert(expected.take(i as int) =~= expected);
    Some(Workspace { dir: dir.clone(), provider: Provider::Mise, tasks })
}

} // verus!

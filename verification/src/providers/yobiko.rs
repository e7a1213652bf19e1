//! The project's own manifest, `yobiko.toml`: named shell commands under
//! `[tasks.<name>]`, each with a `run` string.

use vstd::prelude::*;

use crate::config::{
    get_entry, key_index, lemma_key_index, lookup, parse_toml, toml_document, well_keyed, ConfigValue,
    keys_distinct,
};
use crate::files::{join_path, joined_path, probe, FileState, Marker, Snapshot};
use crate::model::{
    names_distinct, sort_by_name, sorted_by_name, task_views, Diagnostic, Provider, Task, TaskView,
    Workspace,
};
use crate::text::{chars_of, is_blank, is_blank_text, same_text, text_le};

verus! {

broadcast use vstd::string::group_string_axioms;

/// Where the manifest of a directory is.
pub open spec fn manifest_path(dir: Seq<char>) -> Seq<char> {
    joined_path(dir, "yobiko.toml"@)
}

/// The index of the first entry whose key is not `key`.
pub open spec fn other_key_index(entries: Seq<(String, ConfigValue)>, key: Seq<char>) -> Option<int>
    decreases entries.len(),
{
    if entries.len() == 0 {
        None
    } else if entries[0].0@ != key {
        Some(0)
    } else {
        match other_key_index(entries.drop_first(), key) {
            Some(i) => Some(i + 1),
            None => None,
        }
    }
}

proof fn lemma_other_key_index(entries: Seq<(String, ConfigValue)>, key: Seq<char>)
    ensures
        other_key_index(entries, key) matches Some(i) ==> 0 <= i < entries.len() && entries[i].0@
            != key && forall|j: int| 0 <= j < i ==> #[trigger] entries[j].0@ == key,
        other_key_index(entries, key) is None ==> forall|j: int|
            0 <= j < entries.len() ==> #[trigger] entries[j].0@ == key,
    decreases entries.len(),
{
    if entries.len() > 0 {
        lemma_other_key_index(entries.drop_first(), key);
        if entries[0].0@ == key {
            assert forall|j: int| 1 <= j < entries.len() implies #[trigger] entries[j].0@
                == entries.drop_first()[j - 1].0@ by {}
        }
    }
}

/// The complaint about one task definition, where there is one.
pub open spec fn definition_error(name: Seq<char>, definition: ConfigValue) -> Option<Seq<char>> {
    match definition {
        ConfigValue::Table(entries) => match other_key_index(entries@, "run"@) {
            Some(k) => Some(
                "unknown key `"@ + entries@[k].0@ + "` in task `"@ + name + "`"@,
            ),
            None => match lookup(entries@, "run"@) {
                Some(ConfigValue::Text(run)) => if is_blank(run@) {
                    Some("task `"@ + name + "` has an empty `run` value"@)
                } else {
                    None
                },
                _ => Some("task `"@ + name + "` requires a string `run` value"@),
            },
        },
        _ => Some("task `"@ + name + "` must be defined as a table"@),
    }
}

/// The `run` text of a task definition.
pub open spec fn definition_run(definition: ConfigValue) -> Seq<char> {
    match definition {
        ConfigValue::Table(entries) => match lookup(entries@, "run"@) {
            Some(ConfigValue::Text(run)) => run@,
            _ => Seq::empty(),
        },
        _ => Seq::empty(),
    }
}

/// The complaint about the first task, in the table's order, that has one.
pub open spec fn first_definition_error(entries: Seq<(String, ConfigValue)>) -> Option<Seq<char>>
    decreases entries.len(),
{
    if entries.len() == 0 {
        None
    } else {
        match definition_error(entries[0].0@, entries[0].1) {
            Some(m) => Some(m),
            None => first_definition_error(entries.drop_first()),
        }
    }
}

/// One invalid task definition is enough for the whole manifest to be
/// rejected: the tasks are then reported as a problem, never offered.
pub proof fn one_invalid_task_rejects_manifest(entries: Seq<(String, ConfigValue)>, i: int)
    requires
        0 <= i < entries.len(),
        definition_error(entries[i].0@, entries[i].1) is Some,
    ensures
        first_definition_error(entries) is Some,
    decreases entries.len(),
{
    if i > 0 && definition_error(entries[0].0@, entries[0].1) is None {
        one_invalid_task_rejects_manifest(entries.drop_first(), i - 1);
    }
}

/// The complaint about a parsed manifest, where there is one.
pub open spec fn manifest_error(doc: ConfigValue) -> Option<Seq<char>> {
    match doc {
        ConfigValue::Table(root) => match other_key_index(root@, "tasks"@) {
            Some(k) => Some("unknown top-level key `"@ + root@[k].0@ + "`"@),
            None => match lookup(root@, "tasks"@) {
                None => None,
                Some(ConfigValue::Table(tasks)) => first_definition_error(tasks@),
                Some(_) => Some("`tasks` must be a table"@),
            },
        },
        _ => Some("manifest must be a TOML table"@),
    }
}

/// The entries of a manifest's `tasks` table; none where it has no such
/// table.
pub open spec fn manifest_tasks(doc: ConfigValue) -> Seq<(String, ConfigValue)> {
    match doc {
        ConfigValue::Table(root) => match lookup(root@, "tasks"@) {
            Some(ConfigValue::Table(tasks)) => tasks@,
            _ => Seq::empty(),
        },
        _ => Seq::empty(),
    }
}

/// The task that a valid definition becomes: its `run` text, run by `sh -c`
/// in the manifest's directory.
pub open spec fn shell_task(dir: Seq<char>, name: Seq<char>, run: Seq<char>) -> TaskView {
    TaskView {
        name: name,
        cwd: dir,
        command: "sh"@,
        args: seq!["-c"@, run],
        content: Some(run),
    }
}

/// The tasks that a manifest's entries define, in the table's order.
pub open spec fn defined_tasks(dir: Seq<char>, entries: Seq<(String, ConfigValue)>) -> Seq<TaskView> {
    entries.map_values(|e: (String, ConfigValue)| shell_task(dir, e.0@, definition_run(e.1)))
}

/// A diagnostic with the given path and message.
pub open spec fn is_diagnostic(d: Diagnostic, path: Seq<char>, message: Seq<char>) -> bool {
    d.path@ == path && d.message@ == message
}

/// What the manifest of `dir` yields once parsed as `doc`.
pub open spec fn parsed_outcome(
    dir: Seq<char>,
    doc: ConfigValue,
    r: Result<Option<Workspace>, Diagnostic>,
) -> bool {
    match manifest_error(doc) {
        Some(message) => r matches Err(d) && is_diagnostic(d, manifest_path(dir), message),
        None => {
            let entries = manifest_tasks(doc);
            if entries.len() == 0 {
                r matches Ok(None)
            } else {
                r matches Ok(Some(w)) && w.dir@ == dir && w.provider == Provider::Yobiko
                    && sorted_by_name(task_views(w.tasks@)) && task_views(w.tasks@).to_multiset()
                    == defined_tasks(dir, entries).to_multiset() && (keys_distinct(entries)
                    ==> names_distinct(task_views(w.tasks@)))
            }
        },
    }
}

/// Every task read from a manifest runs in the manifest's directory: it is
/// `sh -c <run>` for the `run` text it shows, and it is named by a key of
/// the manifest's `tasks` table.
pub proof fn manifest_tasks_run_in_its_directory(dir: Seq<char>, doc: ConfigValue, w: Workspace)
    requires
        parsed_outcome(dir, doc, Ok(Some(w))),
    ensures
        w.dir@ == dir,
        forall|i: int|
            #![trigger w.tasks@[i]]
            0 <= i < w.tasks@.len() ==> {
                let t = w.tasks@[i]@;
                &&& t.cwd == dir
                &&& t.command == "sh"@
                &&& t.args.len() == 2
                &&& t.args[0] == "-c"@
                &&& t.content == Some(t.args[1])
                &&& exists|j: int|
                    0 <= j < manifest_tasks(doc).len() && #[trigger] manifest_tasks(doc)[j].0@ == t.name
            },
{
    broadcast use vstd::seq_lib::group_to_multiset_ensures;

    let entries = manifest_tasks(doc);
    let views = task_views(w.tasks@);
    let defined = defined_tasks(dir, entries);
    assert forall|i: int|
        #![trigger w.tasks@[i]]
        0 <= i < w.tasks@.len() implies {
            let t = w.tasks@[i]@;
            &&& t.cwd == dir
            &&& t.command == "sh"@
            &&& t.args.len() == 2
            &&& t.args[0] == "-c"@
            &&& t.content == Some(t.args[1])
            &&& exists|j: int|
                0 <= j < manifest_tasks(doc).len() && #[trigger] manifest_tasks(doc)[j].0@ == t.name
        } by {
        let t = w.tasks@[i]@;
        assert(views[i] == t);
        assert(views.contains(t));
        assert(views.to_multiset().count(t) > 0);
        assert(defined.to_multiset().count(t) > 0);
        assert(defined.contains(t));
        let j = choose|j: int| 0 <= j < defined.len() && defined[j] == t;
        assert(defined[j] == shell_task(dir, entries[j].0@, definition_run(entries[j].1)));
    }
}

/// A manifest that loads offers a task for every entry of its `tasks`
/// table, ordered by name, no name twice where the table's keys differ,
/// as the project's own workspace of the directory.
pub proof fn manifest_offers_every_task_by_name(dir: Seq<char>, doc: ConfigValue, w: Workspace)
    requires
        parsed_outcome(dir, doc, Ok(Some(w))),
    ensures
        w.provider == Provider::Yobiko,
        forall|j: int|
            #![trigger manifest_tasks(doc)[j]]
            0 <= j < manifest_tasks(doc).len() ==> exists|i: int|
                0 <= i < w.tasks@.len() && #[trigger] w.tasks@[i].name@ == manifest_tasks(doc)[j].0@,
        forall|i: int, k: int|
            0 <= i < k < w.tasks@.len() ==> text_le(
                #[trigger] w.tasks@[i].name@,
                #[trigger] w.tasks@[k].name@,
            ),
        keys_distinct(manifest_tasks(doc)) ==> forall|i: int, k: int|
            0 <= i < k < w.tasks@.len() ==> #[trigger] w.tasks@[i].name@ != #[trigger] w.tasks@[k].name@,
{
    broadcast use vstd::seq_lib::group_to_multiset_ensures;

    let entries = manifest_tasks(doc);
    let views = task_views(w.tasks@);
    let defined = defined_tasks(dir, entries);
    assert forall|j: int| #![trigger entries[j]] 0 <= j < entries.len() implies exists|i: int|
        0 <= i < w.tasks@.len() && #[trigger] w.tasks@[i].name@ == entries[j].0@ by {
        let t = defined[j];
        assert(defined.contains(t));
        assert(defined.to_multiset().count(t) > 0);
        assert(views.to_multiset().count(t) > 0);
        assert(views.contains(t));
        let i = choose|i: int| 0 <= i < views.len() && views[i] == t;
        assert(w.tasks@[i].name@ == views[i].name);
    }
    assert forall|i: int, k: int| 0 <= i < k < w.tasks@.len() implies text_le(
        #[trigger] w.tasks@[i].name@,
        #[trigger] w.tasks@[k].name@,
    ) by {
        assert(views[i].name == w.tasks@[i].name@ && views[k].name == w.tasks@[k].name@);
    }
    if keys_distinct(entries) {
        assert forall|i: int, k: int| 0 <= i < k < w.tasks@.len() implies #[trigger] w.tasks@[i].name@
            != #[trigger] w.tasks@[k].name@ by {
            assert(views[i].name == w.tasks@[i].name@ && views[k].name == w.tasks@[k].name@);
        }
    }
}

/// What the manifest of a directory yields.
pub open spec fn manifest_outcome(s: Snapshot, r: Result<Option<Workspace>, Diagnostic>) -> bool {
    match probe(s, Marker::YobikoToml) {
        FileState::Absent => r matches Ok(None),
        FileState::Present { read: Err(e), .. } => r matches Err(d) && is_diagnostic(
            d,
            manifest_path(s.dir@),
            e@,
        ),
        FileState::Present { read: Ok(source), .. } => match toml_document(source@) {
            Err(e) => r matches Err(d) && is_diagnostic(d, manifest_path(s.dir@), e),
            Ok(doc) => parsed_outcome(s.dir@, doc, r) && (r matches Ok(Some(w)) ==> names_distinct(
                task_views(w.tasks@),
            )),
        },
    }
}

fn diagnostic(path: &String, message: String) -> (r: Diagnostic)
    ensures
        r.path@ == path@,
        r.message == message,
{
    Diagnostic { path: path.clone(), message }
}

/// `a + b + c`, as text.
fn concat3(a: &str, b: &str, c: &str) -> (r: String)
    ensures
        r@ == a@ + b@ + c@,
{
    let mut r = String::from_str(a);
    r.append(b);
    r.append(c);
    r
}

/// The position of the first entry whose key is not `key`.
fn find_other_key(entries: &Vec<(String, ConfigValue)>, key: &str) -> (r: Option<usize>)
    ensures
        match r {
            Some(i) => other_key_index(entries@, key@) == Some(i as int) && i < entries@.len(),
            None => other_key_index(entries@, key@) is None,
        },
{
    let mut i: usize = 0;
    while i < entries.len()
        invariant
            i <= entries@.len(),
            forall|j: int| 0 <= j < i ==> #[trigger] entries@[j].0@ == key@,
        decreases entries@.len() - i,
    {
        if !same_text(entries[i].0.as_str(), key) {
            proof {
                lemma_other_key_index(entries@, key@);
                match other_key_index(entries@, key@) {
                    Some(k) => {
                        if k < i {
                            assert(entries@[k].0@ == key@);
                        }
                        if k > i {
                            assert(entries@[i as int].0@ == key@);
                        }
                    },
                    None => {
                        assert(entries@[i as int].0@ == key@);
                    },
                }
            }
            return Some(i);
        }
        i = i + 1;
    }
    proof {
        lemma_other_key_index(entries@, key@);
        if let Some(k) = other_key_index(entries@, key@) {
            assert(entries@[k].0@ == key@);
        }
    }
    None
}

/// Checks one task definition: its `run` text, or the complaint about it.
fn check_definition(name: &String, definition: &ConfigValue) -> (r: Result<String, String>)
    ensures
        match r {
            Ok(run) => definition_error(name@, *definition) is None && run@ == definition_run(
                *definition,
            ),
            Err(m) => definition_error(name@, *definition) == Some(m@),
        },
{
    match definition {
        ConfigValue::Table(entries) => {
            if let Some(k) = find_other_key(entries, "run") {
                let mut m = concat3("unknown key `", entries[k].0.as_str(), "` in task `");
                m.append(name.as_str());
                m.append("`");
                return Err(m);
            }
            match get_entry(entries, "run") {
                Some(ConfigValue::Text(run)) => {
                    if is_blank_text(chars_of(run.as_str()).as_slice()) {
                        Err(concat3("task `", name.as_str(), "` has an empty `run` value"))
                    } else {
                        Ok(run.clone())
                    }
                },
                _ => Err(concat3("task `", name.as_str(), "` requires a string `run` value")),
            }
        },
        _ => Err(concat3("task `", name.as_str(), "` must be defined as a table")),
    }
}

/// Reads the manifest of `dir` once it has been parsed as `doc`: a
/// diagnostic about the first problem in it, no workspace where it defines
/// no task, or the workspace of its tasks ordered by name.
pub fn read_manifest(dir: &String, doc: &ConfigValue) -> (r: Result<Option<Workspace>, Diagnostic>)
    ensures
        parsed_outcome(dir@, *doc, r),
{
    let path = &join_path(dir.as_str(), Marker::YobikoToml.file_name());
    let root = match doc {
        ConfigValue::Table(root) => root,
        _ => return Err(diagnostic(path, String::from_str("manifest must be a TOML table"))),
    };
    if let Some(k) = find_other_key(root, "tasks") {
        return Err(diagnostic(path, concat3("unknown top-level key `", root[k].0.as_str(), "`")));
    }
    let tasks = match get_entry(root, "tasks") {
        None => return Ok(None),
        Some(ConfigValue::Table(tasks)) => tasks,
        Some(_) => return Err(diagnostic(path, String::from_str("`tasks` must be a table"))),
    };
    let mut parsed: Vec<Task> = Vec::new();
    let mut i: usize = 0;
    assert(tasks@.skip(0) =~= tasks@);
    assert(manifest_error(*doc) == first_definition_error(tasks@));
    while i < tasks.len()
        invariant
            i <= tasks@.len(),
            manifest_error(*doc) == first_definition_error(tasks@),
            path@ == manifest_path(dir@),
            first_definition_error(tasks@) == first_definition_error(tasks@.skip(i as int)),
            task_views(parsed@) =~= defined_tasks(dir@, tasks@.take(i as int)),
        decreases tasks@.len() - i,
    {
        let name = &tasks[i].0;
        let definition = &tasks[i].1;
        assert(tasks@.skip(i as int)[0] == tasks@[i as int]);
        match check_definition(name, definition) {
            Err(m) => {
                assert(tasks@.skip(i as int).len() > 0);
                assert(first_definition_error(tasks@.skip(i as int)) == Some(m@));
                assert(manifest_error(*doc) == Some(m@));
                return Err(diagnostic(path, m));
            },
            Ok(run) => {
                let task = Task {
                    name: name.clone(),
                    cwd: dir.clone(),
                    command: String::from_str("sh"),
                    args: vec![String::from_str("-c"), run.clone()],
                    content: Some(run),
                };
                assert(task@.args =~= seq!["-c"@, definition_run(*definition)]);
                assert(task@ == shell_task(dir@, tasks@[i as int].0@, definition_run(tasks@[i as int].1)));
                let ghost before = parsed@;
                parsed.push(task);
                assert(tasks@.skip(i as int).drop_first() =~= tasks@.skip(i + 1));
                assert(tasks@.take(i + 1) =~= tasks@.take(i as int).push(tasks@[i as int]));
                assert(task_views(parsed@) =~= task_views(before).push(task@));
            },
        }
        i = i + 1;
    }
    assert(tasks@.skip(i as int) =~= Seq::<(String, ConfigValue)>::empty());
    assert(tasks@.take(i as int) =~= tasks@);
    if parsed.len() == 0 {
        return Ok(None);
    }
    proof {
        if keys_distinct(tasks@) {
            assert forall|a: int, b: int| 0 <= a < b < task_views(parsed@).len() implies #[trigger] task_views(
                parsed@,
            )[a].name != #[trigger] task_views(parsed@)[b].name by {
                assert(task_views(parsed@)[a].name == tasks@[a].0@);
                assert(task_views(parsed@)[b].name == tasks@[b].0@);
            }
        }
    }
    Ok(Some(Workspace { dir: dir.clone(), provider: Provider::Yobiko, tasks: sort_by_name(parsed) }))
}

/// The workspace that a directory's `yobiko.toml` defines.
///
/// No manifest: none. A manifest that cannot be read or parsed, whose root
/// has a key other than `tasks`, or with any task that is not a table with
/// exactly a non-blank string `run`: a diagnostic for the whole manifest,
/// about the first problem. Otherwise each task runs its `run` text with
/// `sh -c` in the directory, and the tasks are ordered by name; a manifest
/// with no tasks yields no workspace.
pub fn workspace(snapshot: &Snapshot) -> (r: Result<Option<Workspace>, Diagnostic>)
    ensures
        manifest_outcome(*snapshot, r),
{
    let path = join_path(snapshot.dir.as_str(), Marker::YobikoToml.file_name());
    match snapshot.state(Marker::YobikoToml) {
        None => Ok(None),
        Some(FileState::Absent) => Ok(None),
        Some(FileState::Present { read: Err(e), .. }) => Err(diagnostic(&path, e.clone())),
        Some(FileState::Present { read: Ok(source), .. }) => match parse_toml(source.as_str()) {
            Err(e) => Err(diagnostic(&path, e)),
            Ok(doc) => {
                proof {
                    if let ConfigValue::Table(root) = &doc {
                        lemma_key_index(root@, "tasks"@);
                        if let Some(k) = key_index(root@, "tasks"@) {
                            assert(well_keyed(root@[k].1));
                        }
                    }
                }
                read_manifest(&snapshot.dir, &doc)
            },
        },
    }
}

} // verus!

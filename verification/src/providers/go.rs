//! Go: a `go.mod` with a `module` line offers the standard `go` commands
//! over all packages.

use vstd::prelude::*;

use crate::files::{text_at, Marker, Snapshot};
use crate::model::{task_views, Provider, Task, TaskView, Workspace};
use crate::text::{chars_of, is_white_space, is_white_space_char};
use super::{make_task, strings2, task_view};

verus! {

broadcast use vstd::string::group_string_axioms;

/// Position `k` of `text` is preceded, back to the start of its line, by
/// whitespace only.
pub open spec fn indented(text: Seq<char>, k: int) -> bool
    decreases k,
{
    if k <= 0 {
        true
    } else if text[k - 1] == '\n' {
        true
    } else {
        is_white_space(text[k - 1]) && indented(text, k - 1)
    }
}

/// Some line of `text`, once leading whitespace is trimmed, starts with
/// `module `.
pub open spec fn declares_module(text: Seq<char>) -> bool {
    exists|k: int|
        0 <= k && k + 7 <= text.len() && #[trigger] indented(text, k) && text.subrange(k, k + 7)
            == "module "@
}

/// The commands offered, in order.
pub open spec fn go_commands() -> Seq<Seq<char>> {
    seq!["test"@, "build"@, "fmt"@, "vet"@]
}

/// The task that runs `go <command> ./...` in `dir`.
pub open spec fn go_task(dir: Seq<char>, command: Seq<char>) -> TaskView {
    task_view(command, dir, "go"@, seq![command, "./..."@], None)
}

/// The tasks of a Go workspace in `dir`.
pub open spec fn go_tasks(dir: Seq<char>) -> Seq<TaskView> {
    go_commands().map_values(|c: Seq<char>| go_task(dir, c))
}

/// Whether the directory holds a `go.mod` that declares a module.
pub open spec fn has_go_module(s: Snapshot) -> bool {
    text_at(s, Marker::GoMod) matches Some(source) && declares_module(source)
}

fn matches_at(text: &Vec<char>, k: usize, pattern: &Vec<char>) -> (r: bool)
    requires
        k <= text@.len(),
    ensures
        r == (k + pattern@.len() <= text@.len() && text@.subrange(k as int, k + pattern@.len())
            == pattern@),
{
    if pattern.len() > text.len() - k {
        return false;
    }
    let n = text.len();
    let mut j: usize = 0;
    while j < pattern.len()
        invariant
            n == text@.len(),
            j <= pattern@.len(),
            k + pattern@.len() <= text@.len(),
            forall|m: int| 0 <= m < j ==> text@[k + m] == #[trigger] pattern@[m],
        decreases pattern@.len() - j,
    {
        assert(k + j < text@.len());
        if text[k + j] != pattern[j] {
            assert(text@.subrange(k as int, k + pattern@.len())[j as int] != pattern@[j as int]);
            return false;
        }
        j = j + 1;
    }
    assert(text@.subrange(k as int, k + pattern@.len()) =~= pattern@);
    true
}

/// Whether some line of `text`, once leading whitespace is trimmed, starts
/// with `module `.
pub fn declares_module_exec(text: &str) -> (r: bool)
    ensures
        r == declares_module(text@),
{
    let chars = chars_of(text);
    let pattern = chars_of("module ");
    proof {
        reveal_strlit("module ");
    }
    let mut at_indent = true;
    let mut i: usize = 0;
    while i < chars.len()
        invariant
            i <= chars@.len(),
            chars@ == text@,
            pattern@ == "module "@,
            pattern@.len() == 7,
            at_indent == indented(text@, i as int),
            forall|k: int|
                0 <= k < i ==> !(k + 7 <= text@.len() && #[trigger] indented(text@, k)
                    && text@.subrange(k, k + 7) == "module "@),
        decreases chars@.len() - i,
    {
        if at_indent && matches_at(&chars, i, &pattern) {
            return true;
        }
        let c = chars[i];
        at_indent = c == '\n' || (at_indent && is_white_space_char(c));
        i = i + 1;
    }
    proof {
        assert forall|k: int|
            0 <= k && k + 7 <= text@.len() && #[trigger] indented(text@, k) implies text@.subrange(
            k,
            k + 7,
        ) != "module "@ by {
            assert(k < i);
        }
    }
    false
}

fn push_go_task(tasks: &mut Vec<Task>, dir: &String, command: &str)
    ensures
        task_views(final(tasks)@) == task_views(old(tasks)@).push(go_task(dir@, command@)),
{
    let ghost before = tasks@;
    tasks.push(make_task(String::from_str(command), dir, "go", strings2(command, "./..."), None));
    assert(task_views(tasks@) =~= task_views(before).push(go_task(dir@, command@)));
}

/// The Go workspace of a directory: `go test`, `build`, `fmt` and `vet` of
/// `./...`, where `go.mod` reads and some line of it, once leading
/// whitespace is trimmed, starts with `module `.
pub fn workspace(snapshot: &Snapshot) -> (r: Option<Workspace>)
    ensures
        r is Some <==> has_go_module(*snapshot),
        r matches Some(w) ==> w.dir@ == snapshot.dir@ && w.provider == Provider::Go
            && task_views(w.tasks@) == go_tasks(snapshot.dir@),
{
    let source = match snapshot.text(Marker::GoMod) {
        Some(source) => source,
        None => return None,
    };
    if !declares_module_exec(source.as_str()) {
        return None;
    }
    let dir = &snapshot.dir;
    let mut tasks: Vec<Task> = Vec::new();
    push_go_task(&mut tasks, dir, "test");
    push_go_task(&mut tasks, dir, "build");
    push_go_task(&mut tasks, dir, "fmt");
    push_go_task(&mut tasks, dir, "vet");
    assert(task_views(tasks@) =~= go_tasks(dir@));
    Some(Workspace { dir: dir.clone(), provider: Provider::Go, tasks })
}

} // verus!

//! Docker Compose: any of the four compose file names offers the standard
//! `docker compose` commands.

use vstd::prelude::*;

use crate::files::{is_file_at, Marker, Snapshot};
use crate::model::{task_views, texts, Provider, Task, TaskView, Workspace};
use super::{make_task, strings2, strings3, task_view};

verus! {

broadcast use vstd::string::group_string_axioms;

/// Whether the directory holds a compose file.
pub open spec fn has_compose_file(s: Snapshot) -> bool {
    ||| is_file_at(s, Marker::ComposeYaml)
    ||| is_file_at(s, Marker::ComposeYml)
    ||| is_file_at(s, Marker::DockerComposeYaml)
    ||| is_file_at(s, Marker::DockerComposeYml)
}

/// The task `name` that runs `docker compose <args>` in `dir`.
pub open spec fn compose_task(dir: Seq<char>, name: Seq<char>, args: Seq<Seq<char>>) -> TaskView {
    task_view(name, dir, "docker"@, seq!["compose"@] + args, None)
}

/// The tasks of a Compose workspace in `dir`, in order.
pub open spec fn compose_tasks(dir: Seq<char>) -> Seq<TaskView> {
    seq![
        compose_task(dir, "up"@, seq!["up"@]),
        compose_task(dir, "up-detached"@, seq!["up"@, "--wait"@]),
        compose_task(dir, "down"@, seq!["down"@]),
        compose_task(dir, "build"@, seq!["build"@]),
        compose_task(dir, "pull"@, seq!["pull"@]),
        compose_task(dir, "ps"@, seq!["ps"@]),
        compose_task(dir, "logs"@, seq!["logs"@]),
    ]
}

fn push_compose_task(tasks: &mut Vec<Task>, dir: &String, name: &str, args: Vec<String>)
    requires
        texts(args@).len() > 0,
        texts(args@)[0] == "compose"@,
    ensures
        task_views(final(tasks)@) == task_views(old(tasks)@).push(
            compose_task(dir@, name@, texts(args@).drop_first()),
        ),
{
    let ghost before = tasks@;
    let ghost a = texts(args@);
    tasks.push(make_task(String::from_str(name), dir, "docker", args, None));
    assert(a =~= seq!["compose"@] + a.drop_first());
    assert(task_views(tasks@) =~= task_views(before).push(compose_task(dir@, name@, a.drop_first())));
}

/// The Compose workspace of a directory: `docker compose up`, `up --wait`,
/// `down`, `build`, `pull`, `ps` and `logs`, where any of `compose.yaml`,
/// `compose.yml`, `docker-compose.yaml` or `docker-compose.yml` is a
/// regular file. Several such files still make one workspace.
pub fn workspace(snapshot: &Snapshot) -> (r: Option<Workspace>)
    ensures
        r is Some <==> has_compose_file(*snapshot),
        r matches Some(w) ==> w.dir@ == snapshot.dir@ && w.provider == Provider::DockerCompose
            && task_views(w.tasks@) == compose_tasks(snapshot.dir@),
{
    if !(snapshot.is_file(Marker::ComposeYaml) || snapshot.is_file(Marker::ComposeYml)
        || snapshot.is_file(Marker::DockerComposeYaml) || snapshot.is_file(
        Marker::DockerComposeYml,
    )) {
        return None;
    }
    let dir = &snapshot.dir;
    let mut tasks: Vec<Task> = Vec::new();
    push_compose_task(&mut tasks, dir, "up", strings2("compose", "up"));
    push_compose_task(&mut tasks, dir, "up-detached", strings3("compose", "up", "--wait"));
    push_compose_task(&mut tasks, dir, "down", strings2("compose", "down"));
    push_compose_task(&mut tasks, dir, "build", strings2("compose", "build"));
    push_compose_task(&mut tasks, dir, "pull", strings2("compose", "pull"));
    push_compose_task(&mut tasks, dir, "ps", strings2("compose", "ps"));
    push_compose_task(&mut tasks, dir, "logs", strings2("compose", "logs"));
    assert(seq!["compose"@, "up"@].drop_first() =~= seq!["up"@]);
    assert(seq!["compose"@, "up"@, "--wait"@].drop_first() =~= seq!["up"@, "--wait"@]);
    assert(seq!["compose"@, "down"@].drop_first() =~= seq!["down"@]);
    assert(seq!["compose"@, "build"@].drop_first() =~= seq!["build"@]);
    assert(seq!["compose"@, "pull"@].drop_first() =~= seq!["pull"@]);
    assert(seq!["compose"@, "ps"@].drop_first() =~= seq!["ps"@]);
    assert(seq!["compose"@, "logs"@].drop_first() =~= seq!["logs"@]);
    assert(task_views(tasks@) =~= compose_tasks(dir@));
    Some(Workspace { dir: dir.clone(), provider: Provider::DockerCompose, tasks })
}

} // verus!

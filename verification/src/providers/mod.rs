//! The providers: each reads one kind of manifest in a directory and
//! offers its tasks.

use vstd::prelude::*;

use crate::config::toml_document;
use crate::files::{probe, FileState, Marker, Snapshot};
use crate::model::{opt_text, task_views, texts, Diagnostic, Provider, Task, TaskView, Workspace};

pub mod cargo;
pub mod docker_compose;
pub mod go;
pub mod mise;
pub mod npm;
pub mod uv;
pub mod yobiko;

verus! {

broadcast use vstd::string::group_string_axioms;

/// A task with the given parts.
pub open spec fn task_view(
    name: Seq<char>,
    cwd: Seq<char>,
    command: Seq<char>,
    args: Seq<Seq<char>>,
    content: Option<Seq<char>>,
) -> TaskView {
    TaskView { name, cwd, command, args, content }
}

/// Builds a task from its parts.
pub fn make_task(
    name: String,
    cwd: &String,
    command: &str,
    args: Vec<String>,
    content: Option<String>,
) -> (r: Task)
    ensures
        r@ == task_view(name@, cwd@, command@, texts(args@), opt_text(content)),
{
    Task { name, cwd: cwd.clone(), command: String::from_str(command), args, content }
}

/// A list of one string.
pub fn strings1(a: &str) -> (r: Vec<String>)
    ensures
        texts(r@) == seq![a@],
{
    let r = vec![String::from_str(a)];
    assert(texts(r@) =~= seq![a@]);
    r
}

/// A list of two strings.
pub fn strings2(a: &str, b: &str) -> (r: Vec<String>)
    ensures
        texts(r@) == seq![a@, b@],
{
    let r = vec![String::from_str(a), String::from_str(b)];
    assert(texts(r@) =~= seq![a@, b@]);
    r
}

/// A list of three strings.
pub fn strings3(a: &str, b: &str, c: &str) -> (r: Vec<String>)
    ensures
        texts(r@) == seq![a@, b@, c@],
{
    let r = vec![String::from_str(a), String::from_str(b), String::from_str(c)];
    assert(texts(r@) =~= seq![a@, b@, c@]);
    r
}

// ---------------------------------------------------------------------
// Discovery
// ---------------------------------------------------------------------

/// Whether a directory's `yobiko.toml` yields a diagnostic.
pub open spec fn manifest_has_error(s: Snapshot) -> bool {
    match probe(s, Marker::YobikoToml) {
        FileState::Absent => false,
        FileState::Present { read: Err(_), .. } => true,
        FileState::Present { read: Ok(source), .. } => match toml_document(source@) {
            Err(_) => true,
            Ok(doc) => yobiko::manifest_error(doc) is Some,
        },
    }
}

/// Whether a directory's `yobiko.toml` yields a workspace.
pub open spec fn manifest_has_workspace(s: Snapshot) -> bool {
    match probe(s, Marker::YobikoToml) {
        FileState::Present { read: Ok(source), .. } => match toml_document(source@) {
            Ok(doc) => yobiko::manifest_error(doc) is None && yobiko::manifest_tasks(doc).len() > 0,
            Err(_) => false,
        },
        _ => false,
    }
}

/// One provider, where the condition holds.
pub open spec fn provider_if(c: bool, p: Provider) -> Seq<Provider> {
    if c {
        seq![p]
    } else {
        Seq::empty()
    }
}

/// The providers that find a workspace in a directory, in the order they
/// are asked: the project's own manifest, then Cargo, Docker Compose, Go,
/// npm, mise and uv.
pub open spec fn discovered(s: Snapshot) -> Seq<Provider> {
    provider_if(manifest_has_workspace(s), Provider::Yobiko) + provider_if(
        cargo::has_cargo_manifest(s),
        Provider::Cargo,
    ) + provider_if(docker_compose::has_compose_file(s), Provider::DockerCompose) + provider_if(
        go::has_go_module(s),
        Provider::Go,
    ) + provider_if(npm::npm_scripts(s) is Some, Provider::Npm) + provider_if(
        mise::mise_definitions(s) is Some,
        Provider::Mise,
    ) + provider_if(uv::is_uv_project(s), Provider::Uv)
}

/// `w` is what its provider finds in the directory.
pub open spec fn provider_workspace(s: Snapshot, w: Workspace) -> bool {
    &&& w.dir@ == s.dir@
    &&& match w.provider {
        Provider::Yobiko => yobiko::manifest_outcome(s, Ok(Some(w))),
        Provider::Cargo => task_views(w.tasks@) == cargo::cargo_tasks(s.dir@),
        Provider::DockerCompose => task_views(w.tasks@) == docker_compose::compose_tasks(s.dir@),
        Provider::Go => task_views(w.tasks@) == go::go_tasks(s.dir@),
        Provider::Npm => task_views(w.tasks@) == npm::npm_tasks(
            s.dir@,
            npm::npm_runner(s),
            npm::npm_scripts(s).unwrap(),
        ),
        Provider::Mise => task_views(w.tasks@) == mise::mise_tasks(
            s.dir@,
            mise::mise_definitions(s).unwrap(),
        ),
        Provider::Uv => task_views(w.tasks@) == uv::uv_tasks(s.dir@),
    }
}

/// The providers of a list of workspaces.
pub open spec fn providers_of(ws: Seq<Workspace>) -> Seq<Provider> {
    ws.map_values(|w: Workspace| w.provider)
}

/// What discovery finds in a directory.
pub open spec fn discovery(s: Snapshot, found: Seq<Workspace>, diagnostics: Seq<Diagnostic>) -> bool {
    &&& providers_of(found) == discovered(s)
    &&& forall|i: int| 0 <= i < found.len() ==> provider_workspace(s, #[trigger] found[i])
    &&& diagnostics.len() == (if manifest_has_error(s) { 1int } else { 0int })
    &&& forall|i: int|
        0 <= i < diagnostics.len() ==> yobiko::manifest_outcome(s, Err(#[trigger] diagnostics[i]))
}

/// The place of a provider in the order providers are asked.
pub open spec fn ask_order(p: Provider) -> int {
    match p {
        Provider::Yobiko => 0,
        Provider::Cargo => 1,
        Provider::DockerCompose => 2,
        Provider::Go => 3,
        Provider::Npm => 4,
        Provider::Mise => 5,
        Provider::Uv => 6,
    }
}

/// Providers listed strictly in the order they are asked.
pub open spec fn in_ask_order(ps: Seq<Provider>) -> bool {
    forall|i: int, j: int| 0 <= i < j < ps.len() ==> ask_order(#[trigger] ps[i]) < ask_order(
        #[trigger] ps[j],
    )
}

proof fn lemma_then_ask(a: Seq<Provider>, c: bool, p: Provider)
    requires
        in_ask_order(a),
        forall|i: int| 0 <= i < a.len() ==> ask_order(#[trigger] a[i]) < ask_order(p),
        a.len() <= ask_order(p),
    ensures
        in_ask_order(a + provider_if(c, p)),
        forall|i: int|
            0 <= i < (a + provider_if(c, p)).len() ==> ask_order(#[trigger] (a + provider_if(c, p))[i])
                <= ask_order(p),
        (a + provider_if(c, p)).len() <= ask_order(p) + 1,
{
    let b = a + provider_if(c, p);
    assert forall|i: int| 0 <= i < b.len() implies ask_order(#[trigger] b[i]) <= ask_order(p) by {
        if i < a.len() {
            assert(b[i] == a[i]);
        }
    }
    assert forall|i: int, j: int| 0 <= i < j < b.len() implies ask_order(#[trigger] b[i]) < ask_order(
        #[trigger] b[j],
    ) by {
        assert(b[i] == a[i]);
        if j < a.len() {
            assert(b[j] == a[j]);
        }
    }
}

/// Discovery finds at most one workspace per provider, in the order the
/// providers are asked (the project's own manifest, Cargo, Docker Compose,
/// Go, npm, mise, uv), each what that provider finds in the directory: so at
/// most seven, and no provider twice.
pub proof fn discovery_lists_each_provider_once(
    s: Snapshot,
    found: Seq<Workspace>,
    diagnostics: Seq<Diagnostic>,
)
    requires
        discovery(s, found, diagnostics),
    ensures
        found.len() <= 7,
        forall|i: int, j: int|
            0 <= i < j < found.len() ==> ask_order(#[trigger] found[i].provider) < ask_order(
                #[trigger] found[j].provider,
            ),
        forall|i: int, j: int|
            0 <= i < j < found.len() ==> #[trigger] found[i].provider != #[trigger] found[j].provider,
        forall|i: int| 0 <= i < found.len() ==> provider_workspace(s, #[trigger] found[i]),
{
    let e = Seq::<Provider>::empty();
    let a0 = e + provider_if(manifest_has_workspace(s), Provider::Yobiko);
    lemma_then_ask(e, manifest_has_workspace(s), Provider::Yobiko);
    assert(a0 =~= provider_if(manifest_has_workspace(s), Provider::Yobiko));
    let a1 = a0 + provider_if(cargo::has_cargo_manifest(s), Provider::Cargo);
    lemma_then_ask(a0, cargo::has_cargo_manifest(s), Provider::Cargo);
    let a2 = a1 + provider_if(docker_compose::has_compose_file(s), Provider::DockerCompose);
    lemma_then_ask(a1, docker_compose::has_compose_file(s), Provider::DockerCompose);
    let a3 = a2 + provider_if(go::has_go_module(s), Provider::Go);
    lemma_then_ask(a2, go::has_go_module(s), Provider::Go);
    let a4 = a3 + provider_if(npm::npm_scripts(s) is Some, Provider::Npm);
    lemma_then_ask(a3, npm::npm_scripts(s) is Some, Provider::Npm);
    let a5 = a4 + provider_if(mise::mise_definitions(s) is Some, Provider::Mise);
    lemma_then_ask(a4, mise::mise_definitions(s) is Some, Provider::Mise);
    lemma_then_ask(a5, uv::is_uv_project(s), Provider::Uv);
    let ps = providers_of(found);
    assert(ps == discovered(s));
    assert forall|i: int, j: int| 0 <= i < j < found.len() implies ask_order(
        #[trigger] found[i].provider,
    ) < ask_order(#[trigger] found[j].provider) by {
        assert(ps[i] == found[i].provider);
        assert(ps[j] == found[j].provider);
    }
}

fn add_found(found: &mut Vec<Workspace>, w: Option<Workspace>, Ghost(s): Ghost<Snapshot>)
    requires
        forall|i: int| 0 <= i < old(found)@.len() ==> provider_workspace(s, #[trigger] old(found)@[i]),
        w matches Some(x) ==> provider_workspace(s, x),
    ensures
        providers_of(final(found)@) == providers_of(old(found)@) + match w {
            Some(x) => seq![x.provider],
            None => Seq::empty(),
        },
        forall|i: int| 0 <= i < final(found)@.len() ==> provider_workspace(s, #[trigger] final(found)@[i]),
{
    let ghost before = found@;
    match w {
        Some(x) => {
            found.push(x);
            assert(providers_of(found@) =~= providers_of(before) + seq![x.provider]);
        },
        None => {
            assert(providers_of(found@) =~= providers_of(before) + Seq::empty());
        },
    }
}

/// Everything the providers find in a directory: the workspaces, in the
/// order the project's own manifest, Cargo, Docker Compose, Go, npm, mise
/// and uv are asked, and the diagnostic about the project's own manifest,
/// where it has a problem.
pub fn discover(snapshot: &Snapshot) -> (r: (Vec<Workspace>, Vec<Diagnostic>))
    ensures
        discovery(*snapshot, r.0@, r.1@),
{
    let ghost s = *snapshot;
    let mut diagnostics: Vec<Diagnostic> = Vec::new();
    let mut found: Vec<Workspace> = Vec::new();
    let native = match yobiko::workspace(snapshot) {
        Ok(w) => w,
        Err(d) => {
            diagnostics.push(d);
            None
        },
    };
    assert(native is Some <==> manifest_has_workspace(s));
    add_found(&mut found, native, Ghost(s));
    add_found(&mut found, cargo::workspace(snapshot), Ghost(s));
    add_found(&mut found, docker_compose::workspace(snapshot), Ghost(s));
    add_found(&mut found, go::workspace(snapshot), Ghost(s));
    add_found(&mut found, npm::workspace(snapshot), Ghost(s));
    add_found(&mut found, mise::workspace(snapshot), Ghost(s));
    add_found(&mut found, uv::workspace(snapshot), Ghost(s));
    assert(providers_of(found@) =~= discovered(s));
    (found, diagnostics)
}

} // verus!

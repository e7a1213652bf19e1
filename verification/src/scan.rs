//! Scanning a tree of directories for workspaces.
//!
//! Walking the tree and reading its files is left to the caller, which
//! hands over one snapshot per directory, in walk order.

use vstd::prelude::*;

use crate::files::Snapshot;
use crate::model::{task_views, Diagnostic, Provider, Task, TaskView, Workspace};
use crate::providers::{discover, discovery};
use crate::text::same_text;

verus! {

broadcast use vstd::string::group_string_axioms;

/// What scanning found: every workspace, the project's own first, and every
/// diagnostic.
#[derive(Debug)]
pub struct ScanResult {
    pub workspaces: Vec<Workspace>,
    pub diagnostics: Vec<Diagnostic>,
}

/// Lists joined end to end.
pub open spec fn concat_all<A>(lists: Seq<Seq<A>>) -> Seq<A>
    decreases lists.len(),
{
    if lists.len() == 0 {
        Seq::empty()
    } else {
        concat_all(lists.drop_last()) + lists.last()
    }
}

/// The workspaces of the project's own manifest, in order.
pub open spec fn native_workspaces(ws: Seq<Workspace>) -> Seq<Workspace>
    decreases ws.len(),
{
    if ws.len() == 0 {
        Seq::empty()
    } else if ws.last().provider == Provider::Yobiko {
        native_workspaces(ws.drop_last()).push(ws.last())
    } else {
        native_workspaces(ws.drop_last())
    }
}

/// The workspaces of the other providers, in order.
pub open spec fn other_workspaces(ws: Seq<Workspace>) -> Seq<Workspace>
    decreases ws.len(),
{
    if ws.len() == 0 {
        Seq::empty()
    } else if ws.last().provider != Provider::Yobiko {
        other_workspaces(ws.drop_last()).push(ws.last())
    } else {
        other_workspaces(ws.drop_last())
    }
}

/// What scanning a list of directories yields, given what discovery found
/// in each.
pub open spec fn scanned(
    snapshots: Seq<Snapshot>,
    found: Seq<Seq<Workspace>>,
    diagnostics: Seq<Seq<Diagnostic>>,
    r: ScanResult,
) -> bool {
    &&& found.len() == snapshots.len()
    &&& diagnostics.len() == snapshots.len()
    &&& forall|i: int|
        0 <= i < snapshots.len() ==> discovery(
            #[trigger] snapshots[i],
            found[i],
            diagnostics[i],
        )
    &&& r.workspaces@ == native_workspaces(concat_all(found)) + other_workspaces(concat_all(found))
    &&& r.diagnostics@ == concat_all(diagnostics)
}

/// Whether the walk never enters a directory of this name: `.git` and
/// `node_modules`.
pub fn always_ignored(name: Option<&str>) -> (r: bool)
    ensures
        r == (name matches Some(n) && (n@ == ".git"@ || n@ == "node_modules"@)),
{
    match name {
        Some(n) => same_text(n, ".git") || same_text(n, "node_modules"),
        None => false,
    }
}

/// The deepest level below the root that a scan of `depth` levels walks:
/// one less than `depth`, and the root alone for a depth of zero.
pub fn walk_depth(depth: usize) -> (r: usize)
    ensures
        r == if depth == 0 {
            0
        } else {
            depth - 1
        },
{
    depth.saturating_sub(1)
}

/// Scans directories: asks the providers about each, in order, keeps
/// every diagnostic, and puts the workspaces of the project's own manifest
/// before all others, keeping the order within each group.
pub fn scan(snapshots: Vec<Snapshot>) -> (r: ScanResult)
    ensures
        exists|found: Seq<Seq<Workspace>>, diagnostics: Seq<Seq<Diagnostic>>|
            scanned(snapshots@, found, diagnostics, r),
{
    let mut native: Vec<Workspace> = Vec::new();
    let mut others: Vec<Workspace> = Vec::new();
    let mut diagnostics: Vec<Diagnostic> = Vec::new();
    let ghost mut found_all: Seq<Seq<Workspace>> = Seq::empty();
    let ghost mut diags_all: Seq<Seq<Diagnostic>> = Seq::empty();
    let mut i: usize = 0;
    while i < snapshots.len()
        invariant
            i <= snapshots@.len(),
            found_all.len() == i,
            diags_all.len() == i,
            forall|j: int| 0 <= j < i ==> discovery(#[trigger] snapshots@[j], found_all[j], diags_all[j]),
            native@ == native_workspaces(concat_all(found_all)),
            others@ == other_workspaces(concat_all(found_all)),
            diagnostics@ == concat_all(diags_all),
        decreases snapshots@.len() - i,
    {
        let (mut found, mut diags) = discover(&snapshots[i]);
        let ghost found_i = found@;
        let ghost prefix = concat_all(found_all);
        proof {
            assert(diags_all.push(diags@).drop_last() =~= diags_all);
            diags_all = diags_all.push(diags@);
        }
        diagnostics.append(&mut diags);
        let ghost mut k: int = 0;
        while found.len() > 0
            invariant
                0 <= k <= found_i.len(),
                found@ == found_i.skip(k),
                native@ == native_workspaces(prefix + found_i.take(k)),
                others@ == other_workspaces(prefix + found_i.take(k)),
            decreases found@.len(),
        {
            let w = found.remove(0);
            assert(w == found_i[k]);
            assert(found@ =~= found_i.skip(k + 1));
            assert((prefix + found_i.take(k + 1)).drop_last() =~= prefix + found_i.take(k));
            assert((prefix + found_i.take(k + 1)).last() == w);
            if w.provider == Provider::Yobiko {
                native.push(w);
            } else {
                others.push(w);
            }
            proof {
                k = k + 1;
            }
        }
        assert(found_i.take(k) =~= found_i);
        proof {
            assert(found_all.push(found_i).drop_last() =~= found_all);
            found_all = found_all.push(found_i);
        }
        i = i + 1;
    }
    native.append(&mut others);
    let r = ScanResult { workspaces: native, diagnostics };
    assert(scanned(snapshots@, found_all, diags_all, r));
    r
}

/// The tasks of all workspaces, workspace by workspace, in order.
pub open spec fn all_tasks(workspaces: Seq<Workspace>) -> Seq<TaskView>
    decreases workspaces.len(),
{
    if workspaces.len() == 0 {
        Seq::empty()
    } else {
        all_tasks(workspaces.drop_last()) + task_views(workspaces.last().tasks@)
    }
}

/// Copies of the tasks of all workspaces, workspace by workspace, in order.
pub fn tasks_of(workspaces: &[Workspace]) -> (r: Vec<Task>)
    ensures
        task_views(r@) == all_tasks(workspaces@),
{
    let mut r: Vec<Task> = Vec::new();
    let mut i: usize = 0;
    assert(workspaces@.take(0) =~= Seq::<Workspace>::empty());
    while i < workspaces.len()
        invariant
            i <= workspaces@.len(),
            task_views(r@) == all_tasks(workspaces@.take(i as int)),
        decreases workspaces@.len() - i,
    {
        let tasks = &workspaces[i].tasks;
        let ghost start = r@;
        let mut k: usize = 0;
        while k < tasks.len()
            invariant
                k <= tasks@.len(),
                task_views(r@) =~= task_views(start) + task_views(tasks@).take(k as int),
            decreases tasks@.len() - k,
        {
            let ghost before = r@;
            r.push(tasks[k].clone());
            assert(task_views(r@) =~= task_views(before).push(tasks@[k as int]@));
            assert(task_views(tasks@).take(k + 1) =~= task_views(tasks@).take(k as int).push(
                tasks@[k as int]@,
            ));
            k = k + 1;
        }
        assert(task_views(tasks@).take(k as int) =~= task_views(tasks@));
        assert(workspaces@.take(i + 1).drop_last() =~= workspaces@.take(i as int));
        assert(workspaces@.take(i + 1).last() == workspaces@[i as int]);
        i = i + 1;
    }
    assert(workspaces@.take(i as int) =~= workspaces@);
    r
}

} // verus!

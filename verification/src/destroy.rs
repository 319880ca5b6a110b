//! Tearing a workspace down: the working trees beside the repositories go first, in one
//! batch that goes on past single failures, then the shared directory. A teardown is the last
//! thing done to a workspace and does what it can: neither a failure in removing the trees
//! nor one in removing the shared directory fails it.

use crate::disk::{
    within, Action, ActionView, Disk, Outcome, OutcomeView, Progress, ProgressView,
};
use crate::path::worktree_path;
use crate::workspace::{Repo, RepoView, WorktreeCleanup, WorktreeCleanupView};
use crate::workspace_manager::WorkspaceManager;
use vstd::prelude::*;

verus! {

/// What a teardown is waiting for.
#[derive(Clone, Copy, Debug, PartialEq, Eq, Structural)]
pub enum CleanupPhase {
    /// The working trees are being removed.
    RemovingTrees,
    /// The shared directory is being looked at.
    CheckingDir,
    /// The shared directory is being removed.
    RemovingDir,
}

/// A teardown under way.
#[derive(Debug)]
pub struct CleanupWorkspace {
    workspace_dir: String,
    phase: CleanupPhase,
}

/// The mathematical value of a [`CleanupWorkspace`].
pub struct CleanupWorkspaceView {
    pub workspace_dir: Seq<char>,
    pub phase: CleanupPhase,
}

impl View for CleanupWorkspace {
    type V = CleanupWorkspaceView;

    closed spec fn view(&self) -> CleanupWorkspaceView {
        CleanupWorkspaceView { workspace_dir: self.workspace_dir@, phase: self.phase }
    }
}

/// The removal orders for the working trees of `repos` on `branch`: one for each repository,
/// in their order, each naming the tree beside the repository and the repository itself.
pub open spec fn cleanup_targets(repos: Seq<RepoView>, branch: Seq<char>) -> Seq<
    WorktreeCleanupView,
> {
    Seq::new(
        repos.len(),
        |i: int|
            WorktreeCleanupView {
                worktree_path: worktree_path(repos[i].path, branch),
                git_repo_path: Some(repos[i].path),
            },
    )
}

impl CleanupWorkspaceView {
    /// What the teardown does after the outcome of the action it last asked for.
    pub open spec fn next(self, outcome: OutcomeView) -> ProgressView<CleanupWorkspaceView, ()> {
        match self.phase {
            CleanupPhase::RemovingTrees => ProgressView::Perform {
                machine: CleanupWorkspaceView { phase: CleanupPhase::CheckingDir, ..self },
                action: ActionView::Inspect { path: self.workspace_dir },
            },
            CleanupPhase::CheckingDir => if outcome.state().exists {
                ProgressView::Perform {
                    machine: CleanupWorkspaceView { phase: CleanupPhase::RemovingDir, ..self },
                    action: ActionView::RemoveDirAll { path: self.workspace_dir },
                }
            } else {
                ProgressView::Finished { value: () }
            },
            CleanupPhase::RemovingDir => ProgressView::Finished { value: () },
        }
    }
}

/// How the teardown of the workspace of `repos` on `branch` under `workspace_dir` begins: by
/// removing the working trees.
pub open spec fn cleanup_start(
    workspace_dir: Seq<char>,
    repos: Seq<RepoView>,
    branch: Seq<char>,
) -> ProgressView<CleanupWorkspaceView, ()> {
    ProgressView::Perform {
        machine: CleanupWorkspaceView { workspace_dir, phase: CleanupPhase::RemovingTrees },
        action: ActionView::BatchCleanup { targets: cleanup_targets(repos, branch) },
    }
}

/// The removal orders for the working trees of `repos` on `branch`.
pub fn worktree_cleanups(repos: &Vec<Repo>, branch_name: &str) -> (r: Vec<WorktreeCleanup>)
    ensures
        r.deep_view() == cleanup_targets(repos.deep_view(), branch_name@),
{
    let mut targets: Vec<WorktreeCleanup> = Vec::new();
    let mut i: usize = 0;
    while i < repos.len()
        invariant
            i <= repos.len(),
            targets.len() == i,
            forall|j: int|
                0 <= j < i ==> targets[j]@ == cleanup_targets(repos.deep_view(), branch_name@)[j],
        decreases repos.len() - i,
    {
        let repo = &repos[i];
        assert(repos.deep_view()[i as int] == repo@);
        targets.push(
            WorktreeCleanup::new(
                WorkspaceManager::compute_worktree_path(repo.path.as_str(), branch_name),
                Some(repo.path.clone()),
            ),
        );
        i += 1;
    }
    assert(targets.deep_view() =~= cleanup_targets(repos.deep_view(), branch_name@));
    targets
}

impl CleanupWorkspace {
    /// Begins a teardown; see [`cleanup_start`].
    pub(crate) fn start(workspace_dir: &str, repos: &Vec<Repo>, branch_name: &str) -> (r: Progress<
        CleanupWorkspace,
        (),
    >)
        ensures
            r@ == cleanup_start(workspace_dir@, repos.deep_view(), branch_name@),
    {
        Progress::Perform {
            machine: CleanupWorkspace {
                workspace_dir: String::from_str(workspace_dir),
                phase: CleanupPhase::RemovingTrees,
            },
            action: Action::BatchCleanup { targets: worktree_cleanups(repos, branch_name) },
        }
    }

    /// Takes the outcome of the action last asked for and says what comes next.
    pub fn resume(self, outcome: &Outcome) -> (r: Progress<CleanupWorkspace, ()>)
        ensures
            r@ == self@.next(outcome@),
    {
        match self.phase {
            CleanupPhase::RemovingTrees => {
                let action = Action::Inspect { path: self.workspace_dir.clone() };
                Progress::Perform {
                    machine: CleanupWorkspace { phase: CleanupPhase::CheckingDir, ..self },
                    action,
                }
            },
            CleanupPhase::CheckingDir => {
                let exists = match outcome {
                    Outcome::Inspected { state } => state.exists,
                    _ => false,
                };
                if exists {
                    let action = Action::RemoveDirAll { path: self.workspace_dir.clone() };
                    Progress::Perform {
                        machine: CleanupWorkspace { phase: CleanupPhase::RemovingDir, ..self },
                        action,
                    }
                } else {
                    Progress::Finished { value: () }
                }
            },
            CleanupPhase::RemovingDir => Progress::Finished { value: () },
        }
    }
}

/// How the outside world answers a teardown: the outcome of the action that the teardown
/// asks for in a given state, on a given disk.
pub type CleanupScript = spec_fn(CleanupWorkspaceView, ActionView, Disk) -> OutcomeView;

/// The world in which nothing goes wrong: an inspection tells what is there, everything else
/// is done.
pub open spec fn all_goes_well() -> CleanupScript {
    |m: CleanupWorkspaceView, action: ActionView, disk: Disk| action.smooth_outcome(disk)
}

/// The teardown `p` played on `disk` against `script` for at most `fuel` actions: where it
/// stands then, and the disk it leaves.
pub open spec fn play_cleanup(
    p: ProgressView<CleanupWorkspaceView, ()>,
    disk: Disk,
    script: CleanupScript,
    fuel: nat,
) -> (ProgressView<CleanupWorkspaceView, ()>, Disk)
    decreases fuel,
{
    match p {
        ProgressView::Perform { machine, action } => if fuel == 0 {
            (p, disk)
        } else {
            let outcome = script(machine, action, disk);
            play_cleanup(
                machine.next(outcome),
                action.applied(outcome, disk),
                script,
                (fuel - 1) as nat,
            )
        },
        _ => (p, disk),
    }
}

/// The world `script` tells truly what it finds at the shared directory and removes the
/// directory when asked; what becomes of the working trees is left open.
pub open spec fn removes_directory(script: CleanupScript) -> bool {
    forall|m: CleanupWorkspaceView, action: ActionView, disk: Disk|
        {
            let outcome = #[trigger] script(m, action, disk);
            &&& action matches ActionView::Inspect { path } ==> outcome == (OutcomeView::Inspected {
                state: disk.observe(path),
            })
            &&& action is RemoveDirAll ==> !(outcome is Failed)
        }
}

/// A teardown never fails.
///
/// Whatever becomes of the working trees and of the shared directory, the teardown ends
/// well, after three actions at most.
pub proof fn lemma_teardown_never_fails(
    workspace_dir: Seq<char>,
    repos: Seq<RepoView>,
    branch: Seq<char>,
    disk: Disk,
    script: CleanupScript,
    fuel: nat,
)
    requires
        fuel >= 3,
    ensures
        play_cleanup(cleanup_start(workspace_dir, repos, branch), disk, script, fuel).0 == (
        ProgressView::<CleanupWorkspaceView, ()>::Finished { value: () }),
{
    reveal_with_fuel(play_cleanup, 4);
}

/// A failure in removing the working trees does not keep the shared directory.
///
/// Let the removal of the working trees turn out in any way. Where a directory is found at
/// the place of the shared directory afterwards and its removal is done, it is gone when the
/// teardown ends.
pub proof fn lemma_teardown_removes_directory(
    workspace_dir: Seq<char>,
    repos: Seq<RepoView>,
    branch: Seq<char>,
    disk: Disk,
    script: CleanupScript,
    fuel: nat,
)
    requires
        removes_directory(script),
        fuel >= 3,
    ensures
        ({
            let start = cleanup_start(workspace_dir, repos, branch);
            let batch = script(start->machine, start->action, disk);
            let cleared = start->action.applied(batch, disk);
            let after = play_cleanup(start, disk, script, fuel).1;
            cleared.observe(workspace_dir).is_dir ==> !after.has(workspace_dir)
        }),
{
    reveal_with_fuel(play_cleanup, 4);
    assert(within(workspace_dir, workspace_dir));
}

/// A teardown in which every action succeeds leaves nothing of the workspace.
///
/// On any disk the teardown ends well. On the disk it leaves, no working tree of the
/// workspace lies beside its repository, the shared directory is gone where a directory was
/// found at its place, and whatever is there was there before, unchanged.
pub proof fn lemma_teardown_leaves_nothing(
    workspace_dir: Seq<char>,
    repos: Seq<RepoView>,
    branch: Seq<char>,
    disk: Disk,
    fuel: nat,
)
    requires
        fuel >= 3,
    ensures
        ({
            let (end, after) = play_cleanup(
                cleanup_start(workspace_dir, repos, branch),
                disk,
                all_goes_well(),
                fuel,
            );
            &&& end == (ProgressView::<CleanupWorkspaceView, ()>::Finished { value: () })
            &&& forall|i: int|
                0 <= i < repos.len() ==> !after.has(
                    #[trigger] worktree_path(repos[i].path, branch),
                )
            &&& disk.without_trees(cleanup_targets(repos, branch)).observe(workspace_dir).is_dir
                ==> !after.has(workspace_dir)
            &&& after.nodes.submap_of(disk.nodes)
        }),
{
    reveal_with_fuel(play_cleanup, 4);
    let targets = cleanup_targets(repos, branch);
    lemma_batch_removes_all(disk, targets);
    let cleared = disk.without_trees(targets);
    assert(within(workspace_dir, workspace_dir));
    assert forall|i: int| 0 <= i < repos.len() implies !cleared.has(
        #[trigger] worktree_path(repos[i].path, branch),
    ) by {
        assert(targets[i].worktree_path == worktree_path(repos[i].path, branch));
    }
    let after = play_cleanup(
        cleanup_start(workspace_dir, repos, branch),
        disk,
        all_goes_well(),
        fuel,
    ).1;
    assert(after == cleared || after == cleared.without(workspace_dir) || after
        == cleared.without_tree(workspace_dir));
    assert(after.nodes.submap_of(cleared.nodes));
    assert forall|i: int| 0 <= i < repos.len() implies !after.has(
        #[trigger] worktree_path(repos[i].path, branch),
    ) by {
        assert(!cleared.has(worktree_path(repos[i].path, branch)));
    }
    vstd::map_lib::lemma_submap_of_trans(after.nodes, cleared.nodes, disk.nodes);
    assert(cleared.observe(workspace_dir).is_dir ==> !after.has(workspace_dir));
}

/// Removing a batch of working trees leaves none of them, and puts nothing on the disk.
pub proof fn lemma_batch_removes_all(disk: Disk, targets: Seq<WorktreeCleanupView>)
    ensures
        forall|i: int|
            0 <= i < targets.len() ==> !disk.without_trees(targets).has(
                (#[trigger] targets[i]).worktree_path,
            ),
        disk.without_trees(targets).nodes.submap_of(disk.nodes),
    decreases targets.len(),
{
    if targets.len() > 0 {
        let front = targets.drop_last();
        let last = targets.last().worktree_path;
        lemma_batch_removes_all(disk, front);
        assert(within(last, last));
        assert forall|i: int| 0 <= i < targets.len() implies !disk.without_trees(targets).has(
            (#[trigger] targets[i]).worktree_path,
        ) by {
            if i < targets.len() - 1 {
                assert(front[i] == targets[i]);
            }
        }
    }
}

} // verus!

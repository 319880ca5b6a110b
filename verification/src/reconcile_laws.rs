//! A repair settles the workspace, and a settled workspace is left alone: the second of two
//! repairs in a row changes nothing.
//!
//! The laws speak of a repair played against the modelled disk, with every action performed
//! where it can be and answered truthfully. Where nothing stands in the way, a repair leaves
//! the workspace settled; on any disk it leaves the workspace mended, which is settled but for
//! the files that lie where a link belongs, or it fails at once; and on any disk the repair
//! after it changes nothing.

use crate::disk::{
    lemma_entries_apart, lemma_entry_lies_below, within, ActionView, Disk, Node, OutcomeView,
    ProgressView,
};
use crate::path::{is_plain_name, join_path, worktree_path};
use crate::reconcile::{
    ensure_start, legacy_state_of, EnsurePhase, EnsureWorkspaceView, LegacyState,
};
use crate::workspace::{RepoView, WorkspaceErrorView};
use vstd::prelude::*;

verus! {

/// A repair, or how it ended.
pub type EnsureProgressView = ProgressView<EnsureWorkspaceView, ()>;

/// How the outside world answers a repair: the outcome of the action that the repair asks
/// for in a given state, on a given disk.
pub type EnsureScript = spec_fn(EnsureWorkspaceView, ActionView, Disk) -> OutcomeView;

/// The world in which nothing goes wrong: an inspection tells what is there, everything else
/// is done.
pub open spec fn all_goes_well() -> EnsureScript {
    |m: EnsureWorkspaceView, action: ActionView, disk: Disk| action.smooth_outcome(disk)
}

/// The repair `p` played on `disk` against `script` for at most `fuel` actions: where it
/// stands then, and the disk it leaves.
pub open spec fn play_ensure(
    p: EnsureProgressView,
    disk: Disk,
    script: EnsureScript,
    fuel: nat,
) -> (EnsureProgressView, Disk)
    decreases fuel,
{
    match p {
        ProgressView::Perform { machine, action } => if fuel == 0 {
            (p, disk)
        } else {
            let outcome = script(machine, action, disk);
            play_ensure(
                machine.next(outcome),
                action.applied(outcome, disk),
                script,
                (fuel - 1) as nat,
            )
        },
        _ => (p, disk),
    }
}

/// The actions that the repair `p` asks for, in their order, when it is played on `disk`
/// against `script` for at most `fuel` actions.
pub open spec fn asked_ensure(
    p: EnsureProgressView,
    disk: Disk,
    script: EnsureScript,
    fuel: nat,
) -> Seq<ActionView>
    decreases fuel,
{
    match p {
        ProgressView::Perform { machine, action } => if fuel == 0 {
            Seq::empty()
        } else {
            let outcome = script(machine, action, disk);
            seq![action] + asked_ensure(
                machine.next(outcome),
                action.applied(outcome, disk),
                script,
                (fuel - 1) as nat,
            )
        },
        _ => Seq::empty(),
    }
}

/// Where the working tree of repository `i` belongs.
pub open spec fn sibling_at(repos: Seq<RepoView>, branch: Seq<char>, i: int) -> Seq<char> {
    worktree_path(repos[i].path, branch)
}

/// Where the link of repository `i` belongs.
pub open spec fn slot_at(workspace_dir: Seq<char>, repos: Seq<RepoView>, i: int) -> Seq<char> {
    join_path(workspace_dir, repos[i].name)
}

/// The places of the workspace keep out of each other's way: no working tree and no other
/// link lies at or below the place of a link, nor does the shared directory, and no working
/// tree lies at the shared directory.
pub open spec fn slots_apart(
    workspace_dir: Seq<char>,
    repos: Seq<RepoView>,
    branch: Seq<char>,
) -> bool {
    &&& forall|i: int, j: int|
        0 <= i < repos.len() && 0 <= j < repos.len() ==> !within(
            #[trigger] sibling_at(repos, branch, j),
            #[trigger] slot_at(workspace_dir, repos, i),
        )
    &&& forall|i: int, j: int|
        0 <= i < repos.len() && 0 <= j < repos.len() && i != j ==> !within(
            #[trigger] slot_at(workspace_dir, repos, j),
            #[trigger] slot_at(workspace_dir, repos, i),
        )
    &&& forall|i: int|
        0 <= i < repos.len() ==> !within(workspace_dir, #[trigger] slot_at(workspace_dir, repos, i))
    &&& forall|j: int|
        0 <= j < repos.len() ==> #[trigger] sibling_at(repos, branch, j) != workspace_dir
}

/// Nothing on `disk` stands in the way of the repair: what lies at the shared directory, if
/// anything, is a directory, and no file lies at the place of a link. (A link or a directory
/// at the place of a link is removed by the repair; a file is not.)
pub open spec fn site_fit(disk: Disk, workspace_dir: Seq<char>, repos: Seq<RepoView>) -> bool {
    &&& disk.has(workspace_dir) ==> disk.nodes[workspace_dir] is Directory
    &&& forall|j: int|
        0 <= j < repos.len() ==> !(disk.has(#[trigger] slot_at(workspace_dir, repos, j))
            && disk.nodes[slot_at(workspace_dir, repos, j)] is File)
}

/// The workspace is settled on `disk` for the first `upto` repositories: the shared directory
/// is there, and each of them has its working tree beside it and its link pointing there.
pub open spec fn settled(
    disk: Disk,
    workspace_dir: Seq<char>,
    repos: Seq<RepoView>,
    branch: Seq<char>,
    upto: int,
) -> bool {
    &&& disk.has_directory(workspace_dir)
    &&& forall|j: int|
        0 <= j < upto ==> disk.has_worktree(#[trigger] sibling_at(repos, branch, j))
    &&& forall|j: int|
        0 <= j < upto ==> disk.has_link(
            #[trigger] slot_at(workspace_dir, repos, j),
            sibling_at(repos, branch, j),
        )
}

/// The repair `m`, about to ask for `action`, has settled the repositories before `m.index`
/// on `disk`.
pub open spec fn repairing(m: EnsureWorkspaceView, action: ActionView, disk: Disk) -> bool {
    let n = m.repos.len() as int;
    let tree = m.tree_path(m.index);
    let slot = m.link_path(m.index);
    &&& slots_apart(m.workspace_dir, m.repos, m.branch)
    &&& site_fit(disk, m.workspace_dir, m.repos)
    &&& match m.phase {
        EnsurePhase::CheckingDir => action == (ActionView::Inspect { path: m.workspace_dir }),
        EnsurePhase::MakingDir => action == (ActionView::CreateDirAll { path: m.workspace_dir }),
        _ => {
            &&& 0 <= m.index < n
            &&& settled(disk, m.workspace_dir, m.repos, m.branch, m.index)
            &&& match m.phase {
                EnsurePhase::Detecting => action == m.inspect_link(),
                EnsurePhase::Migrating => action == m.move_tree(),
                EnsurePhase::Discarding => action == (ActionView::RemoveDirAll { path: slot }),
                EnsurePhase::Ensuring => action == m.ensure_tree(),
                EnsurePhase::Rechecking => action == m.inspect_link() && disk.has_worktree(tree),
                EnsurePhase::Clearing => {
                    &&& disk.has(slot)
                    &&& if disk.nodes[slot] is Link {
                        action == (ActionView::RemoveFile { path: slot })
                    } else {
                        action == (ActionView::RemoveDirAll { path: slot })
                    }
                    &&& disk.has_worktree(tree)
                },
                _ => action == m.make_link() && disk.has_worktree(tree) && !disk.has(slot),
            }
        },
    }
}

/// The number of actions that the repair `m` still asks for, at most.
pub open spec fn repairs_left(m: EnsureWorkspaceView) -> int {
    let n = m.repos.len() as int;
    let rest = 7 * (n - m.index);
    match m.phase {
        EnsurePhase::CheckingDir => 7 * n + 2,
        EnsurePhase::MakingDir => 7 * n + 1,
        EnsurePhase::Detecting => rest,
        EnsurePhase::Migrating => rest - 1,
        EnsurePhase::Discarding => rest - 2,
        EnsurePhase::Ensuring => rest - 3,
        EnsurePhase::Rechecking => rest - 4,
        EnsurePhase::Clearing => rest - 5,
        EnsurePhase::Linking => rest - 6,
    }
}

/// A settled workspace stays settled where something is put or removed that keeps out of its
/// way.
pub proof fn lemma_settled_kept(
    disk: Disk,
    after: Disk,
    workspace_dir: Seq<char>,
    repos: Seq<RepoView>,
    branch: Seq<char>,
    upto: int,
)
    requires
        settled(disk, workspace_dir, repos, branch, upto),
        after.has_directory(workspace_dir),
        forall|j: int|
            0 <= j < upto ==> after.has(#[trigger] sibling_at(repos, branch, j))
                && after.nodes[sibling_at(repos, branch, j)] == disk.nodes[sibling_at(
                repos,
                branch,
                j,
            )],
        forall|j: int|
            0 <= j < upto ==> after.has(#[trigger] slot_at(workspace_dir, repos, j))
                && after.nodes[slot_at(workspace_dir, repos, j)] == disk.nodes[slot_at(
                workspace_dir,
                repos,
                j,
            )],
    ensures
        settled(after, workspace_dir, repos, branch, upto),
{
    assert forall|j: int| 0 <= j < upto implies after.has_worktree(
        #[trigger] sibling_at(repos, branch, j),
    ) by {
        assert(disk.has_worktree(sibling_at(repos, branch, j)));
    }
    assert forall|j: int| 0 <= j < upto implies after.has_link(
        #[trigger] slot_at(workspace_dir, repos, j),
        sibling_at(repos, branch, j),
    ) by {
        assert(disk.has_link(slot_at(workspace_dir, repos, j), sibling_at(repos, branch, j)));
    }
}

/// One action of a repair leaves the repositories before its own settled, and ends the
/// repair only with all of them settled.
pub proof fn lemma_repair_kept(m: EnsureWorkspaceView, action: ActionView, disk: Disk)
    requires
        repairing(m, action, disk),
    ensures
        ({
            let outcome = action.smooth_outcome(disk);
            let after = action.applied(outcome, disk);
            match m.next(outcome) {
                ProgressView::Perform { machine, action: then } => {
                    &&& repairing(machine, then, after)
                    &&& machine.workspace_dir == m.workspace_dir
                    &&& machine.repos == m.repos
                    &&& machine.branch == m.branch
                    &&& repairs_left(machine) < repairs_left(m)
                },
                ProgressView::Finished { .. } => settled(
                    after,
                    m.workspace_dir,
                    m.repos,
                    m.branch,
                    m.repos.len() as int,
                ),
                ProgressView::Failed { .. } => false,
            }
        }),
{
    let n = m.repos.len() as int;
    let dir = m.workspace_dir;
    let outcome = action.smooth_outcome(disk);
    let after = action.applied(outcome, disk);
    let i = m.index;
    let tree = sibling_at(m.repos, m.branch, i);
    let slot = slot_at(dir, m.repos, i);
    assert forall|j: int| 0 <= j < n implies !(after.has(#[trigger] slot_at(dir, m.repos, j))
        && after.nodes[slot_at(dir, m.repos, j)] is File) by {
        let place = slot_at(dir, m.repos, j);
        assert(!(disk.has(place) && disk.nodes[place] is File));
    }
    match m.phase {
        EnsurePhase::CheckingDir => {
            assert(after == disk);
            if outcome.state().exists {
                assert(disk.has(dir));
                assert(settled(after, dir, m.repos, m.branch, 0));
            }
        },
        EnsurePhase::MakingDir => {
            assert(settled(after, dir, m.repos, m.branch, 0));
        },
        EnsurePhase::Detecting => {
            assert(after == disk);
        },
        EnsurePhase::Rechecking => {
            assert(after == disk);
            assert(!(disk.has(slot) && disk.nodes[slot] is File));
            if legacy_state_of(outcome.state(), tree) == LegacyState::Current {
                assert(disk.has_link(slot, tree));
                assert(settled(disk, dir, m.repos, m.branch, i + 1));
            }
        },
        _ => {
            assert(within(slot, slot));
            assert(!within(dir, slot_at(dir, m.repos, i)));
            assert(tree != dir);
            assert forall|j: int| 0 <= j < i implies after.has(
                #[trigger] sibling_at(m.repos, m.branch, j),
            ) && after.nodes[sibling_at(m.repos, m.branch, j)] == disk.nodes[sibling_at(
                m.repos,
                m.branch,
                j,
            )] by {
                let other = sibling_at(m.repos, m.branch, j);
                assert(disk.has_worktree(other));
                assert(!within(other, slot_at(dir, m.repos, i)));
            }
            assert forall|j: int| 0 <= j < i implies after.has(
                #[trigger] slot_at(dir, m.repos, j),
            ) && after.nodes[slot_at(dir, m.repos, j)] == disk.nodes[slot_at(dir, m.repos, j)] by {
                let other = slot_at(dir, m.repos, j);
                assert(disk.has_link(other, sibling_at(m.repos, m.branch, j)));
                assert(!within(other, slot_at(dir, m.repos, i)));
                assert(!within(sibling_at(m.repos, m.branch, i), slot_at(dir, m.repos, j)));
                assert(within(other, other));
            }
            assert(after.has_directory(dir));
            lemma_settled_kept(disk, after, dir, m.repos, m.branch, i);
            assert(!within(sibling_at(m.repos, m.branch, i), slot_at(dir, m.repos, i)));
            if m.phase == EnsurePhase::Linking {
                assert(after == disk.with(slot, Node::Link { target: tree }));
                assert(after.has_worktree(tree));
                assert(settled(after, dir, m.repos, m.branch, i + 1)) by {
                    assert forall|j: int| 0 <= j < i + 1 implies after.has_worktree(
                        #[trigger] sibling_at(m.repos, m.branch, j),
                    ) by {}
                    assert forall|j: int| 0 <= j < i + 1 implies after.has_link(
                        #[trigger] slot_at(dir, m.repos, j),
                        sibling_at(m.repos, m.branch, j),
                    ) by {}
                }
            }
        },
    }
}

/// A repair played to its end ends well and leaves the workspace settled.
pub proof fn lemma_repair_ends_settled(
    m: EnsureWorkspaceView,
    action: ActionView,
    disk: Disk,
    fuel: nat,
)
    requires
        repairing(m, action, disk),
        fuel >= repairs_left(m),
    ensures
        ({
            let (end, after) = play_ensure(
                ProgressView::Perform { machine: m, action },
                disk,
                all_goes_well(),
                fuel,
            );
            &&& end == (EnsureProgressView::Finished { value: () })
            &&& settled(after, m.workspace_dir, m.repos, m.branch, m.repos.len() as int)
        }),
    decreases fuel,
{
    lemma_repair_kept(m, action, disk);
    let outcome = action.smooth_outcome(disk);
    assert(all_goes_well()(m, action, disk) == outcome);
    reveal_with_fuel(play_ensure, 2);
    assert(fuel > 0);
    match m.next(outcome) {
        ProgressView::Perform { machine, action: then } => {
            lemma_repair_ends_settled(
                machine,
                then,
                action.applied(outcome, disk),
                (fuel - 1) as nat,
            );
        },
        _ => {},
    }
}

/// The repair `m`, about to ask for `action`, finds the workspace settled on `disk`.
pub open spec fn idling(m: EnsureWorkspaceView, action: ActionView, disk: Disk) -> bool {
    let n = m.repos.len() as int;
    &&& settled(disk, m.workspace_dir, m.repos, m.branch, n)
    &&& match m.phase {
        EnsurePhase::CheckingDir => action == (ActionView::Inspect { path: m.workspace_dir }),
        EnsurePhase::MakingDir => action == (ActionView::CreateDirAll { path: m.workspace_dir }),
        EnsurePhase::Detecting => 0 <= m.index < n && action == m.inspect_link(),
        EnsurePhase::Ensuring => 0 <= m.index < n && action == m.ensure_tree(),
        EnsurePhase::Rechecking => 0 <= m.index < n && action == m.inspect_link(),
        _ => false,
    }
}

/// One action of a repair that finds the workspace settled changes nothing.
pub proof fn lemma_idle_kept(m: EnsureWorkspaceView, action: ActionView, disk: Disk)
    requires
        idling(m, action, disk),
    ensures
        ({
            let outcome = action.smooth_outcome(disk);
            &&& action.applied(outcome, disk) == disk
            &&& match m.next(outcome) {
                ProgressView::Perform { machine, action: then } => {
                    &&& idling(machine, then, disk)
                    &&& repairs_left(machine) < repairs_left(m)
                },
                ProgressView::Finished { .. } => true,
                ProgressView::Failed { .. } => false,
            }
        }),
{
    let outcome = action.smooth_outcome(disk);
    let after = action.applied(outcome, disk);
    let tree = sibling_at(m.repos, m.branch, m.index);
    let slot = slot_at(m.workspace_dir, m.repos, m.index);
    match m.phase {
        EnsurePhase::Ensuring => {
            assert(disk.has_worktree(tree));
            assert(after.nodes =~= disk.nodes);
        },
        EnsurePhase::Detecting => {
            assert(disk.has_link(slot, tree));
        },
        EnsurePhase::Rechecking => {
            assert(disk.has_link(slot, tree));
        },
        EnsurePhase::MakingDir => {
            assert(after.nodes =~= disk.nodes);
        },
        _ => {},
    }
}

/// A repair that finds the workspace settled ends well and leaves the disk as it was.
pub proof fn lemma_idle_ends(m: EnsureWorkspaceView, action: ActionView, disk: Disk, fuel: nat)
    requires
        idling(m, action, disk),
        fuel >= repairs_left(m),
    ensures
        play_ensure(
                ProgressView::Perform { machine: m, action },
                disk,
                all_goes_well(),
                fuel,
            ) == (
            EnsureProgressView::Finished { value: () },
            disk,
        ),
    decreases fuel,
{
    lemma_idle_kept(m, action, disk);
    let outcome = action.smooth_outcome(disk);
    assert(all_goes_well()(m, action, disk) == outcome);
    reveal_with_fuel(play_ensure, 2);
    assert(fuel > 0);
    match m.next(outcome) {
        ProgressView::Perform { machine, action: then } => {
            lemma_idle_ends(machine, then, disk, (fuel - 1) as nat);
        },
        _ => {},
    }
}

/// A repair in which every action succeeds settles the workspace.
///
/// Let the places of the workspace keep out of each other's way. Then on any disk on which
/// nothing stands in its way (what lies at the shared directory is a directory, and no file
/// lies at the place of a link) the repair ends well, and on the disk it leaves the shared
/// directory is there and every repository has its working tree beside it and, in the shared
/// directory, its link pointing there. Without repositories the repair makes sure of the
/// shared directory and ends.
pub proof fn lemma_repair_settles(
    workspace_dir: Seq<char>,
    repos: Seq<RepoView>,
    branch: Seq<char>,
    disk: Disk,
    fuel: nat,
)
    requires
        slots_apart(workspace_dir, repos, branch),
        site_fit(disk, workspace_dir, repos),
        fuel >= 7 * repos.len() + 2,
    ensures
        ({
            let (end, after) = play_ensure(
                ensure_start(workspace_dir, repos, branch),
                disk,
                all_goes_well(),
                fuel,
            );
            &&& end == (EnsureProgressView::Finished { value: () })
            &&& settled(after, workspace_dir, repos, branch, repos.len() as int)
        }),
{
    match ensure_start(workspace_dir, repos, branch) {
        ProgressView::Perform { machine, action } => {
            lemma_repair_ends_settled(machine, action, disk, fuel);
        },
        _ => {},
    }
}

/// A repair of a settled workspace changes nothing.
///
/// Where the shared directory is there and every repository has its working tree beside it
/// and its link pointing there, the repair ends well and leaves the disk exactly as it found
/// it.
pub proof fn lemma_repair_of_settled_is_idle(
    workspace_dir: Seq<char>,
    repos: Seq<RepoView>,
    branch: Seq<char>,
    disk: Disk,
    fuel: nat,
)
    requires
        settled(disk, workspace_dir, repos, branch, repos.len() as int),
        fuel >= 7 * repos.len() + 2,
    ensures
        play_ensure(
                ensure_start(workspace_dir, repos, branch),
                disk,
                all_goes_well(),
                fuel,
            ) == (
            EnsureProgressView::Finished { value: () },
            disk,
        ),
{
    match ensure_start(workspace_dir, repos, branch) {
        ProgressView::Perform { machine, action } => {
            lemma_idle_ends(machine, action, disk, fuel);
        },
        _ => {},
    }
}

/// The second of two repairs in a row changes nothing.
///
/// Let the places of the workspace keep out of each other's way. Play the repair on any disk
/// on which nothing stands in its way, then play it again with the same inputs on the disk
/// that the first left. Both end well, and the second leaves the disk as the first left it.
pub proof fn lemma_second_repair_changes_nothing(
    workspace_dir: Seq<char>,
    repos: Seq<RepoView>,
    branch: Seq<char>,
    disk: Disk,
    fuel: nat,
)
    requires
        slots_apart(workspace_dir, repos, branch),
        site_fit(disk, workspace_dir, repos),
        fuel >= 7 * repos.len() + 2,
    ensures
        ({
            let start = ensure_start(workspace_dir, repos, branch);
            let first = play_ensure(start, disk, all_goes_well(), fuel);
            let second = play_ensure(start, first.1, all_goes_well(), fuel);
            &&& first.0 == (EnsureProgressView::Finished { value: () })
            &&& second.0 == (EnsureProgressView::Finished { value: () })
            &&& second.1 == first.1
        }),
{
    lemma_repair_settles(workspace_dir, repos, branch, disk, fuel);
    let first = play_ensure(
                ensure_start(workspace_dir, repos, branch),
                disk,
                all_goes_well(),
                fuel,
            );
    lemma_repair_of_settled_is_idle(workspace_dir, repos, branch, first.1, fuel);
}

/// No link lies at `path` on `disk`.
pub open spec fn no_link_at(disk: Disk, path: Seq<char>) -> bool {
    !(disk.has(path) && disk.nodes[path] is Link)
}

/// At `slot` lies the link to `tree`, or a file, which a repair leaves alone.
pub open spec fn filled(disk: Disk, slot: Seq<char>, tree: Seq<char>) -> bool {
    disk.has_link(slot, tree) || (disk.has(slot) && disk.nodes[slot] is File)
}

/// The workspace is mended on `disk` for the first `upto` repositories: each of them has its
/// working tree beside it, and at the place of its link lies the link pointing there, or a
/// file.
pub open spec fn mended(
    disk: Disk,
    workspace_dir: Seq<char>,
    repos: Seq<RepoView>,
    branch: Seq<char>,
    upto: int,
) -> bool {
    &&& forall|j: int|
        0 <= j < upto ==> disk.has_worktree(#[trigger] sibling_at(repos, branch, j))
    &&& forall|j: int|
        0 <= j < upto ==> filled(
            disk,
            #[trigger] slot_at(workspace_dir, repos, j),
            sibling_at(repos, branch, j),
        )
}

/// The repair `m`, about to ask for `action`, has mended the repositories before `m.index`
/// on `disk`, whatever lay there.
pub open spec fn mending(m: EnsureWorkspaceView, action: ActionView, disk: Disk) -> bool {
    let n = m.repos.len() as int;
    let tree = m.tree_path(m.index);
    let slot = m.link_path(m.index);
    &&& slots_apart(m.workspace_dir, m.repos, m.branch)
    &&& match m.phase {
        EnsurePhase::CheckingDir => action == (ActionView::Inspect { path: m.workspace_dir }),
        EnsurePhase::MakingDir => action == (ActionView::CreateDirAll { path: m.workspace_dir }),
        _ => {
            &&& 0 <= m.index < n
            &&& disk.has(m.workspace_dir)
            &&& mended(disk, m.workspace_dir, m.repos, m.branch, m.index)
            &&& match m.phase {
                EnsurePhase::Detecting => action == m.inspect_link(),
                EnsurePhase::Migrating => action == m.move_tree(),
                EnsurePhase::Discarding => action == (ActionView::RemoveDirAll { path: slot }),
                EnsurePhase::Ensuring => action == m.ensure_tree(),
                EnsurePhase::Rechecking => action == m.inspect_link() && disk.has_worktree(tree),
                EnsurePhase::Clearing => {
                    &&& disk.has(slot)
                    &&& if disk.nodes[slot] is Link {
                        action == (ActionView::RemoveFile { path: slot })
                    } else {
                        action == (ActionView::RemoveDirAll { path: slot })
                    }
                    &&& disk.has_worktree(tree)
                },
                _ => {
                    &&& action == m.make_link()
                    &&& disk.has_worktree(tree)
                    &&& disk.has(slot) ==> disk.nodes[slot] is File
                },
            }
        },
    }
}

/// A mended workspace stays mended where something is put or removed that keeps out of its
/// way.
pub proof fn lemma_mended_kept(
    disk: Disk,
    after: Disk,
    workspace_dir: Seq<char>,
    repos: Seq<RepoView>,
    branch: Seq<char>,
    upto: int,
)
    requires
        mended(disk, workspace_dir, repos, branch, upto),
        forall|j: int|
            0 <= j < upto ==> after.has(#[trigger] sibling_at(repos, branch, j))
                && after.nodes[sibling_at(repos, branch, j)] == disk.nodes[sibling_at(
                repos,
                branch,
                j,
            )],
        forall|j: int|
            0 <= j < upto ==> after.has(#[trigger] slot_at(workspace_dir, repos, j))
                && after.nodes[slot_at(workspace_dir, repos, j)] == disk.nodes[slot_at(
                workspace_dir,
                repos,
                j,
            )],
    ensures
        mended(after, workspace_dir, repos, branch, upto),
{
    assert forall|j: int| 0 <= j < upto implies after.has_worktree(
        #[trigger] sibling_at(repos, branch, j),
    ) by {
        assert(disk.has_worktree(sibling_at(repos, branch, j)));
    }
    assert forall|j: int| 0 <= j < upto implies filled(
        after,
        #[trigger] slot_at(workspace_dir, repos, j),
        sibling_at(repos, branch, j),
    ) by {
        assert(filled(disk, slot_at(workspace_dir, repos, j), sibling_at(repos, branch, j)));
    }
}

/// One action of a repair leaves the repositories before its own mended. The repair fails
/// only where the shared directory cannot be made, and ends well only with all of them
/// mended.
pub proof fn lemma_mend_kept(m: EnsureWorkspaceView, action: ActionView, disk: Disk)
    requires
        mending(m, action, disk),
    ensures
        ({
            let outcome = action.smooth_outcome(disk);
            let after = action.applied(outcome, disk);
            match m.next(outcome) {
                ProgressView::Perform { machine, action: then } => {
                    &&& mending(machine, then, after)
                    &&& machine.workspace_dir == m.workspace_dir
                    &&& machine.repos == m.repos
                    &&& machine.branch == m.branch
                    &&& repairs_left(machine) < repairs_left(m)
                    &&& m.phase == EnsurePhase::CheckingDir ==> after == disk
                    &&& no_link_at(disk, m.workspace_dir) ==> no_link_at(after, m.workspace_dir)
                },
                ProgressView::Finished { .. } => {
                    &&& after.has(m.workspace_dir)
                    &&& mended(after, m.workspace_dir, m.repos, m.branch, m.repos.len() as int)
                    &&& no_link_at(disk, m.workspace_dir) ==> no_link_at(after, m.workspace_dir)
                },
                ProgressView::Failed { .. } => m.phase == EnsurePhase::MakingDir && after == disk,
            }
        }),
{
    let n = m.repos.len() as int;
    let dir = m.workspace_dir;
    let outcome = action.smooth_outcome(disk);
    let after = action.applied(outcome, disk);
    let i = m.index;
    let tree = sibling_at(m.repos, m.branch, i);
    let slot = slot_at(dir, m.repos, i);
    match m.phase {
        EnsurePhase::CheckingDir => {
            assert(after == disk);
            if outcome.state().exists {
                assert(disk.has(dir));
                assert(mended(after, dir, m.repos, m.branch, 0));
            }
        },
        EnsurePhase::MakingDir => {
            assert(mended(after, dir, m.repos, m.branch, 0));
        },
        EnsurePhase::Detecting => {
            assert(after == disk);
        },
        EnsurePhase::Rechecking => {
            assert(after == disk);
            if legacy_state_of(outcome.state(), tree) == LegacyState::Current {
                assert(disk.has_link(slot, tree));
                assert(filled(disk, slot, tree));
                assert(mended(disk, dir, m.repos, m.branch, i + 1));
            }
        },
        _ => {
            assert(within(slot, slot));
            assert(!within(dir, slot_at(dir, m.repos, i)));
            assert(tree != dir);
            assert forall|j: int| 0 <= j < i implies after.has(
                #[trigger] sibling_at(m.repos, m.branch, j),
            ) && after.nodes[sibling_at(m.repos, m.branch, j)] == disk.nodes[sibling_at(
                m.repos,
                m.branch,
                j,
            )] by {
                let other = sibling_at(m.repos, m.branch, j);
                assert(disk.has_worktree(other));
                assert(!within(other, slot_at(dir, m.repos, i)));
            }
            assert forall|j: int| 0 <= j < i implies after.has(
                #[trigger] slot_at(dir, m.repos, j),
            ) && after.nodes[slot_at(dir, m.repos, j)] == disk.nodes[slot_at(dir, m.repos, j)] by {
                let other = slot_at(dir, m.repos, j);
                assert(filled(disk, other, sibling_at(m.repos, m.branch, j)));
                assert(!within(other, slot_at(dir, m.repos, i)));
                assert(!within(sibling_at(m.repos, m.branch, i), slot_at(dir, m.repos, j)));
                assert(within(other, other));
            }
            assert(after.has(dir));
            lemma_mended_kept(disk, after, dir, m.repos, m.branch, i);
            assert(!within(sibling_at(m.repos, m.branch, i), slot_at(dir, m.repos, i)));
            if m.phase == EnsurePhase::Linking {
                assert(after.has_worktree(tree));
                assert(filled(after, slot, tree));
                assert(mended(after, dir, m.repos, m.branch, i + 1)) by {
                    assert forall|j: int| 0 <= j < i + 1 implies after.has_worktree(
                        #[trigger] sibling_at(m.repos, m.branch, j),
                    ) by {}
                    assert forall|j: int| 0 <= j < i + 1 implies filled(
                        after,
                        #[trigger] slot_at(dir, m.repos, j),
                        sibling_at(m.repos, m.branch, j),
                    ) by {}
                }
            }
        },
    }
}

/// A repair played to its end leaves the workspace mended, or the disk as it was where the
/// shared directory cannot be made.
pub proof fn lemma_mend_ends(m: EnsureWorkspaceView, action: ActionView, disk: Disk, fuel: nat)
    requires
        mending(m, action, disk),
        fuel >= repairs_left(m),
    ensures
        ({
            let (end, after) = play_ensure(
                ProgressView::Perform { machine: m, action },
                disk,
                all_goes_well(),
                fuel,
            );
            if end is Failed {
                &&& after == disk
                &&& m.phase == EnsurePhase::CheckingDir || m.phase == EnsurePhase::MakingDir
            } else {
                &&& end == (EnsureProgressView::Finished { value: () })
                &&& after.has(m.workspace_dir)
                &&& mended(after, m.workspace_dir, m.repos, m.branch, m.repos.len() as int)
                &&& no_link_at(disk, m.workspace_dir) ==> no_link_at(after, m.workspace_dir)
            }
        }),
    decreases fuel,
{
    lemma_mend_kept(m, action, disk);
    let outcome = action.smooth_outcome(disk);
    assert(all_goes_well()(m, action, disk) == outcome);
    reveal_with_fuel(play_ensure, 2);
    assert(fuel > 0);
    match m.next(outcome) {
        ProgressView::Perform { machine, action: then } => {
            lemma_mend_ends(machine, then, action.applied(outcome, disk), (fuel - 1) as nat);
        },
        _ => {},
    }
}

/// The repair `m`, about to ask for `action`, finds the workspace mended on `disk`.
pub open spec fn resting(m: EnsureWorkspaceView, action: ActionView, disk: Disk) -> bool {
    let n = m.repos.len() as int;
    let slot = m.link_path(m.index);
    &&& disk.has(m.workspace_dir)
    &&& mended(disk, m.workspace_dir, m.repos, m.branch, n)
    &&& match m.phase {
        EnsurePhase::CheckingDir => action == (ActionView::Inspect { path: m.workspace_dir }),
        EnsurePhase::MakingDir => action == (ActionView::CreateDirAll { path: m.workspace_dir }),
        EnsurePhase::Detecting => 0 <= m.index < n && action == m.inspect_link(),
        EnsurePhase::Ensuring => 0 <= m.index < n && action == m.ensure_tree(),
        EnsurePhase::Rechecking => 0 <= m.index < n && action == m.inspect_link(),
        EnsurePhase::Clearing => {
            &&& 0 <= m.index < n
            &&& action == (ActionView::RemoveDirAll { path: slot })
            &&& disk.has(slot)
            &&& disk.nodes[slot] is File
        },
        EnsurePhase::Linking => 0 <= m.index < n && action == m.make_link() && disk.has(slot),
        _ => false,
    }
}

/// One action of a repair that finds the workspace mended changes nothing.
pub proof fn lemma_rest_kept(m: EnsureWorkspaceView, action: ActionView, disk: Disk)
    requires
        resting(m, action, disk),
    ensures
        ({
            let outcome = action.smooth_outcome(disk);
            &&& action.applied(outcome, disk) == disk
            &&& !(action is MoveWorktree)
            &&& match m.next(outcome) {
                ProgressView::Perform { machine, action: then } => {
                    &&& resting(machine, then, disk)
                    &&& machine.workspace_dir == m.workspace_dir
                    &&& repairs_left(machine) < repairs_left(m)
                    &&& then is CreateDirAll ==> !disk.observe(m.workspace_dir).exists
                },
                ProgressView::Finished { .. } => true,
                ProgressView::Failed { .. } => m.phase == EnsurePhase::MakingDir,
            }
        }),
{
    let outcome = action.smooth_outcome(disk);
    let after = action.applied(outcome, disk);
    let tree = sibling_at(m.repos, m.branch, m.index);
    let slot = slot_at(m.workspace_dir, m.repos, m.index);
    match m.phase {
        EnsurePhase::Ensuring => {
            assert(disk.has_worktree(tree));
            assert(after.nodes =~= disk.nodes);
        },
        EnsurePhase::Detecting => {
            assert(filled(disk, slot, tree));
            assert(disk.has_worktree(tree));
        },
        EnsurePhase::Rechecking => {
            assert(filled(disk, slot, tree));
            assert(disk.has_worktree(tree));
        },
        EnsurePhase::MakingDir => {
            assert(after.nodes =~= disk.nodes);
        },
        _ => {},
    }
}

/// The shared directory is found by the repair `m`, or was: `m` is not about to make it, nor
/// about to look at a shared directory that is not there.
pub open spec fn past_the_directory(m: EnsureWorkspaceView, disk: Disk) -> bool {
    match m.phase {
        EnsurePhase::CheckingDir => disk.observe(m.workspace_dir).exists,
        EnsurePhase::MakingDir => false,
        _ => true,
    }
}

/// A repair that finds the workspace mended leaves the disk as it was and moves no working
/// tree. Where it finds the shared directory, it ends well.
pub proof fn lemma_rest_ends(m: EnsureWorkspaceView, action: ActionView, disk: Disk, fuel: nat)
    requires
        resting(m, action, disk),
    ensures
        ({
            let start = ProgressView::Perform { machine: m, action };
            let (end, after) = play_ensure(start, disk, all_goes_well(), fuel);
            let asked = asked_ensure(start, disk, all_goes_well(), fuel);
            &&& after == disk
            &&& forall|k: int| 0 <= k < asked.len() ==> !(#[trigger] asked[k] is MoveWorktree)
            &&& fuel >= repairs_left(m) && past_the_directory(m, disk) ==> end == (
                EnsureProgressView::Finished { value: () })
        }),
    decreases fuel,
{
    lemma_rest_kept(m, action, disk);
    let outcome = action.smooth_outcome(disk);
    assert(all_goes_well()(m, action, disk) == outcome);
    reveal_with_fuel(play_ensure, 2);
    reveal_with_fuel(asked_ensure, 2);
    if fuel > 0 {
        let next = m.next(outcome);
        let rest = asked_ensure(next, disk, all_goes_well(), (fuel - 1) as nat);
        let asked = asked_ensure(
            ProgressView::Perform { machine: m, action },
            disk,
            all_goes_well(),
            fuel,
        );
        assert(asked =~= seq![action] + rest);
        match next {
            ProgressView::Perform { machine, action: then } => {
                lemma_rest_ends(machine, then, disk, (fuel - 1) as nat);
            },
            _ => {},
        }
        assert forall|k: int| 0 <= k < asked.len() implies !(#[trigger] asked[k]
            is MoveWorktree) by {
            if k > 0 {
                assert(asked[k] == rest[k - 1]);
            }
        }
    }
}

/// The second of two repairs in a row leaves the disk as it found it.
///
/// Let the places of the workspace keep out of each other's way. Play the repair on any
/// disk, then play it again with the same inputs on the disk that the first left. Whatever
/// lay on the disk and however the repairs end, the second leaves the disk as the first left
/// it. Where the first ends well, the second moves no working tree, and it ends well too
/// unless a link lay at the shared directory.
pub proof fn lemma_second_repair_leaves_the_disk(
    workspace_dir: Seq<char>,
    repos: Seq<RepoView>,
    branch: Seq<char>,
    disk: Disk,
    fuel: nat,
)
    requires
        slots_apart(workspace_dir, repos, branch),
        fuel >= 7 * repos.len() + 2,
    ensures
        ({
            let start = ensure_start(workspace_dir, repos, branch);
            let first = play_ensure(start, disk, all_goes_well(), fuel);
            let second = play_ensure(start, first.1, all_goes_well(), fuel);
            let asked = asked_ensure(start, first.1, all_goes_well(), fuel);
            &&& second.1 == first.1
            &&& first.0 is Finished ==> forall|k: int|
                0 <= k < asked.len() ==> !(#[trigger] asked[k] is MoveWorktree)
            &&& first.0 is Finished && no_link_at(disk, workspace_dir) ==> second.0 == (
                EnsureProgressView::Finished { value: () })
        }),
{
    match ensure_start(workspace_dir, repos, branch) {
        ProgressView::Perform { machine, action } => {
            lemma_mend_ends(machine, action, disk, fuel);
            let first = play_ensure(
                ProgressView::Perform { machine, action },
                disk,
                all_goes_well(),
                fuel,
            );
            if !(first.0 is Failed) {
                lemma_rest_ends(machine, action, first.1, fuel);
            }
        },
        _ => {},
    }
}

/// The names of the repositories are single path components, no two of them equal.
pub open spec fn names_apart(repos: Seq<RepoView>) -> bool {
    &&& forall|i: int| 0 <= i < repos.len() ==> is_plain_name((#[trigger] repos[i]).name)
    &&& forall|i: int, j: int|
        0 <= i < j < repos.len() ==> (#[trigger] repos[i]).name != (#[trigger] repos[j]).name
}

/// The working trees keep out of the way of the links: none lies at or below the place of a
/// link, and none at the shared directory.
pub open spec fn trees_clear(
    workspace_dir: Seq<char>,
    repos: Seq<RepoView>,
    branch: Seq<char>,
) -> bool {
    &&& forall|i: int, j: int|
        0 <= i < repos.len() && 0 <= j < repos.len() ==> !within(
            #[trigger] sibling_at(repos, branch, j),
            #[trigger] slot_at(workspace_dir, repos, i),
        )
    &&& forall|j: int|
        0 <= j < repos.len() ==> #[trigger] sibling_at(repos, branch, j) != workspace_dir
}

/// Links under different names do not collide.
///
/// Let the names of the repositories be single path components, no two of them equal, and
/// let the working trees keep out of the way of the links. Then the places of the workspace
/// keep out of each other's way.
pub proof fn lemma_names_keep_places_apart(
    workspace_dir: Seq<char>,
    repos: Seq<RepoView>,
    branch: Seq<char>,
)
    requires
        names_apart(repos),
        trees_clear(workspace_dir, repos, branch),
    ensures
        slots_apart(workspace_dir, repos, branch),
{
    assert forall|i: int, j: int|
        0 <= i < repos.len() && 0 <= j < repos.len() && i != j implies !within(
        #[trigger] slot_at(workspace_dir, repos, j),
        #[trigger] slot_at(workspace_dir, repos, i),
    ) by {
        if i < j {
            assert(repos[i].name != repos[j].name);
        } else {
            assert(repos[j].name != repos[i].name);
        }
        lemma_entries_apart(workspace_dir, repos[i].name, repos[j].name);
    }
    assert forall|i: int| 0 <= i < repos.len() implies !within(
        workspace_dir,
        #[trigger] slot_at(workspace_dir, repos, i),
    ) by {
        if within(workspace_dir, slot_at(workspace_dir, repos, i)) {
            lemma_entry_lies_below(workspace_dir, repos[i].name, workspace_dir);
        }
    }
}

/// The second of two repairs under different names changes nothing.
///
/// Let the names of the repositories be single path components, no two of them equal, and
/// let the working trees keep out of the way of the links. Play the repair on any disk,
/// then play it again with the same inputs on the disk that the first left. The second leaves
/// the disk as the first left it. Where nothing stood in the way on the first disk, both end
/// well and the first leaves the workspace settled.
pub proof fn lemma_second_repair_under_distinct_names(
    workspace_dir: Seq<char>,
    repos: Seq<RepoView>,
    branch: Seq<char>,
    disk: Disk,
    fuel: nat,
)
    requires
        names_apart(repos),
        trees_clear(workspace_dir, repos, branch),
        fuel >= 7 * repos.len() + 2,
    ensures
        ({
            let start = ensure_start(workspace_dir, repos, branch);
            let first = play_ensure(start, disk, all_goes_well(), fuel);
            let second = play_ensure(start, first.1, all_goes_well(), fuel);
            &&& second.1 == first.1
            &&& site_fit(disk, workspace_dir, repos) ==> {
                &&& first.0 == (EnsureProgressView::Finished { value: () })
                &&& settled(first.1, workspace_dir, repos, branch, repos.len() as int)
                &&& second.0 == (EnsureProgressView::Finished { value: () })
            }
        }),
{
    lemma_names_keep_places_apart(workspace_dir, repos, branch);
    lemma_second_repair_leaves_the_disk(workspace_dir, repos, branch, disk, fuel);
    if site_fit(disk, workspace_dir, repos) {
        lemma_repair_settles(workspace_dir, repos, branch, disk, fuel);
        lemma_second_repair_changes_nothing(workspace_dir, repos, branch, disk, fuel);
    }
}

/// What decides how a repair ends: whether the shared directory is there or could be made,
/// and which working tree, if any, was the first that could not be made sure of.
pub enum RepairFate {
    /// The shared directory was not there and could not be made, for this reason.
    NoDirectory(Seq<char>),
    /// The working tree of this repository could not be made sure of, for this reason; the
    /// trees before it could.
    NoTree(int, Seq<char>),
    /// The shared directory is there and every working tree could be made sure of.
    AllEnsured,
}

/// The world `script` deals the repair the fate `fate`, whatever else it does: what it
/// answers to moves, removals, inspections of links and the making of links is left open.
pub open spec fn deals(script: EnsureScript, fate: RepairFate) -> bool {
    forall|m: EnsureWorkspaceView, action: ActionView, disk: Disk|
        match fate {
            RepairFate::NoDirectory(reason) => {
                &&& m.phase == EnsurePhase::CheckingDir ==> !(#[trigger] script(
                    m,
                    action,
                    disk,
                )).state().exists
                &&& m.phase == EnsurePhase::MakingDir ==> script(m, action, disk) == (
                OutcomeView::Failed { reason })
            },
            RepairFate::NoTree(k, reason) => {
                &&& m.phase == EnsurePhase::MakingDir ==> !(#[trigger] script(m, action, disk)
                    is Failed)
                &&& m.phase == EnsurePhase::Ensuring && m.index < k ==> !(script(m, action, disk)
                    is Failed)
                &&& m.phase == EnsurePhase::Ensuring && m.index == k ==> script(m, action, disk)
                    == (OutcomeView::Failed { reason })
            },
            RepairFate::AllEnsured => m.phase == EnsurePhase::MakingDir || m.phase
                == EnsurePhase::Ensuring ==> !(#[trigger] script(m, action, disk) is Failed),
        }
}

/// How a repair with the fate `fate` ends.
pub open spec fn end_of(fate: RepairFate) -> EnsureProgressView {
    match fate {
        RepairFate::NoDirectory(reason) => ProgressView::Failed {
            error: WorkspaceErrorView::Io(reason),
        },
        RepairFate::NoTree(_, reason) => ProgressView::Failed {
            error: WorkspaceErrorView::Worktree(reason),
        },
        RepairFate::AllEnsured => ProgressView::Finished { value: () },
    }
}

/// The repair `m` is in step with its fate.
pub open spec fn in_step(m: EnsureWorkspaceView, fate: RepairFate) -> bool {
    let n = m.repos.len() as int;
    &&& fate matches RepairFate::NoTree(k, _) ==> 0 <= k < n
    &&& match m.phase {
        EnsurePhase::CheckingDir => true,
        EnsurePhase::MakingDir => true,
        EnsurePhase::Detecting | EnsurePhase::Migrating | EnsurePhase::Discarding
        | EnsurePhase::Ensuring => {
            &&& 0 <= m.index < n
            &&& fate !is NoDirectory
            &&& fate matches RepairFate::NoTree(k, _) ==> m.index <= k
        },
        _ => {
            &&& 0 <= m.index < n
            &&& fate !is NoDirectory
            &&& fate matches RepairFate::NoTree(k, _) ==> m.index < k
        },
    }
}

/// A repair in step with its fate, played to its end, ends as its fate has it.
pub proof fn lemma_fate_fulfilled(
    m: EnsureWorkspaceView,
    action: ActionView,
    disk: Disk,
    script: EnsureScript,
    fate: RepairFate,
    fuel: nat,
)
    requires
        in_step(m, fate),
        deals(script, fate),
        fuel >= repairs_left(m),
    ensures
        play_ensure(ProgressView::Perform { machine: m, action }, disk, script, fuel).0 == end_of(
            fate,
        ),
    decreases fuel,
{
    let outcome = script(m, action, disk);
    reveal_with_fuel(play_ensure, 2);
    assert(fuel > 0);
    match m.next(outcome) {
        ProgressView::Perform { machine, action: then } => {
            assert(in_step(machine, fate));
            assert(repairs_left(machine) < repairs_left(m));
            lemma_fate_fulfilled(
                machine,
                then,
                action.applied(outcome, disk),
                script,
                fate,
                (fuel - 1) as nat,
            );
        },
        _ => {},
    }
}

/// How a repair ends is decided by the shared directory and the working trees alone.
///
/// Where the shared directory is missing and cannot be made, the repair ends with the
/// input-output error and its reason. Where the working tree of repository `k` is the first
/// that cannot be made sure of, the repair ends with the error of the working-tree primitive.
/// In every other case the repair ends well: a tree of the old layout that cannot be moved, a
/// leftover that cannot be removed and a link that cannot be made do not fail it.
pub proof fn lemma_repair_ends_by_its_fate(
    workspace_dir: Seq<char>,
    repos: Seq<RepoView>,
    branch: Seq<char>,
    disk: Disk,
    script: EnsureScript,
    fate: RepairFate,
    fuel: nat,
)
    requires
        fate matches RepairFate::NoTree(k, _) ==> 0 <= k < repos.len(),
        deals(script, fate),
        fuel >= 7 * repos.len() + 2,
    ensures
        play_ensure(ensure_start(workspace_dir, repos, branch), disk, script, fuel).0 == end_of(
            fate,
        ),
{
    match ensure_start(workspace_dir, repos, branch) {
        ProgressView::Perform { machine, action } => {
            if fate is NoDirectory {
                reveal_with_fuel(play_ensure, 3);
            } else {
                lemma_fate_fulfilled(machine, action, disk, script, fate, fuel);
            }
        },
        _ => {},
    }
}

} // verus!

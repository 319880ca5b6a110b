//! How a build ends and what it leaves on the disk: everything where all goes well, nothing
//! where a working tree cannot be made.
//!
//! The laws speak of a build played against the modelled disk and a script, which says how
//! each action turns out. The two laws on what is left on the disk take the scripts in which
//! nothing goes wrong, or nothing but the making of one working tree; the law on how a build
//! ends takes any script.

use crate::create::{cleanup_of, create_start, CreatePhase, CreateWorkspaceView};
use crate::disk::{
    lemma_entries_apart, lemma_entry_lies_below, within, ActionView, Disk, Node, OutcomeView,
    ProgressView,
};
use crate::path::{is_plain_name, join_path, worktree_path};
use crate::workspace::{
    partial_creation_text, RepoWorkspaceInputView, RepoWorktreeView, WorkspaceErrorView,
    WorktreeContainerView,
};
use vstd::prelude::*;

verus! {

/// A build, or how it ended.
pub type CreateProgressView = ProgressView<CreateWorkspaceView, WorktreeContainerView>;

/// How the outside world answers a build: the outcome of the action that the build asks for
/// in a given state, on a given disk.
pub type CreateScript = spec_fn(CreateWorkspaceView, ActionView, Disk) -> OutcomeView;

/// The world in which nothing goes wrong: an inspection tells what is there, everything else
/// is done.
pub open spec fn all_goes_well() -> CreateScript {
    |m: CreateWorkspaceView, action: ActionView, disk: Disk| action.smooth_outcome(disk)
}

/// The world in which the working tree of repository `k` cannot be made, for the reason
/// `reason`, and nothing else goes wrong.
pub open spec fn tree_fails(k: int, reason: Seq<char>) -> CreateScript {
    |m: CreateWorkspaceView, action: ActionView, disk: Disk|
        if m.phase == CreatePhase::Creating && m.index == k {
            OutcomeView::Failed { reason }
        } else {
            action.smooth_outcome(disk)
        }
}

/// The build `p` played on `disk` against `script` for at most `fuel` actions: where it stands
/// then, and the disk it leaves.
pub open spec fn play_create(
    p: CreateProgressView,
    disk: Disk,
    script: CreateScript,
    fuel: nat,
) -> (CreateProgressView, Disk)
    decreases fuel,
{
    match p {
        ProgressView::Perform { machine, action } => if fuel == 0 {
            (p, disk)
        } else {
            let outcome = script(machine, action, disk);
            play_create(
                machine.next(outcome),
                action.applied(outcome, disk),
                script,
                (fuel - 1) as nat,
            )
        },
        _ => (p, disk),
    }
}

/// Where the working tree of repository `i` lies.
pub open spec fn tree_at(repos: Seq<RepoWorkspaceInputView>, branch: Seq<char>, i: int) -> Seq<
    char,
> {
    worktree_path(repos[i].repo.path, branch)
}

/// Where the link to the working tree of repository `i` lies.
pub open spec fn link_at(
    workspace_dir: Seq<char>,
    repos: Seq<RepoWorkspaceInputView>,
    i: int,
) -> Seq<char> {
    join_path(workspace_dir, repos[i].repo.name)
}

/// The working tree of repository `i` as the build reports it.
pub open spec fn made_at(
    repos: Seq<RepoWorkspaceInputView>,
    branch: Seq<char>,
    i: int,
) -> RepoWorktreeView {
    RepoWorktreeView {
        repo_id: repos[i].repo.id,
        repo_name: repos[i].repo.name,
        source_repo_path: repos[i].repo.path,
        worktree_path: tree_at(repos, branch, i),
    }
}

/// The places of the workspace keep out of each other's way: no working tree and no other
/// link lies at or below the place of a link, nor does the shared directory, and no working
/// tree lies at the shared directory.
pub open spec fn places_apart(
    workspace_dir: Seq<char>,
    repos: Seq<RepoWorkspaceInputView>,
    branch: Seq<char>,
) -> bool {
    &&& forall|i: int, j: int|
        0 <= i < repos.len() && 0 <= j < repos.len() ==> !within(
            #[trigger] tree_at(repos, branch, j),
            #[trigger] link_at(workspace_dir, repos, i),
        )
    &&& forall|i: int, j: int|
        0 <= i < repos.len() && 0 <= j < repos.len() && i != j ==> !within(
            #[trigger] link_at(workspace_dir, repos, j),
            #[trigger] link_at(workspace_dir, repos, i),
        )
    &&& forall|i: int|
        0 <= i < repos.len() ==> !within(workspace_dir, #[trigger] link_at(workspace_dir, repos, i))
    &&& forall|j: int|
        0 <= j < repos.len() ==> #[trigger] tree_at(repos, branch, j) != workspace_dir
}

/// Nothing on `disk` stands in the way of the build: what lies at the shared directory, if
/// anything, is a directory, and no file lies at the place of a link. (A link or a directory
/// at the place of a link is removed by the build; a file is not.)
pub open spec fn site_fit(
    disk: Disk,
    workspace_dir: Seq<char>,
    repos: Seq<RepoWorkspaceInputView>,
) -> bool {
    &&& disk.has(workspace_dir) ==> disk.nodes[workspace_dir] is Directory
    &&& forall|j: int|
        0 <= j < repos.len() ==> !(disk.has(#[trigger] link_at(workspace_dir, repos, j))
            && disk.nodes[link_at(workspace_dir, repos, j)] is File)
}

/// The workspace stands on `disk` as far as `trees` working trees and `links` links: the
/// shared directory is there, the first `trees` working trees, and the first `links` links,
/// each pointing at its tree.
pub open spec fn stands(
    disk: Disk,
    workspace_dir: Seq<char>,
    repos: Seq<RepoWorkspaceInputView>,
    branch: Seq<char>,
    trees: int,
    links: int,
) -> bool {
    &&& disk.has_directory(workspace_dir)
    &&& forall|j: int| 0 <= j < trees ==> disk.has_worktree(#[trigger] tree_at(repos, branch, j))
    &&& forall|j: int|
        0 <= j < links ==> disk.has_link(
            #[trigger] link_at(workspace_dir, repos, j),
            tree_at(repos, branch, j),
        )
}

/// `path` is a place of the workspace: the shared directory, the place of a working tree or
/// the place of a link.
pub open spec fn is_place(
    workspace_dir: Seq<char>,
    repos: Seq<RepoWorkspaceInputView>,
    branch: Seq<char>,
    path: Seq<char>,
) -> bool {
    ||| path == workspace_dir
    ||| exists|i: int| 0 <= i < repos.len() && path == #[trigger] tree_at(repos, branch, i)
    ||| exists|i: int| 0 <= i < repos.len() && path == #[trigger] link_at(workspace_dir, repos, i)
}

/// What lies on `after` and did not lie so on `before` lies at a place of the workspace.
pub open spec fn new_at_places_only(
    before: Disk,
    after: Disk,
    workspace_dir: Seq<char>,
    repos: Seq<RepoWorkspaceInputView>,
    branch: Seq<char>,
) -> bool {
    forall|path: Seq<char>|
        #[trigger] after.has(path) && !(before.has(path) && before.nodes[path]
            == after.nodes[path]) ==> is_place(workspace_dir, repos, branch, path)
}

/// What a build that all goes well hands back.
pub open spec fn built(
    workspace_dir: Seq<char>,
    repos: Seq<RepoWorkspaceInputView>,
    branch: Seq<char>,
) -> WorktreeContainerView {
    WorktreeContainerView {
        workspace_dir,
        worktrees: Seq::new(repos.len(), |i: int| made_at(repos, branch, i)),
    }
}

/// The build `m`, about to ask for `action`, is on its way to success on `disk`.
pub open spec fn on_course(m: CreateWorkspaceView, action: ActionView, disk: Disk) -> bool {
    let n = m.repos.len() as int;
    &&& n > 0
    &&& places_apart(m.workspace_dir, m.repos, m.branch)
    &&& site_fit(disk, m.workspace_dir, m.repos)
    &&& m.created =~= Seq::new(m.created.len(), |i: int| made_at(m.repos, m.branch, i))
    &&& match m.phase {
        CreatePhase::MakingDir => m.created.len() == 0 && action == (ActionView::CreateDirAll {
            path: m.workspace_dir,
        }),
        CreatePhase::Creating => {
            &&& 0 <= m.index < n
            &&& m.created.len() == m.index
            &&& action == m.create_action(m.index)
            &&& stands(disk, m.workspace_dir, m.repos, m.branch, m.index, 0)
        },
        CreatePhase::Inspecting => {
            &&& 0 <= m.index < n
            &&& m.created.len() == n
            &&& action == (ActionView::Inspect { path: m.link_path(m.index) })
            &&& stands(disk, m.workspace_dir, m.repos, m.branch, n, m.index)
        },
        CreatePhase::Clearing => {
            &&& 0 <= m.index < n
            &&& m.created.len() == n
            &&& disk.has(m.link_path(m.index))
            &&& if disk.nodes[m.link_path(m.index)] is Link {
                action == (ActionView::RemoveFile { path: m.link_path(m.index) })
            } else {
                action == (ActionView::RemoveDirAll { path: m.link_path(m.index) })
            }
            &&& stands(disk, m.workspace_dir, m.repos, m.branch, n, m.index)
        },
        CreatePhase::Linking => {
            &&& 0 <= m.index < n
            &&& m.created.len() == n
            &&& action == m.link_action(m.index)
            &&& !disk.has(m.link_path(m.index))
            &&& stands(disk, m.workspace_dir, m.repos, m.branch, n, m.index)
        },
        _ => false,
    }
}

/// The number of actions that the build `m` still asks for where all goes well, at most.
pub open spec fn actions_left(m: CreateWorkspaceView) -> int {
    let n = m.repos.len() as int;
    match m.phase {
        CreatePhase::MakingDir => 4 * n + 1,
        CreatePhase::Creating => 4 * n - m.index,
        CreatePhase::Inspecting => 3 * (n - m.index),
        CreatePhase::Clearing => 3 * (n - m.index) - 1,
        CreatePhase::Linking => 3 * (n - m.index) - 2,
        _ => 0,
    }
}

/// One action of a build on its way to success leaves it on its way, or ends it with the
/// whole workspace standing.
pub proof fn lemma_course_kept(m: CreateWorkspaceView, action: ActionView, disk: Disk)
    requires
        on_course(m, action, disk),
    ensures
        ({
            let outcome = action.smooth_outcome(disk);
            let after = action.applied(outcome, disk);
            match m.next(outcome) {
                ProgressView::Perform { machine, action: then } => {
                    &&& on_course(machine, then, after)
                    &&& machine.workspace_dir == m.workspace_dir
                    &&& machine.repos == m.repos
                    &&& machine.branch == m.branch
                    &&& actions_left(machine) < actions_left(m)
                },
                ProgressView::Finished { value } => {
                    &&& value == built(m.workspace_dir, m.repos, m.branch)
                    &&& stands(
                        after,
                        m.workspace_dir,
                        m.repos,
                        m.branch,
                        m.repos.len() as int,
                        m.repos.len() as int,
                    )
                },
                ProgressView::Failed { .. } => false,
            }
        }),
{
    let n = m.repos.len() as int;
    let outcome = action.smooth_outcome(disk);
    let after = action.applied(outcome, disk);
    let dir = m.workspace_dir;
    assert forall|j: int| 0 <= j < n implies !(after.has(#[trigger] link_at(dir, m.repos, j))
        && after.nodes[link_at(dir, m.repos, j)] is File) by {
        let place = link_at(dir, m.repos, j);
        assert(!(disk.has(place) && disk.nodes[place] is File));
    }
    match m.phase {
        CreatePhase::MakingDir => {
            assert(stands(after, dir, m.repos, m.branch, 0, 0));
        },
        CreatePhase::Creating => {
            let path = tree_at(m.repos, m.branch, m.index);
            assert(after == disk.with(path, Node::Directory { worktree: true }));
            assert forall|j: int| 0 <= j < m.index + 1 implies after.has_worktree(
                #[trigger] tree_at(m.repos, m.branch, j),
            ) by {
                if j < m.index {
                    assert(disk.has_worktree(tree_at(m.repos, m.branch, j)));
                }
            }
            assert(tree_at(m.repos, m.branch, m.index) != dir);
            let grown = m.created.push(m.made(m.index));
            assert(grown =~= Seq::new(grown.len(), |i: int| made_at(m.repos, m.branch, i)));
        },
        CreatePhase::Inspecting => {
            let link = link_at(dir, m.repos, m.index);
            assert(after == disk);
            assert(!(disk.has(link) && disk.nodes[link] is File));
        },
        CreatePhase::Clearing => {
            let link = link_at(dir, m.repos, m.index);
            assert(within(link, link));
            assert forall|j: int| 0 <= j < n implies after.has_worktree(
                #[trigger] tree_at(m.repos, m.branch, j),
            ) by {
                assert(disk.has_worktree(tree_at(m.repos, m.branch, j)));
                assert(!within(tree_at(m.repos, m.branch, j), link_at(dir, m.repos, m.index)));
            }
            assert forall|j: int| 0 <= j < m.index implies after.has_link(
                #[trigger] link_at(dir, m.repos, j),
                tree_at(m.repos, m.branch, j),
            ) by {
                assert(disk.has_link(link_at(dir, m.repos, j), tree_at(m.repos, m.branch, j)));
                assert(!within(link_at(dir, m.repos, j), link_at(dir, m.repos, m.index)));
            }
            assert(!within(dir, link_at(dir, m.repos, m.index)));
        },
        CreatePhase::Linking => {
            let link = link_at(dir, m.repos, m.index);
            assert(within(link, link));
            assert(m.created[m.index] == made_at(m.repos, m.branch, m.index));
            let tree = tree_at(m.repos, m.branch, m.index);
            assert(after == disk.with(link, Node::Link { target: tree }));
            assert forall|j: int| 0 <= j < n implies after.has_worktree(
                #[trigger] tree_at(m.repos, m.branch, j),
            ) by {
                assert(disk.has_worktree(tree_at(m.repos, m.branch, j)));
                assert(!within(tree_at(m.repos, m.branch, j), link_at(dir, m.repos, m.index)));
            }
            assert forall|j: int| 0 <= j < m.index + 1 implies after.has_link(
                #[trigger] link_at(dir, m.repos, j),
                tree_at(m.repos, m.branch, j),
            ) by {
                if j < m.index {
                    assert(disk.has_link(link_at(dir, m.repos, j), tree_at(m.repos, m.branch, j)));
                    assert(!within(link_at(dir, m.repos, j), link_at(dir, m.repos, m.index)));
                }
            }
            assert(!within(dir, link_at(dir, m.repos, m.index)));
            if m.index + 1 >= n {
                assert(m.created =~= built(dir, m.repos, m.branch).worktrees);
            }
        },
        _ => {},
    }
}

/// One action of a build on its way to success puts nothing but at a place of the workspace.
pub proof fn lemma_course_keeps_to_places(m: CreateWorkspaceView, action: ActionView, disk: Disk)
    requires
        on_course(m, action, disk),
    ensures
        new_at_places_only(
            disk,
            action.applied(action.smooth_outcome(disk), disk),
            m.workspace_dir,
            m.repos,
            m.branch,
        ),
{
    let after = action.applied(action.smooth_outcome(disk), disk);
    let tree = tree_at(m.repos, m.branch, m.index);
    let link = link_at(m.workspace_dir, m.repos, m.index);
    assert forall|path: Seq<char>|
        #[trigger] after.has(path) && !(disk.has(path) && disk.nodes[path]
            == after.nodes[path]) implies is_place(m.workspace_dir, m.repos, m.branch, path) by {
        match m.phase {
            CreatePhase::MakingDir => {
                assert(path == m.workspace_dir);
            },
            CreatePhase::Creating => {
                assert(path == tree);
            },
            CreatePhase::Linking => {
                assert(path == link);
            },
            _ => {},
        }
    }
}

/// A build on its way to success, played to its end, hands back the whole workspace and
/// leaves it standing, with nothing new but at the places of the workspace.
pub proof fn lemma_course_ends_well(
    m: CreateWorkspaceView,
    action: ActionView,
    disk: Disk,
    fuel: nat,
)
    requires
        on_course(m, action, disk),
        fuel >= actions_left(m),
    ensures
        ({
            let (end, after) = play_create(
                ProgressView::Perform { machine: m, action },
                disk,
                all_goes_well(),
                fuel,
            );
            &&& end == (CreateProgressView::Finished {
                value: built(m.workspace_dir, m.repos, m.branch),
            })
            &&& stands(
                after,
                m.workspace_dir,
                m.repos,
                m.branch,
                m.repos.len() as int,
                m.repos.len() as int,
            )
            &&& new_at_places_only(disk, after, m.workspace_dir, m.repos, m.branch)
        }),
    decreases fuel,
{
    lemma_course_kept(m, action, disk);
    lemma_course_keeps_to_places(m, action, disk);
    let outcome = action.smooth_outcome(disk);
    let next = action.applied(outcome, disk);
    assert(all_goes_well()(m, action, disk) == outcome);
    reveal_with_fuel(play_create, 2);
    assert(fuel > 0);
    match m.next(outcome) {
        ProgressView::Perform { machine, action: then } => {
            lemma_course_ends_well(machine, then, next, (fuel - 1) as nat);
            let after = play_create(
                ProgressView::Perform { machine, action: then },
                next,
                all_goes_well(),
                (fuel - 1) as nat,
            ).1;
            assert forall|path: Seq<char>|
                #[trigger] after.has(path) && !(disk.has(path) && disk.nodes[path]
                    == after.nodes[path]) implies is_place(
                m.workspace_dir,
                m.repos,
                m.branch,
                path,
            ) by {
                if next.has(path) && next.nodes[path] == after.nodes[path] {
                    assert(!(disk.has(path) && disk.nodes[path] == next.nodes[path]));
                }
            }
        },
        _ => {},
    }
}

/// A build in which every action succeeds yields the whole workspace.
///
/// Let there be at least one repository, and let the places of the workspace keep out of each
/// other's way. Then on any disk on which nothing stands in the way (what lies at the shared
/// directory is a directory, and no file lies at the place of a link) the build ends well. It
/// hands back the shared directory and
/// exactly one working tree for each repository, in the order of the repositories, each at the
/// path computed for its repository and the branch. On the disk it leaves, the shared
/// directory is there, a working tree lies at each of those paths, and for each repository the
/// shared directory holds a link named after it that points at its working tree. Nothing else
/// is new on that disk: no link under another name, and no other working tree.
pub proof fn lemma_build_yields_workspace(
    workspace_dir: Seq<char>,
    repos: Seq<RepoWorkspaceInputView>,
    branch: Seq<char>,
    disk: Disk,
    fuel: nat,
)
    requires
        repos.len() > 0,
        places_apart(workspace_dir, repos, branch),
        site_fit(disk, workspace_dir, repos),
        fuel >= 4 * repos.len() + 1,
    ensures
        ({
            let (end, after) = play_create(
                create_start(workspace_dir, repos, branch),
                disk,
                all_goes_well(),
                fuel,
            );
            &&& end matches ProgressView::Finished { value }
            &&& value.workspace_dir == workspace_dir
            &&& value.worktrees.len() == repos.len()
            &&& forall|i: int|
                0 <= i < repos.len() ==> #[trigger] value.worktrees[i] == made_at(repos, branch, i)
            &&& after.has_directory(workspace_dir)
            &&& forall|i: int|
                0 <= i < repos.len() ==> after.has_worktree(#[trigger] tree_at(repos, branch, i))
            &&& forall|i: int|
                0 <= i < repos.len() ==> after.has_link(
                    #[trigger] link_at(workspace_dir, repos, i),
                    tree_at(repos, branch, i),
                )
            &&& new_at_places_only(disk, after, workspace_dir, repos, branch)
        }),
{
    match create_start(workspace_dir, repos, branch) {
        ProgressView::Perform { machine, action } => {
            assert(machine.created =~= Seq::new(0nat, |i: int| made_at(repos, branch, i)));
            lemma_course_ends_well(machine, action, disk, fuel);
        },
        _ => {},
    }
}

/// The names of the repositories are single path components, no two of them equal.
pub open spec fn names_apart(repos: Seq<RepoWorkspaceInputView>) -> bool {
    &&& forall|i: int| 0 <= i < repos.len() ==> is_plain_name((#[trigger] repos[i]).repo.name)
    &&& forall|i: int, j: int|
        0 <= i < j < repos.len() ==> (#[trigger] repos[i]).repo.name
            != (#[trigger] repos[j]).repo.name
}

/// The working trees keep out of the way of the links: none lies at or below the place of a
/// link, and none at the shared directory.
pub open spec fn trees_clear(
    workspace_dir: Seq<char>,
    repos: Seq<RepoWorkspaceInputView>,
    branch: Seq<char>,
) -> bool {
    &&& forall|i: int, j: int|
        0 <= i < repos.len() && 0 <= j < repos.len() ==> !within(
            #[trigger] tree_at(repos, branch, j),
            #[trigger] link_at(workspace_dir, repos, i),
        )
    &&& forall|j: int|
        0 <= j < repos.len() ==> #[trigger] tree_at(repos, branch, j) != workspace_dir
}

/// Links under different names do not collide.
///
/// Let the names of the repositories be single path components, no two of them equal, and
/// let the working trees keep out of the way of the links. Then the places of the workspace
/// keep out of each other's way.
pub proof fn lemma_names_keep_places_apart(
    workspace_dir: Seq<char>,
    repos: Seq<RepoWorkspaceInputView>,
    branch: Seq<char>,
)
    requires
        names_apart(repos),
        trees_clear(workspace_dir, repos, branch),
    ensures
        places_apart(workspace_dir, repos, branch),
{
    assert forall|i: int, j: int|
        0 <= i < repos.len() && 0 <= j < repos.len() && i != j implies !within(
        #[trigger] link_at(workspace_dir, repos, j),
        #[trigger] link_at(workspace_dir, repos, i),
    ) by {
        if i < j {
            assert(repos[i].repo.name != repos[j].repo.name);
        } else {
            assert(repos[j].repo.name != repos[i].repo.name);
        }
        lemma_entries_apart(workspace_dir, repos[i].repo.name, repos[j].repo.name);
    }
    assert forall|i: int| 0 <= i < repos.len() implies !within(
        workspace_dir,
        #[trigger] link_at(workspace_dir, repos, i),
    ) by {
        if within(workspace_dir, link_at(workspace_dir, repos, i)) {
            lemma_entry_lies_below(workspace_dir, repos[i].repo.name, workspace_dir);
        }
    }
}

/// A build under different names yields the whole workspace.
///
/// Let there be at least one repository, let the names of the repositories be single path
/// components, no two of them equal, and let the working trees keep out of the way of the
/// links. Then on any disk on which nothing stands in the way, a build in which every
/// action succeeds ends well, and on the disk it leaves the shared directory is there, each
/// repository has its working tree at the path computed for it and the branch, and the shared
/// directory holds for each repository a link named after it that points at its working tree.
/// Nothing else is new on that disk.
pub proof fn lemma_build_under_distinct_names(
    workspace_dir: Seq<char>,
    repos: Seq<RepoWorkspaceInputView>,
    branch: Seq<char>,
    disk: Disk,
    fuel: nat,
)
    requires
        repos.len() > 0,
        names_apart(repos),
        trees_clear(workspace_dir, repos, branch),
        site_fit(disk, workspace_dir, repos),
        fuel >= 4 * repos.len() + 1,
    ensures
        ({
            let (end, after) = play_create(
                create_start(workspace_dir, repos, branch),
                disk,
                all_goes_well(),
                fuel,
            );
            &&& end is Finished
            &&& after.has_directory(workspace_dir)
            &&& forall|i: int|
                0 <= i < repos.len() ==> after.has_worktree(#[trigger] tree_at(repos, branch, i))
            &&& forall|i: int|
                0 <= i < repos.len() ==> after.has_link(
                    #[trigger] link_at(workspace_dir, repos, i),
                    tree_at(repos, branch, i),
                )
            &&& new_at_places_only(disk, after, workspace_dir, repos, branch)
        }),
{
    lemma_names_keep_places_apart(workspace_dir, repos, branch);
    lemma_build_yields_workspace(workspace_dir, repos, branch, disk, fuel);
}

/// The build `m` has put nothing on `disk` that it will not take back: whatever lies on `disk`
/// lay on `before` already, unchanged, or is the shared directory (where `dir_left` says that
/// it is still to be removed), or one of the working trees from `from` up to, not including,
/// `upto`; and the working trees before `from` are gone.
pub open spec fn nothing_new(
    m: CreateWorkspaceView,
    disk: Disk,
    before: Disk,
    from: int,
    upto: int,
    dir_left: bool,
) -> bool {
    &&& forall|p: Seq<char>| #[trigger]
        disk.has(p) ==> {
            ||| before.has(p) && disk.nodes[p] == before.nodes[p]
            ||| dir_left && p == m.workspace_dir
            ||| exists|j: int| from <= j < upto && p == #[trigger] tree_at(m.repos, m.branch, j)
        }
    &&& forall|j: int| 0 <= j < from ==> !disk.has(#[trigger] tree_at(m.repos, m.branch, j))
}

/// The build `m`, about to ask for `action`, is on its way to the failure of working tree `k`.
pub open spec fn doomed(
    m: CreateWorkspaceView,
    action: ActionView,
    disk: Disk,
    before: Disk,
    k: int,
    reason: Seq<char>,
) -> bool {
    let n = m.repos.len() as int;
    &&& 0 <= k < n
    &&& !before.holds_below(m.workspace_dir)
    &&& disk.has(m.workspace_dir) ==> disk.nodes[m.workspace_dir] is Directory
    &&& match m.phase {
        CreatePhase::MakingDir => {
            &&& m.created.len() == 0
            &&& action == (ActionView::CreateDirAll { path: m.workspace_dir })
            &&& disk == before
        },
        CreatePhase::Creating => {
            &&& 0 <= m.index <= k
            &&& m.created =~= Seq::new(m.index as nat, |i: int| made_at(m.repos, m.branch, i))
            &&& action == m.create_action(m.index)
            &&& nothing_new(m, disk, before, 0, m.index, true)
        },
        CreatePhase::RollingBack => {
            &&& 0 <= m.index < k
            &&& m.created =~= Seq::new(k as nat, |i: int| made_at(m.repos, m.branch, i))
            &&& action == cleanup_of(m.created[m.index])
            &&& m.failure == partial_creation_text(m.repos[k].repo.name, reason)
            &&& nothing_new(m, disk, before, m.index, k, true)
        },
        CreatePhase::RemovingDir => {
            &&& action == (ActionView::RemoveDir { path: m.workspace_dir })
            &&& m.failure == partial_creation_text(m.repos[k].repo.name, reason)
            &&& nothing_new(m, disk, before, k, k, true)
        },
        _ => false,
    }
}

/// The number of actions that a build on its way to the failure of working tree `k` still
/// asks for.
pub open spec fn actions_to_failure(m: CreateWorkspaceView, k: int) -> int {
    match m.phase {
        CreatePhase::MakingDir => 2 * k + 3,
        CreatePhase::Creating => 2 * k + 2 - m.index,
        CreatePhase::RollingBack => k - m.index + 1,
        CreatePhase::RemovingDir => 1,
        _ => 0,
    }
}

/// One action of a build on its way to the failure of working tree `k` leaves it on that
/// way, or ends it with nothing left.
pub proof fn lemma_doom_kept(
    m: CreateWorkspaceView,
    action: ActionView,
    disk: Disk,
    before: Disk,
    k: int,
    reason: Seq<char>,
)
    requires
        doomed(m, action, disk, before, k, reason),
    ensures
        ({
            let outcome = tree_fails(k, reason)(m, action, disk);
            let after = action.applied(outcome, disk);
            match m.next(outcome) {
                ProgressView::Perform { machine, action: then } => {
                    &&& doomed(machine, then, after, before, k, reason)
                    &&& machine.workspace_dir == m.workspace_dir
                    &&& machine.repos == m.repos
                    &&& machine.branch == m.branch
                    &&& actions_to_failure(machine, k) < actions_to_failure(m, k)
                },
                ProgressView::Failed { error } => {
                    &&& error == WorkspaceErrorView::PartialCreation(
                        partial_creation_text(m.repos[k].repo.name, reason),
                    )
                    &&& nothing_new(m, after, before, k, k, false)
                    &&& !after.has(m.workspace_dir)
                },
                ProgressView::Finished { .. } => false,
            }
        }),
{
    let outcome = tree_fails(k, reason)(m, action, disk);
    let after = action.applied(outcome, disk);
    let dir = m.workspace_dir;
    match m.phase {
        CreatePhase::MakingDir => {
            assert(nothing_new(m, after, before, 0, 0, true));
            assert(m.created =~= Seq::new(0nat, |i: int| made_at(m.repos, m.branch, i)));
        },
        CreatePhase::Creating => {
            if m.index == k {
                assert(after == disk);
                if m.created.len() > 0 {
                    assert(m.created[0] == made_at(m.repos, m.branch, 0));
                    assert forall|p: Seq<char>| disk.has(p) implies {
                        ||| before.has(p) && disk.nodes[p] == before.nodes[p]
                        ||| p == dir
                        ||| exists|j: int| 0 <= j < k && p == #[trigger] tree_at(m.repos, m.branch, j)
                    } by {}
                }
            } else {
                let path = tree_at(m.repos, m.branch, m.index);
                assert(after == disk.with(path, Node::Directory { worktree: true }));
                let grown = m.created.push(m.made(m.index));
                assert(grown =~= Seq::new(
                    (m.index + 1) as nat,
                    |i: int| made_at(m.repos, m.branch, i),
                ));
                assert forall|p: Seq<char>| after.has(p) implies {
                    ||| before.has(p) && after.nodes[p] == before.nodes[p]
                    ||| p == dir
                    ||| exists|j: int|
                        0 <= j < m.index + 1 && p == #[trigger] tree_at(m.repos, m.branch, j)
                } by {
                    if p == path {
                        assert(p == tree_at(m.repos, m.branch, m.index));
                    } else {
                        assert(disk.has(p));
                        if !(before.has(p) && disk.nodes[p] == before.nodes[p]) && p != dir {
                            let j = choose|j: int|
                                0 <= j < m.index && p == #[trigger] tree_at(m.repos, m.branch, j);
                            assert(p == tree_at(m.repos, m.branch, j));
                        }
                    }
                }
            }
        },
        CreatePhase::RollingBack => {
            let path = tree_at(m.repos, m.branch, m.index);
            assert(m.created[m.index] == made_at(m.repos, m.branch, m.index));
            assert(after == disk.without_tree(path));
            assert(within(path, path));
            assert forall|p: Seq<char>| after.has(p) implies {
                ||| before.has(p) && after.nodes[p] == before.nodes[p]
                ||| p == dir
                ||| exists|j: int|
                    m.index + 1 <= j < k && p == #[trigger] tree_at(m.repos, m.branch, j)
            } by {
                assert(disk.has(p));
                assert(p != path);
                if !(before.has(p) && disk.nodes[p] == before.nodes[p]) && p != dir {
                    let j = choose|j: int|
                        m.index <= j < k && p == #[trigger] tree_at(m.repos, m.branch, j);
                    assert(p == tree_at(m.repos, m.branch, j));
                }
            }
            assert forall|j: int| 0 <= j < m.index + 1 implies !after.has(
                #[trigger] tree_at(m.repos, m.branch, j),
            ) by {
                if j < m.index {
                    assert(!disk.has(tree_at(m.repos, m.branch, j)));
                }
            }
            if m.index + 1 < k {
                assert(m.created[m.index + 1] == made_at(m.repos, m.branch, m.index + 1));
            }
        },
        CreatePhase::RemovingDir => {
            assert(!disk.holds_below(dir)) by {
                if disk.holds_below(dir) {
                    let p = choose|p: Seq<char>| #[trigger] disk.has(p) && within(p, dir) && p != dir;
                    assert(before.has(p));
                }
            }
            assert(after == if disk.has(dir) {
                disk.without(dir)
            } else {
                disk
            });
            assert forall|p: Seq<char>| after.has(p) implies before.has(p) && after.nodes[p]
                == before.nodes[p] by {
                assert(disk.has(p));
                assert(p != dir);
            }
            assert forall|j: int| 0 <= j < k implies !after.has(
                #[trigger] tree_at(m.repos, m.branch, j),
            ) by {
                assert(!disk.has(tree_at(m.repos, m.branch, j)));
            }
        },
        _ => {},
    }
}

/// A build on its way to the failure of working tree `k`, played to its end, reports that
/// failure and leaves nothing.
pub proof fn lemma_doom_ends(
    m: CreateWorkspaceView,
    action: ActionView,
    disk: Disk,
    before: Disk,
    k: int,
    reason: Seq<char>,
    fuel: nat,
)
    requires
        doomed(m, action, disk, before, k, reason),
        fuel >= actions_to_failure(m, k),
    ensures
        ({
            let (end, after) = play_create(
                ProgressView::Perform { machine: m, action },
                disk,
                tree_fails(k, reason),
                fuel,
            );
            &&& end == (CreateProgressView::Failed {
                error: WorkspaceErrorView::PartialCreation(
                    partial_creation_text(m.repos[k].repo.name, reason),
                ),
            })
            &&& nothing_new(m, after, before, k, k, false)
            &&& !after.has(m.workspace_dir)
        }),
    decreases fuel,
{
    lemma_doom_kept(m, action, disk, before, k, reason);
    let outcome = tree_fails(k, reason)(m, action, disk);
    reveal_with_fuel(play_create, 2);
    assert(fuel > 0);
    match m.next(outcome) {
        ProgressView::Perform { machine, action: then } => {
            lemma_doom_ends(
                machine,
                then,
                action.applied(outcome, disk),
                before,
                k,
                reason,
                (fuel - 1) as nat,
            );
            let after = play_create(
                ProgressView::Perform { machine, action: then },
                action.applied(outcome, disk),
                tree_fails(k, reason),
                (fuel - 1) as nat,
            ).1;
            assert(nothing_new(m, after, before, k, k, false)) by {
                assert(nothing_new(machine, after, before, k, k, false));
            }
        },
        _ => {},
    }
}

/// A build whose `k`-th working tree cannot be made leaves nothing behind.
///
/// Let the making of the working tree of repository `k` (counted from 0) fail with `reason`,
/// and let every other action succeed. Then on any disk the build ends with the error that
/// names that repository and the reason. Let the shared directory, if it was there before the
/// build, have been a directory that held nothing: only an empty directory is taken back.
/// Then on the disk that the build leaves there is no shared directory and none of the
/// working trees made before the failure, and whatever is there was there before the build,
/// unchanged.
pub proof fn lemma_failed_build_leaves_nothing(
    workspace_dir: Seq<char>,
    repos: Seq<RepoWorkspaceInputView>,
    branch: Seq<char>,
    disk: Disk,
    k: int,
    reason: Seq<char>,
    fuel: nat,
)
    requires
        0 <= k < repos.len(),
        disk.has(workspace_dir) ==> disk.nodes[workspace_dir] is Directory,
        !disk.holds_below(workspace_dir),
        fuel >= 2 * k + 3,
    ensures
        ({
            let (end, after) = play_create(
                create_start(workspace_dir, repos, branch),
                disk,
                tree_fails(k, reason),
                fuel,
            );
            &&& end == (CreateProgressView::Failed {
                error: WorkspaceErrorView::PartialCreation(
                    partial_creation_text(repos[k].repo.name, reason),
                ),
            })
            &&& !after.has(workspace_dir)
            &&& forall|j: int| 0 <= j < k ==> !after.has(#[trigger] tree_at(repos, branch, j))
            &&& after.nodes.submap_of(disk.nodes)
        }),
{
    match create_start(workspace_dir, repos, branch) {
        ProgressView::Perform { machine, action } => {
            lemma_doom_ends(machine, action, disk, disk, k, reason, fuel);
            let after = play_create(
                create_start(workspace_dir, repos, branch),
                disk,
                tree_fails(k, reason),
                fuel,
            ).1;
            assert(nothing_new(machine, after, disk, k, k, false));
            assert forall|p: Seq<char>| #[trigger]
                after.nodes.dom().contains(p) implies disk.nodes.dom().contains(p)
                && after.nodes[p] == disk.nodes[p] by {
                assert(after.has(p));
            }
        },
        _ => {},
    }
}

/// What decides how a build ends: whether the shared directory could be made, and which
/// working tree, if any, was the first that could not.
pub enum BuildFate {
    /// The shared directory could not be made, for this reason.
    NoDirectory(Seq<char>),
    /// The working tree of this repository could not be made, for this reason; the shared
    /// directory and the trees before it could.
    NoTree(int, Seq<char>),
    /// The shared directory and every working tree could be made.
    AllMade,
}

/// The world `script` deals the build the fate `fate`, whatever else it does: what it answers
/// to removals, inspections and the making of links is left open.
pub open spec fn deals(script: CreateScript, fate: BuildFate) -> bool {
    forall|m: CreateWorkspaceView, action: ActionView, disk: Disk|
        match fate {
            BuildFate::NoDirectory(reason) => m.phase == CreatePhase::MakingDir ==> #[trigger] script(
                m,
                action,
                disk,
            ) == (OutcomeView::Failed { reason }),
            BuildFate::NoTree(k, reason) => {
                &&& m.phase == CreatePhase::MakingDir ==> !(#[trigger] script(m, action, disk)
                    is Failed)
                &&& m.phase == CreatePhase::Creating && m.index < k ==> !(script(m, action, disk)
                    is Failed)
                &&& m.phase == CreatePhase::Creating && m.index == k ==> script(m, action, disk)
                    == (OutcomeView::Failed { reason })
            },
            BuildFate::AllMade => m.phase == CreatePhase::MakingDir || m.phase
                == CreatePhase::Creating ==> !(#[trigger] script(m, action, disk) is Failed),
        }
}

/// How a build with the fate `fate` ends.
pub open spec fn end_of(
    workspace_dir: Seq<char>,
    repos: Seq<RepoWorkspaceInputView>,
    branch: Seq<char>,
    fate: BuildFate,
) -> CreateProgressView {
    match fate {
        BuildFate::NoDirectory(reason) => ProgressView::Failed {
            error: WorkspaceErrorView::Io(reason),
        },
        BuildFate::NoTree(k, reason) => ProgressView::Failed {
            error: WorkspaceErrorView::PartialCreation(
                partial_creation_text(repos[k].repo.name, reason),
            ),
        },
        BuildFate::AllMade => ProgressView::Finished { value: built(workspace_dir, repos, branch) },
    }
}

/// The build `m` is in step with its fate.
pub open spec fn in_step(m: CreateWorkspaceView, fate: BuildFate) -> bool {
    let n = m.repos.len() as int;
    &&& n > 0
    &&& fate matches BuildFate::NoTree(k, _) ==> 0 <= k < n
    &&& m.created =~= Seq::new(m.created.len(), |i: int| made_at(m.repos, m.branch, i))
    &&& match m.phase {
        CreatePhase::MakingDir => m.created.len() == 0,
        CreatePhase::Creating => {
            &&& 0 <= m.index < n
            &&& m.created.len() == m.index
            &&& fate !is NoDirectory
            &&& fate matches BuildFate::NoTree(k, _) ==> m.index <= k
        },
        CreatePhase::RollingBack => {
            &&& fate matches BuildFate::NoTree(k, reason)
            &&& 0 <= m.index < m.created.len() == k
            &&& m.failure == partial_creation_text(m.repos[k].repo.name, reason)
        },
        CreatePhase::RemovingDir => {
            &&& fate matches BuildFate::NoTree(k, reason)
            &&& m.failure == partial_creation_text(m.repos[k].repo.name, reason)
        },
        _ => {
            &&& fate is AllMade
            &&& 0 <= m.index < n
            &&& m.created.len() == n
        },
    }
}

/// The number of actions that a build still asks for, at most, whatever the outcomes.
pub open spec fn actions_at_most(m: CreateWorkspaceView) -> int {
    let n = m.repos.len() as int;
    match m.phase {
        CreatePhase::MakingDir => 4 * n + 2,
        CreatePhase::Creating => 4 * n + 1 - m.index,
        CreatePhase::RollingBack => m.created.len() - m.index + 1,
        CreatePhase::RemovingDir => 1,
        CreatePhase::Inspecting => 3 * (n - m.index),
        CreatePhase::Clearing => 3 * (n - m.index) - 1,
        CreatePhase::Linking => 3 * (n - m.index) - 2,
    }
}

/// A build in step with its fate, played to its end, ends as its fate has it.
pub proof fn lemma_fate_fulfilled(
    m: CreateWorkspaceView,
    action: ActionView,
    disk: Disk,
    script: CreateScript,
    fate: BuildFate,
    fuel: nat,
)
    requires
        in_step(m, fate),
        deals(script, fate),
        fuel >= actions_at_most(m),
    ensures
        play_create(ProgressView::Perform { machine: m, action }, disk, script, fuel).0 == end_of(
            m.workspace_dir,
            m.repos,
            m.branch,
            fate,
        ),
    decreases fuel,
{
    let n = m.repos.len() as int;
    let outcome = script(m, action, disk);
    reveal_with_fuel(play_create, 2);
    assert(fuel > 0);
    if m.phase == CreatePhase::Creating && !(outcome is Failed) {
        let grown = m.created.push(m.made(m.index));
        assert(grown =~= Seq::new(grown.len(), |i: int| made_at(m.repos, m.branch, i)));
    }
    if m.phase == CreatePhase::Linking && m.index + 1 >= n {
        assert(m.created =~= built(m.workspace_dir, m.repos, m.branch).worktrees);
    }
    match m.next(outcome) {
        ProgressView::Perform { machine, action: then } => {
            assert(in_step(machine, fate));
            assert(actions_at_most(machine) < actions_at_most(m));
            lemma_fate_fulfilled(
                machine,
                then,
                action.applied(outcome, disk),
                script,
                fate,
                (fuel - 1) as nat,
            );
        },
        _ => {},
    }
}

/// How a build ends is decided by the shared directory and the working trees alone.
///
/// Let there be at least one repository. Where the shared directory cannot be made, the build
/// ends with the input-output error and its reason. Where the directory is made and the
/// working tree of repository `k` is the first that cannot be, the build ends with the error
/// that names that repository and the reason, whether or not the trees made before and the
/// directory could be taken back. Where the directory and all working trees are made, the
/// build ends well and hands back one working tree for each repository, whatever becomes of
/// the links.
pub proof fn lemma_build_ends_by_its_fate(
    workspace_dir: Seq<char>,
    repos: Seq<RepoWorkspaceInputView>,
    branch: Seq<char>,
    disk: Disk,
    script: CreateScript,
    fate: BuildFate,
    fuel: nat,
)
    requires
        repos.len() > 0,
        fate matches BuildFate::NoTree(k, _) ==> 0 <= k < repos.len(),
        deals(script, fate),
        fuel >= 4 * repos.len() + 2,
    ensures
        play_create(create_start(workspace_dir, repos, branch), disk, script, fuel).0 == end_of(
            workspace_dir,
            repos,
            branch,
            fate,
        ),
{
    match create_start(workspace_dir, repos, branch) {
        ProgressView::Perform { machine, action } => {
            assert(machine.created =~= Seq::new(0nat, |i: int| made_at(repos, branch, i)));
            if fate is NoDirectory {
                reveal_with_fuel(play_create, 2);
            } else {
                lemma_fate_fulfilled(machine, action, disk, script, fate, fuel);
            }
        },
        _ => {},
    }
}

} // verus!

//! Repairing a workspace after a restart: every repository gets its working tree beside it
//! and its link in the shared directory, and a working tree still lying inside the shared
//! directory, as older layouts had it, is moved out first.

use crate::disk::{
    Action, ActionView, Outcome, OutcomeView, PathState, PathStateView, Progress, ProgressView,
};
use crate::path::{join, join_path, worktree_path};
use crate::workspace::{Repo, RepoView, WorkspaceError, WorkspaceErrorView};
use crate::workspace_manager::WorkspaceManager;
use vstd::prelude::*;

verus! {

/// What the place of a repository's link says about the layout.
#[derive(Clone, Copy, Debug, PartialEq, Eq, Structural)]
pub enum LegacyState {
    /// A link to the working tree beside the repository: nothing to do.
    Current,
    /// A working tree lies here itself, as in the old layout: it has to move out.
    LegacyUnmigrated,
    /// Anything else: no link, a link that points elsewhere, or something in the way. The
    /// link has to be made anew.
    LegacySymlinkStale,
}

/// The layout state of a link's place where `found` lies and the working tree belongs at
/// `sibling`.
pub open spec fn legacy_state_of(found: PathStateView, sibling: Seq<char>) -> LegacyState {
    if found.exists && !found.is_symlink && found.has_git_file {
        LegacyState::LegacyUnmigrated
    } else if found.is_symlink && found.link_target == Some(sibling) {
        LegacyState::Current
    } else {
        LegacyState::LegacySymlinkStale
    }
}

/// Tells the layout state of a link's place from what was found there.
pub fn detect_legacy_state(found: &PathState, sibling: &String) -> (r: LegacyState)
    ensures
        r == legacy_state_of(found@, sibling@),
{
    if found.exists && !found.is_symlink && found.has_git_file {
        return LegacyState::LegacyUnmigrated;
    }
    if found.is_symlink {
        match &found.link_target {
            Some(target) => {
                if *target == *sibling {
                    return LegacyState::Current;
                }
            },
            None => {},
        }
    }
    LegacyState::LegacySymlinkStale
}

/// What a repair is waiting for. All but the first two concern repository `index`.
#[derive(Clone, Copy, Debug, PartialEq, Eq, Structural)]
pub enum EnsurePhase {
    /// The shared directory is being looked at.
    CheckingDir,
    /// The shared directory is being made.
    MakingDir,
    /// The place of the link is being looked at.
    Detecting,
    /// The working tree of the old layout is being moved beside its repository.
    Migrating,
    /// The working tree that could not be moved is being removed.
    Discarding,
    /// The working tree beside the repository is being made sure of.
    Ensuring,
    /// The place of the link is being looked at again.
    Rechecking,
    /// What lies at the place of the link is being removed.
    Clearing,
    /// The link is being made.
    Linking,
}

/// A repair under way.
#[derive(Debug)]
pub struct EnsureWorkspace {
    workspace_dir: String,
    repos: Vec<Repo>,
    branch: String,
    phase: EnsurePhase,
    index: usize,
}

/// The mathematical value of an [`EnsureWorkspace`].
pub struct EnsureWorkspaceView {
    pub workspace_dir: Seq<char>,
    pub repos: Seq<RepoView>,
    pub branch: Seq<char>,
    pub phase: EnsurePhase,
    pub index: int,
}

impl EnsureWorkspaceView {
    /// Where the working tree of repository `i` belongs.
    pub open spec fn tree_path(self, i: int) -> Seq<char> {
        worktree_path(self.repos[i].path, self.branch)
    }

    /// Where the link of repository `i` belongs, and where the old layout had its tree.
    pub open spec fn link_path(self, i: int) -> Seq<char> {
        join_path(self.workspace_dir, self.repos[i].name)
    }

    /// The repair in another phase, at another repository.
    pub open spec fn at(self, phase: EnsurePhase, index: int) -> EnsureWorkspaceView {
        EnsureWorkspaceView { phase, index, ..self }
    }

    /// The repair asking for `action` and waiting in `phase`.
    pub open spec fn ask(self, phase: EnsurePhase, action: ActionView) -> ProgressView<
        EnsureWorkspaceView,
        (),
    > {
        ProgressView::Perform { machine: self.at(phase, self.index), action }
    }

    /// The order to look at the place of the link.
    pub open spec fn inspect_link(self) -> ActionView {
        ActionView::Inspect { path: self.link_path(self.index) }
    }

    /// The order to make sure of the working tree.
    pub open spec fn ensure_tree(self) -> ActionView {
        ActionView::EnsureWorktree {
            source_repo: self.repos[self.index].path,
            branch: self.branch,
            path: self.tree_path(self.index),
        }
    }

    /// The order to move the working tree of the old layout out.
    pub open spec fn move_tree(self) -> ActionView {
        ActionView::MoveWorktree {
            source_repo: self.repos[self.index].path,
            from: self.link_path(self.index),
            to: self.tree_path(self.index),
        }
    }

    /// The order to make the link.
    pub open spec fn make_link(self) -> ActionView {
        ActionView::Symlink {
            target: self.tree_path(self.index),
            link: self.link_path(self.index),
        }
    }

    /// The repair turning to repository `i`, or done where there is none.
    pub open spec fn turn_to(self, i: int) -> ProgressView<EnsureWorkspaceView, ()> {
        if i < self.repos.len() {
            ProgressView::Perform {
                machine: self.at(EnsurePhase::Detecting, i),
                action: ActionView::Inspect { path: self.link_path(i) },
            }
        } else {
            ProgressView::Finished { value: () }
        }
    }

    /// What the repair does after the outcome of the action it last asked for.
    pub open spec fn next(self, outcome: OutcomeView) -> ProgressView<EnsureWorkspaceView, ()> {
        match self.phase {
            EnsurePhase::CheckingDir => if outcome.state().exists {
                self.turn_to(0)
            } else {
                self.ask(
                    EnsurePhase::MakingDir,
                    ActionView::CreateDirAll { path: self.workspace_dir },
                )
            },
            EnsurePhase::MakingDir => match outcome {
                OutcomeView::Failed { reason } => ProgressView::Failed {
                    error: WorkspaceErrorView::Io(reason),
                },
                _ => self.turn_to(0),
            },
            EnsurePhase::Detecting => if legacy_state_of(
                outcome.state(),
                self.tree_path(self.index),
            ) == LegacyState::LegacyUnmigrated {
                self.ask(EnsurePhase::Migrating, self.move_tree())
            } else {
                self.ask(EnsurePhase::Ensuring, self.ensure_tree())
            },
            EnsurePhase::Migrating => if outcome is Failed {
                self.ask(
                    EnsurePhase::Discarding,
                    ActionView::RemoveDirAll { path: self.link_path(self.index) },
                )
            } else {
                self.ask(EnsurePhase::Ensuring, self.ensure_tree())
            },
            EnsurePhase::Discarding => self.ask(EnsurePhase::Ensuring, self.ensure_tree()),
            EnsurePhase::Ensuring => match outcome {
                OutcomeView::Failed { reason } => ProgressView::Failed {
                    error: WorkspaceErrorView::Worktree(reason),
                },
                _ => self.ask(EnsurePhase::Rechecking, self.inspect_link()),
            },
            EnsurePhase::Rechecking => {
                let found = outcome.state();
                if legacy_state_of(found, self.tree_path(self.index)) == LegacyState::Current {
                    self.turn_to(self.index + 1)
                } else if found.is_symlink {
                    self.ask(
                        EnsurePhase::Clearing,
                        ActionView::RemoveFile { path: self.link_path(self.index) },
                    )
                } else if found.exists {
                    self.ask(
                        EnsurePhase::Clearing,
                        ActionView::RemoveDirAll { path: self.link_path(self.index) },
                    )
                } else {
                    self.ask(EnsurePhase::Linking, self.make_link())
                }
            },
            EnsurePhase::Clearing => self.ask(EnsurePhase::Linking, self.make_link()),
            EnsurePhase::Linking => self.turn_to(self.index + 1),
        }
    }
}

/// How the repair of the workspace of `repos` on `branch` under `workspace_dir` begins: by
/// looking at the shared directory, whether or not there is a repository. A workspace without
/// repositories is repaired once its shared directory is there.
pub open spec fn ensure_start(
    workspace_dir: Seq<char>,
    repos: Seq<RepoView>,
    branch: Seq<char>,
) -> ProgressView<EnsureWorkspaceView, ()> {
    ProgressView::Perform {
        machine: EnsureWorkspaceView {
            workspace_dir,
            repos,
            branch,
            phase: EnsurePhase::CheckingDir,
            index: 0,
        },
        action: ActionView::Inspect { path: workspace_dir },
    }
}

impl View for EnsureWorkspace {
    type V = EnsureWorkspaceView;

    closed spec fn view(&self) -> EnsureWorkspaceView {
        EnsureWorkspaceView {
            workspace_dir: self.workspace_dir@,
            repos: self.repos.deep_view(),
            branch: self.branch@,
            phase: self.phase,
            index: self.index as int,
        }
    }
}

/// A copy of the repositories.
pub(crate) fn clone_repos(repos: &Vec<Repo>) -> (r: Vec<Repo>)
    ensures
        r.deep_view() == repos.deep_view(),
{
    let mut out: Vec<Repo> = Vec::new();
    let mut i: usize = 0;
    while i < repos.len()
        invariant
            i <= repos.len(),
            out.len() == i,
            forall|j: int| 0 <= j < i ==> out[j]@ == repos[j]@,
        decreases repos.len() - i,
    {
        out.push(repos[i].clone());
        i += 1;
    }
    assert(out.deep_view() =~= repos.deep_view());
    out
}

impl EnsureWorkspace {
    #[verifier::type_invariant]
    spec fn wf(self) -> bool {
        self.phase == EnsurePhase::CheckingDir || self.phase == EnsurePhase::MakingDir
            || self.index < self.repos.len()
    }

    /// Begins a repair; see [`ensure_start`].
    pub(crate) fn start(workspace_dir: &str, repos: &Vec<Repo>, branch_name: &str) -> (r: Progress<
        EnsureWorkspace,
        (),
    >)
        ensures
            r@ == ensure_start(workspace_dir@, repos.deep_view(), branch_name@),
    {
        let machine = EnsureWorkspace {
            workspace_dir: String::from_str(workspace_dir),
            repos: clone_repos(repos),
            branch: String::from_str(branch_name),
            phase: EnsurePhase::CheckingDir,
            index: 0,
        };
        let action = Action::Inspect { path: String::from_str(workspace_dir) };
        Progress::Perform { machine, action }
    }

    fn tree_path(&self, i: usize) -> (r: String)
        requires
            i < self.repos.len(),
        ensures
            r@ == self@.tree_path(i as int),
    {
        WorkspaceManager::compute_worktree_path(self.repos[i].path.as_str(), self.branch.as_str())
    }

    fn link_path(&self, i: usize) -> (r: String)
        requires
            i < self.repos.len(),
        ensures
            r@ == self@.link_path(i as int),
    {
        join(self.workspace_dir.as_str(), self.repos[i].name.as_str())
    }

    fn ensure_tree(&self) -> (r: Action)
        requires
            self.index < self.repos.len(),
        ensures
            r@ == self@.ensure_tree(),
    {
        Action::EnsureWorktree {
            source_repo: self.repos[self.index].path.clone(),
            branch: self.branch.clone(),
            path: self.tree_path(self.index),
        }
    }

    fn move_tree(&self) -> (r: Action)
        requires
            self.index < self.repos.len(),
        ensures
            r@ == self@.move_tree(),
    {
        Action::MoveWorktree {
            source_repo: self.repos[self.index].path.clone(),
            from: self.link_path(self.index),
            to: self.tree_path(self.index),
        }
    }

    fn make_link(&self) -> (r: Action)
        requires
            self.index < self.repos.len(),
        ensures
            r@ == self@.make_link(),
    {
        Action::Symlink { target: self.tree_path(self.index), link: self.link_path(self.index) }
    }

    fn ask(self, phase: EnsurePhase, action: Action) -> (r: Progress<EnsureWorkspace, ()>)
        requires
            self.index < self.repos.len() || phase == EnsurePhase::MakingDir,
        ensures
            r@ == self@.ask(phase, action@),
    {
        proof {
            use_type_invariant(&self);
        }
        Progress::Perform { machine: EnsureWorkspace { phase, ..self }, action }
    }

    fn turn_to(self, i: usize) -> (r: Progress<EnsureWorkspace, ()>)
        ensures
            r@ == self@.turn_to(i as int),
    {
        proof {
            use_type_invariant(&self);
        }
        if i < self.repos.len() {
            let action = Action::Inspect { path: self.link_path(i) };
            Progress::Perform {
                machine: EnsureWorkspace { phase: EnsurePhase::Detecting, index: i, ..self },
                action,
            }
        } else {
            Progress::Finished { value: () }
        }
    }

    /// Takes the outcome of the action last asked for and says what comes next.
    pub fn resume(self, outcome: &Outcome) -> (r: Progress<EnsureWorkspace, ()>)
        ensures
            r@ == self@.next(outcome@),
    {
        proof {
            use_type_invariant(&self);
        }
        let missing = PathState::missing();
        let found = match outcome {
            Outcome::Inspected { state } => state,
            _ => &missing,
        };
        assert(found@ == outcome@.state());
        match self.phase {
            EnsurePhase::CheckingDir => {
                if found.exists {
                    self.turn_to(0)
                } else {
                    let action = Action::CreateDirAll { path: self.workspace_dir.clone() };
                    self.ask(EnsurePhase::MakingDir, action)
                }
            },
            EnsurePhase::MakingDir => match outcome.failure() {
                Some(reason) => Progress::Failed { error: WorkspaceError::Io(reason) },
                None => self.turn_to(0),
            },
            EnsurePhase::Detecting => {
                let sibling = self.tree_path(self.index);
                match detect_legacy_state(found, &sibling) {
                    LegacyState::LegacyUnmigrated => {
                        let action = self.move_tree();
                        self.ask(EnsurePhase::Migrating, action)
                    },
                    _ => {
                        let action = self.ensure_tree();
                        self.ask(EnsurePhase::Ensuring, action)
                    },
                }
            },
            EnsurePhase::Migrating => {
                if outcome.is_failure() {
                    let action = Action::RemoveDirAll { path: self.link_path(self.index) };
                    self.ask(EnsurePhase::Discarding, action)
                } else {
                    let action = self.ensure_tree();
                    self.ask(EnsurePhase::Ensuring, action)
                }
            },
            EnsurePhase::Discarding => {
                let action = self.ensure_tree();
                self.ask(EnsurePhase::Ensuring, action)
            },
            EnsurePhase::Ensuring => match outcome.failure() {
                Some(reason) => Progress::Failed { error: WorkspaceError::Worktree(reason) },
                None => {
                    let action = Action::Inspect { path: self.link_path(self.index) };
                    self.ask(EnsurePhase::Rechecking, action)
                },
            },
            EnsurePhase::Rechecking => {
                let sibling = self.tree_path(self.index);
                match detect_legacy_state(found, &sibling) {
                    LegacyState::Current => {
                        let i = self.index + 1;
                        self.turn_to(i)
                    },
                    _ => {
                        if found.is_symlink {
                            let action = Action::RemoveFile { path: self.link_path(self.index) };
                            self.ask(EnsurePhase::Clearing, action)
                        } else if found.exists {
                            let action = Action::RemoveDirAll { path: self.link_path(self.index) };
                            self.ask(EnsurePhase::Clearing, action)
                        } else {
                            let action = self.make_link();
                            self.ask(EnsurePhase::Linking, action)
                        }
                    },
                }
            },
            EnsurePhase::Clearing => {
                let action = self.make_link();
                self.ask(EnsurePhase::Linking, action)
            },
            EnsurePhase::Linking => {
                let i = self.index + 1;
                self.turn_to(i)
            },
        }
    }
}

} // verus!

//! Building a workspace: the shared directory, one working tree for each repository beside
//! its repository, and a link to each tree in the shared directory. All or nothing: the first
//! tree that cannot be made takes back the trees made before it and the shared directory.

use crate::disk::{Action, ActionView, Outcome, OutcomeView, Progress, ProgressView};
use crate::path::{join, join_path, worktree_path};
use crate::workspace::{
    partial_creation_message, partial_creation_text, RepoWorkspaceInput, RepoWorkspaceInputView,
    RepoWorktree, RepoWorktreeView, WorkspaceError, WorkspaceErrorView, WorktreeCleanup,
    WorktreeCleanupView, WorktreeContainer, WorktreeContainerView,
};
use crate::workspace_manager::WorkspaceManager;
use vstd::prelude::*;

verus! {

/// What a build is waiting for.
#[derive(Clone, Copy, Debug, PartialEq, Eq, Structural)]
pub enum CreatePhase {
    /// The shared directory is being made.
    MakingDir,
    /// The working tree of repository `index` is being made.
    Creating,
    /// The working tree made for repository `index` is being taken back.
    RollingBack,
    /// The shared directory is being taken back.
    RemovingDir,
    /// The place of link `index` is being looked at.
    Inspecting,
    /// What lay at the place of link `index` is being removed.
    Clearing,
    /// Link `index` is being made.
    Linking,
}

/// A build under way.
#[derive(Debug)]
pub struct CreateWorkspace {
    workspace_dir: String,
    repos: Vec<RepoWorkspaceInput>,
    branch: String,
    phase: CreatePhase,
    index: usize,
    created: Vec<RepoWorktree>,
    failure: String,
}

/// The mathematical value of a [`CreateWorkspace`].
pub struct CreateWorkspaceView {
    pub workspace_dir: Seq<char>,
    pub repos: Seq<RepoWorkspaceInputView>,
    pub branch: Seq<char>,
    pub phase: CreatePhase,
    pub index: int,
    pub created: Seq<RepoWorktreeView>,
    pub failure: Seq<char>,
}

/// The order to remove the working tree `made`.
pub open spec fn cleanup_of(made: RepoWorktreeView) -> ActionView {
    ActionView::CleanupWorktree {
        worktree: WorktreeCleanupView {
            worktree_path: made.worktree_path,
            git_repo_path: Some(made.source_repo_path),
        },
    }
}

impl CreateWorkspaceView {
    /// Where the working tree of repository `i` lies.
    pub open spec fn tree_path(self, i: int) -> Seq<char> {
        worktree_path(self.repos[i].repo.path, self.branch)
    }

    /// Where the link to the working tree of repository `i` lies.
    pub open spec fn link_path(self, i: int) -> Seq<char> {
        join_path(self.workspace_dir, self.repos[i].repo.name)
    }

    /// The order to make the working tree of repository `i`.
    pub open spec fn create_action(self, i: int) -> ActionView {
        ActionView::CreateWorktree {
            source_repo: self.repos[i].repo.path,
            branch: self.branch,
            path: self.tree_path(i),
            base_branch: self.repos[i].target_branch,
            checkout: true,
        }
    }

    /// The working tree of repository `i`, once made.
    pub open spec fn made(self, i: int) -> RepoWorktreeView {
        RepoWorktreeView {
            repo_id: self.repos[i].repo.id,
            repo_name: self.repos[i].repo.name,
            source_repo_path: self.repos[i].repo.path,
            worktree_path: self.tree_path(i),
        }
    }

    /// The order to make link `i`.
    pub open spec fn link_action(self, i: int) -> ActionView {
        ActionView::Symlink { target: self.created[i].worktree_path, link: self.link_path(i) }
    }

    /// The build in another phase, at another index.
    pub open spec fn at(self, phase: CreatePhase, index: int) -> CreateWorkspaceView {
        CreateWorkspaceView { phase, index, ..self }
    }

    /// What the build does after the outcome of the action it last asked for.
    pub open spec fn next(self, outcome: OutcomeView) -> ProgressView<
        CreateWorkspaceView,
        WorktreeContainerView,
    > {
        match self.phase {
            CreatePhase::MakingDir => match outcome {
                OutcomeView::Failed { reason } => ProgressView::Failed {
                    error: WorkspaceErrorView::Io(reason),
                },
                _ => ProgressView::Perform {
                    machine: self.at(CreatePhase::Creating, 0),
                    action: self.create_action(0),
                },
            },
            CreatePhase::Creating => match outcome {
                OutcomeView::Failed { reason } => {
                    let failure = partial_creation_text(self.repos[self.index].repo.name, reason);
                    if self.created.len() > 0 {
                        ProgressView::Perform {
                            machine: CreateWorkspaceView {
                                failure,
                                ..self.at(CreatePhase::RollingBack, 0)
                            },
                            action: cleanup_of(self.created[0]),
                        }
                    } else {
                        ProgressView::Perform {
                            machine: CreateWorkspaceView {
                                failure,
                                ..self.at(CreatePhase::RemovingDir, 0)
                            },
                            action: ActionView::RemoveDir { path: self.workspace_dir },
                        }
                    }
                },
                _ => {
                    let grown = CreateWorkspaceView {
                        created: self.created.push(self.made(self.index)),
                        ..self
                    };
                    if self.index + 1 < self.repos.len() {
                        ProgressView::Perform {
                            machine: grown.at(CreatePhase::Creating, self.index + 1),
                            action: self.create_action(self.index + 1),
                        }
                    } else {
                        ProgressView::Perform {
                            machine: grown.at(CreatePhase::Inspecting, 0),
                            action: ActionView::Inspect { path: self.link_path(0) },
                        }
                    }
                },
            },
            CreatePhase::RollingBack => if self.index + 1 < self.created.len() {
                ProgressView::Perform {
                    machine: self.at(CreatePhase::RollingBack, self.index + 1),
                    action: cleanup_of(self.created[self.index + 1]),
                }
            } else {
                ProgressView::Perform {
                    machine: self.at(CreatePhase::RemovingDir, 0),
                    action: ActionView::RemoveDir { path: self.workspace_dir },
                }
            },
            CreatePhase::RemovingDir => ProgressView::Failed {
                error: WorkspaceErrorView::PartialCreation(self.failure),
            },
            CreatePhase::Inspecting => {
                let found = outcome.state();
                if found.is_symlink {
                    ProgressView::Perform {
                        machine: self.at(CreatePhase::Clearing, self.index),
                        action: ActionView::RemoveFile { path: self.link_path(self.index) },
                    }
                } else if found.exists && found.is_dir {
                    ProgressView::Perform {
                        machine: self.at(CreatePhase::Clearing, self.index),
                        action: ActionView::RemoveDirAll { path: self.link_path(self.index) },
                    }
                } else {
                    ProgressView::Perform {
                        machine: self.at(CreatePhase::Linking, self.index),
                        action: self.link_action(self.index),
                    }
                }
            },
            CreatePhase::Clearing => ProgressView::Perform {
                machine: self.at(CreatePhase::Linking, self.index),
                action: self.link_action(self.index),
            },
            CreatePhase::Linking => if self.index + 1 < self.created.len() {
                ProgressView::Perform {
                    machine: self.at(CreatePhase::Inspecting, self.index + 1),
                    action: ActionView::Inspect { path: self.link_path(self.index + 1) },
                }
            } else {
                ProgressView::Finished {
                    value: WorktreeContainerView {
                        workspace_dir: self.workspace_dir,
                        worktrees: self.created,
                    },
                }
            },
        }
    }
}

/// How a build of `repos` on `branch` under `workspace_dir` begins: refused where there is no
/// repository, else by making the shared directory.
pub open spec fn create_start(
    workspace_dir: Seq<char>,
    repos: Seq<RepoWorkspaceInputView>,
    branch: Seq<char>,
) -> ProgressView<CreateWorkspaceView, WorktreeContainerView> {
    if repos.len() == 0 {
        ProgressView::Failed { error: WorkspaceErrorView::NoRepositories }
    } else {
        ProgressView::Perform {
            machine: CreateWorkspaceView {
                workspace_dir,
                repos,
                branch,
                phase: CreatePhase::MakingDir,
                index: 0,
                created: Seq::empty(),
                failure: Seq::empty(),
            },
            action: ActionView::CreateDirAll { path: workspace_dir },
        }
    }
}

impl View for CreateWorkspace {
    type V = CreateWorkspaceView;

    closed spec fn view(&self) -> CreateWorkspaceView {
        CreateWorkspaceView {
            workspace_dir: self.workspace_dir@,
            repos: self.repos.deep_view(),
            branch: self.branch@,
            phase: self.phase,
            index: self.index as int,
            created: self.created.deep_view(),
            failure: self.failure@,
        }
    }
}

/// A copy of the inputs.
pub(crate) fn clone_inputs(repos: &Vec<RepoWorkspaceInput>) -> (r: Vec<RepoWorkspaceInput>)
    ensures
        r.deep_view() == repos.deep_view(),
{
    let mut out: Vec<RepoWorkspaceInput> = Vec::new();
    let mut i: usize = 0;
    while i < repos.len()
        invariant
            i <= repos.len(),
            out.len() == i,
            forall|j: int| 0 <= j < i ==> out[j]@ == repos[j]@,
        decreases repos.len() - i,
    {
        out.push(repos[i].clone());
        i += 1;
    }
    assert(out.deep_view() =~= repos.deep_view());
    out
}

impl CreateWorkspace {
    #[verifier::type_invariant]
    spec fn wf(self) -> bool {
        match self.phase {
            CreatePhase::MakingDir => self.repos.len() > 0 && self.created.len() == 0,
            CreatePhase::Creating => self.index < self.repos.len() && self.created.len()
                == self.index,
            CreatePhase::RollingBack => self.index < self.created.len(),
            CreatePhase::RemovingDir => true,
            _ => self.created.len() == self.repos.len() && self.index < self.created.len(),
        }
    }

    /// Begins a build; see [`create_start`].
    pub(crate) fn start(
        workspace_dir: &str,
        repos: &Vec<RepoWorkspaceInput>,
        branch_name: &str,
    ) -> (r: Progress<CreateWorkspace, WorktreeContainer>)
        ensures
            r@ == create_start(workspace_dir@, repos.deep_view(), branch_name@),
    {
        if repos.len() == 0 {
            return Progress::Failed { error: WorkspaceError::NoRepositories };
        }
        let machine = CreateWorkspace {
            workspace_dir: String::from_str(workspace_dir),
            repos: clone_inputs(repos),
            branch: String::from_str(branch_name),
            phase: CreatePhase::MakingDir,
            index: 0,
            created: Vec::new(),
            failure: String::new(),
        };
        assert(machine.created.deep_view() =~= Seq::<RepoWorktreeView>::empty());
        Progress::Perform {
            machine,
            action: Action::CreateDirAll { path: String::from_str(workspace_dir) },
        }
    }

    fn create_action(&self, i: usize) -> (r: Action)
        requires
            i < self.repos.len(),
        ensures
            r@ == self@.create_action(i as int),
    {
        let input = &self.repos[i];
        Action::CreateWorktree {
            source_repo: input.repo.path.clone(),
            branch: self.branch.clone(),
            path: WorkspaceManager::compute_worktree_path(
                input.repo.path.as_str(),
                self.branch.as_str(),
            ),
            base_branch: input.target_branch.clone(),
            checkout: true,
        }
    }

    fn made(&self, i: usize) -> (r: RepoWorktree)
        requires
            i < self.repos.len(),
        ensures
            r@ == self@.made(i as int),
    {
        let input = &self.repos[i];
        RepoWorktree {
            repo_id: input.repo.id,
            repo_name: input.repo.name.clone(),
            source_repo_path: input.repo.path.clone(),
            worktree_path: WorkspaceManager::compute_worktree_path(
                input.repo.path.as_str(),
                self.branch.as_str(),
            ),
        }
    }

    fn link_path(&self, i: usize) -> (r: String)
        requires
            i < self.repos.len(),
        ensures
            r@ == self@.link_path(i as int),
    {
        join(self.workspace_dir.as_str(), self.repos[i].repo.name.as_str())
    }

    fn link_action(&self, i: usize) -> (r: Action)
        requires
            i < self.repos.len(),
            i < self.created.len(),
        ensures
            r@ == self@.link_action(i as int),
    {
        Action::Symlink { target: self.created[i].worktree_path.clone(), link: self.link_path(i) }
    }

    fn cleanup_action(&self, i: usize) -> (r: Action)
        requires
            i < self.created.len(),
        ensures
            r@ == cleanup_of(self@.created[i as int]),
    {
        let made = &self.created[i];
        Action::CleanupWorktree {
            worktree: WorktreeCleanup {
                worktree_path: made.worktree_path.clone(),
                git_repo_path: Some(made.source_repo_path.clone()),
            },
        }
    }

    /// The build in another phase, at another index.
    fn at(self, phase: CreatePhase, index: usize) -> (r: Self)
        requires
            (CreateWorkspace { phase, index, ..self }).wf(),
        ensures
            r@ == self@.at(phase, index as int),
    {
        CreateWorkspace { phase, index, ..self }
    }

    /// Takes the outcome of the action last asked for and says what comes next.
    pub fn resume(self, outcome: &Outcome) -> (r: Progress<CreateWorkspace, WorktreeContainer>)
        ensures
            r@ == self@.next(outcome@),
    {
        proof {
            use_type_invariant(&self);
        }
        match self.phase {
            CreatePhase::MakingDir => match outcome.failure() {
                Some(reason) => Progress::Failed { error: WorkspaceError::Io(reason) },
                None => {
                    let action = self.create_action(0);
                    Progress::Perform { machine: self.at(CreatePhase::Creating, 0), action }
                },
            },
            CreatePhase::Creating => match outcome.failure() {
                Some(reason) => {
                    let failure = partial_creation_message(
                        self.repos[self.index].repo.name.as_str(),
                        reason.as_str(),
                    );
                    if self.created.len() > 0 {
                        let action = self.cleanup_action(0);
                        let machine = CreateWorkspace {
                            failure,
                            phase: CreatePhase::RollingBack,
                            index: 0,
                            ..self
                        };
                        Progress::Perform { machine, action }
                    } else {
                        let action = Action::RemoveDir { path: self.workspace_dir.clone() };
                        let machine = CreateWorkspace {
                            failure,
                            phase: CreatePhase::RemovingDir,
                            index: 0,
                            ..self
                        };
                        Progress::Perform { machine, action }
                    }
                },
                None => {
                    let ghost before = self@;
                    let i = self.index;
                    let made = self.made(i);
                    let last = i + 1 >= self.repos.len();
                    let action = if last {
                        Action::Inspect { path: self.link_path(0) }
                    } else {
                        self.create_action(i + 1)
                    };
                    let CreateWorkspace { workspace_dir, repos, branch, created, failure, .. } =
                        self;
                    let mut created = created;
                    created.push(made);
                    assert(created.deep_view() =~= before.created.push(before.made(i as int)));
                    let machine = CreateWorkspace {
                        workspace_dir,
                        repos,
                        branch,
                        phase: if last {
                            CreatePhase::Inspecting
                        } else {
                            CreatePhase::Creating
                        },
                        index: if last {
                            0
                        } else {
                            i + 1
                        },
                        created,
                        failure,
                    };
                    Progress::Perform { machine, action }
                },
            },
            CreatePhase::RollingBack => {
                if self.index + 1 < self.created.len() {
                    let action = self.cleanup_action(self.index + 1);
                    let next = self.index + 1;
                    Progress::Perform { machine: self.at(CreatePhase::RollingBack, next), action }
                } else {
                    let action = Action::RemoveDir { path: self.workspace_dir.clone() };
                    Progress::Perform { machine: self.at(CreatePhase::RemovingDir, 0), action }
                }
            },
            CreatePhase::RemovingDir => Progress::Failed {
                error: WorkspaceError::PartialCreation(self.failure),
            },
            CreatePhase::Inspecting => {
                let (is_symlink, is_real_dir) = match outcome {
                    Outcome::Inspected { state } => {
                        (state.is_symlink, state.exists && state.is_dir)
                    },
                    _ => (false, false),
                };
                let i = self.index;
                if is_symlink {
                    let action = Action::RemoveFile { path: self.link_path(i) };
                    Progress::Perform { machine: self.at(CreatePhase::Clearing, i), action }
                } else if is_real_dir {
                    let action = Action::RemoveDirAll { path: self.link_path(i) };
                    Progress::Perform { machine: self.at(CreatePhase::Clearing, i), action }
                } else {
                    let action = self.link_action(i);
                    Progress::Perform { machine: self.at(CreatePhase::Linking, i), action }
                }
            },
            CreatePhase::Clearing => {
                let i = self.index;
                let action = self.link_action(i);
                Progress::Perform { machine: self.at(CreatePhase::Linking, i), action }
            },
            CreatePhase::Linking => {
                if self.index + 1 < self.created.len() {
                    let next = self.index + 1;
                    let action = Action::Inspect { path: self.link_path(next) };
                    Progress::Perform { machine: self.at(CreatePhase::Inspecting, next), action }
                } else {
                    Progress::Finished {
                        value: WorktreeContainer {
                            workspace_dir: self.workspace_dir,
                            worktrees: self.created,
                        },
                    }
                }
            },
        }
    }
}

} // verus!

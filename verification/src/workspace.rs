//! The values a workspace is made of: repositories, the working trees made for them, and
//! the errors of the lifecycle.

use vstd::prelude::*;

verus! {

/// A checkout on local disk that working trees are made from.
#[derive(Debug, PartialEq, Eq)]
pub struct Repo {
    pub id: u128,
    pub name: String,
    pub path: String,
}

/// The mathematical value of a [`Repo`].
pub struct RepoView {
    pub id: u128,
    pub name: Seq<char>,
    pub path: Seq<char>,
}

impl View for Repo {
    type V = RepoView;

    open spec fn view(&self) -> RepoView {
        RepoView { id: self.id, name: self.name@, path: self.path@ }
    }
}

impl DeepView for Repo {
    type V = RepoView;

    open spec fn deep_view(&self) -> RepoView {
        self@
    }
}

impl Clone for Repo {
    fn clone(&self) -> (r: Self)
        ensures
            r@ == self@,
    {
        Repo { id: self.id, name: self.name.clone(), path: self.path.clone() }
    }
}

/// A repository together with the branch its working tree is based on.
#[derive(Debug, PartialEq, Eq)]
pub struct RepoWorkspaceInput {
    pub repo: Repo,
    pub target_branch: String,
}

/// The mathematical value of a [`RepoWorkspaceInput`].
pub struct RepoWorkspaceInputView {
    pub repo: RepoView,
    pub target_branch: Seq<char>,
}

impl View for RepoWorkspaceInput {
    type V = RepoWorkspaceInputView;

    open spec fn view(&self) -> RepoWorkspaceInputView {
        RepoWorkspaceInputView { repo: self.repo@, target_branch: self.target_branch@ }
    }
}

impl DeepView for RepoWorkspaceInput {
    type V = RepoWorkspaceInputView;

    open spec fn deep_view(&self) -> RepoWorkspaceInputView {
        self@
    }
}

impl Clone for RepoWorkspaceInput {
    fn clone(&self) -> (r: Self)
        ensures
            r@ == self@,
    {
        RepoWorkspaceInput { repo: self.repo.clone(), target_branch: self.target_branch.clone() }
    }
}

impl RepoWorkspaceInput {
    /// The repository with the branch its working tree starts from.
    pub fn new(repo: Repo, target_branch: String) -> (r: Self)
        ensures
            r@ == (RepoWorkspaceInputView { repo: repo@, target_branch: target_branch@ }),
    {
        RepoWorkspaceInput { repo, target_branch }
    }
}

/// The working tree made for one repository of a workspace.
#[derive(Debug, PartialEq, Eq)]
pub struct RepoWorktree {
    pub repo_id: u128,
    pub repo_name: String,
    pub source_repo_path: String,
    pub worktree_path: String,
}

/// The mathematical value of a [`RepoWorktree`].
pub struct RepoWorktreeView {
    pub repo_id: u128,
    pub repo_name: Seq<char>,
    pub source_repo_path: Seq<char>,
    pub worktree_path: Seq<char>,
}

impl View for RepoWorktree {
    type V = RepoWorktreeView;

    open spec fn view(&self) -> RepoWorktreeView {
        RepoWorktreeView {
            repo_id: self.repo_id,
            repo_name: self.repo_name@,
            source_repo_path: self.source_repo_path@,
            worktree_path: self.worktree_path@,
        }
    }
}

impl DeepView for RepoWorktree {
    type V = RepoWorktreeView;

    open spec fn deep_view(&self) -> RepoWorktreeView {
        self@
    }
}

impl Clone for RepoWorktree {
    fn clone(&self) -> (r: Self)
        ensures
            r@ == self@,
    {
        RepoWorktree {
            repo_id: self.repo_id,
            repo_name: self.repo_name.clone(),
            source_repo_path: self.source_repo_path.clone(),
            worktree_path: self.worktree_path.clone(),
        }
    }
}

/// What a successful build hands back: the shared directory and one working tree for each
/// repository, in the order of the repositories.
#[derive(Clone, Debug, PartialEq, Eq)]
pub struct WorktreeContainer {
    pub workspace_dir: String,
    pub worktrees: Vec<RepoWorktree>,
}

/// The mathematical value of a [`WorktreeContainer`].
pub struct WorktreeContainerView {
    pub workspace_dir: Seq<char>,
    pub worktrees: Seq<RepoWorktreeView>,
}

impl View for WorktreeContainer {
    type V = WorktreeContainerView;

    open spec fn view(&self) -> WorktreeContainerView {
        WorktreeContainerView {
            workspace_dir: self.workspace_dir@,
            worktrees: self.worktrees.deep_view(),
        }
    }
}

/// One working tree to remove, with the repository it belongs to where that is known.
#[derive(Clone, Debug, PartialEq, Eq)]
pub struct WorktreeCleanup {
    pub worktree_path: String,
    pub git_repo_path: Option<String>,
}

/// The mathematical value of a [`WorktreeCleanup`].
pub struct WorktreeCleanupView {
    pub worktree_path: Seq<char>,
    pub git_repo_path: Option<Seq<char>>,
}

impl View for WorktreeCleanup {
    type V = WorktreeCleanupView;

    open spec fn view(&self) -> WorktreeCleanupView {
        WorktreeCleanupView {
            worktree_path: self.worktree_path@,
            git_repo_path: self.git_repo_path.deep_view(),
        }
    }
}

impl DeepView for WorktreeCleanup {
    type V = WorktreeCleanupView;

    open spec fn deep_view(&self) -> WorktreeCleanupView {
        self@
    }
}

impl WorktreeCleanup {
    /// A removal order for the working tree at `worktree_path`.
    pub fn new(worktree_path: String, git_repo_path: Option<String>) -> (r: Self)
        ensures
            r@ == (WorktreeCleanupView {
                worktree_path: worktree_path@,
                git_repo_path: git_repo_path.deep_view(),
            }),
    {
        WorktreeCleanup { worktree_path, git_repo_path }
    }
}

/// Why a lifecycle operation failed.
#[derive(Clone, Debug, PartialEq, Eq)]
pub enum WorkspaceError {
    /// The working-tree primitive failed; the text is its own.
    Worktree(String),
    /// A directory or a link could not be made or removed.
    Io(String),
    /// A workspace was asked for without any repository.
    NoRepositories,
    /// A working tree could not be made; what had been made was taken back.
    PartialCreation(String),
}

/// The mathematical value of a [`WorkspaceError`].
pub enum WorkspaceErrorView {
    Worktree(Seq<char>),
    Io(Seq<char>),
    NoRepositories,
    PartialCreation(Seq<char>),
}

impl View for WorkspaceError {
    type V = WorkspaceErrorView;

    open spec fn view(&self) -> WorkspaceErrorView {
        match self {
            WorkspaceError::Worktree(text) => WorkspaceErrorView::Worktree(text@),
            WorkspaceError::Io(text) => WorkspaceErrorView::Io(text@),
            WorkspaceError::NoRepositories => WorkspaceErrorView::NoRepositories,
            WorkspaceError::PartialCreation(text) => WorkspaceErrorView::PartialCreation(text@),
        }
    }
}

impl WorkspaceErrorView {
    /// The error in words.
    pub open spec fn message(self) -> Seq<char> {
        match self {
            WorkspaceErrorView::Worktree(text) => text,
            WorkspaceErrorView::Io(text) => "IO error: "@ + text,
            WorkspaceErrorView::NoRepositories => "No repositories provided"@,
            WorkspaceErrorView::PartialCreation(text) => "Partial workspace creation failed: "@
                + text,
        }
    }
}

impl WorkspaceError {
    /// The error in words.
    pub fn message(&self) -> (r: String)
        ensures
            r@ == self@.message(),
    {
        match self {
            WorkspaceError::Worktree(text) => text.clone(),
            WorkspaceError::Io(text) => String::from_str("IO error: ").concat(text.as_str()),
            WorkspaceError::NoRepositories => String::from_str("No repositories provided"),
            WorkspaceError::PartialCreation(text) => String::from_str(
                "Partial workspace creation failed: ",
            ).concat(text.as_str()),
        }
    }
}

/// What the failure of the working tree for the repository `repo_name` is reported as.
pub open spec fn partial_creation_text(repo_name: Seq<char>, reason: Seq<char>) -> Seq<char> {
    "Failed to create worktree for repo '"@ + repo_name + "': "@ + reason
}

/// Words the failure of the working tree for the repository `repo_name`.
pub fn partial_creation_message(repo_name: &str, reason: &str) -> (r: String)
    ensures
        r@ == partial_creation_text(repo_name@, reason@),
{
    String::from_str("Failed to create worktree for repo '").concat(repo_name).concat("': ").concat(
        reason,
    )
}

} // verus!

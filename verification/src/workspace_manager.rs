//! The entry points of the workspace lifecycle.

use crate::create::{create_start, CreateWorkspace};
use crate::destroy::{cleanup_start, CleanupWorkspace};
use crate::disk::Progress;
use crate::migrate::{migrate_start, MigrateLegacy};
use crate::path::{
    file_name_of, is_plain_name, parent_of, repo_dir_name, sibling_path, worktree_path,
};
use crate::reconcile::{ensure_start, EnsureWorkspace};
use crate::sweep::{sweep_start, OrphanSweep};
use crate::workspace::{Repo, RepoWorkspaceInput, WorktreeContainer};
use vstd::prelude::*;

verus! {

/// The settings of the lifecycle: where workspaces lie, and whether orphans are swept.
#[derive(Debug)]
pub struct WorkspaceManager {
    base_dir: String,
    sweep_orphans: bool,
}

impl WorkspaceManager {
    /// The base directory of the workspaces.
    pub closed spec fn base_dir(&self) -> Seq<char> {
        self.base_dir@
    }

    /// Orphaned workspaces are swept.
    pub closed spec fn sweeps_orphans(&self) -> bool {
        self.sweep_orphans
    }

    /// A manager for the workspaces under `base_dir`.
    pub fn new(base_dir: String, sweep_orphans: bool) -> (r: Self)
        ensures
            r.base_dir() == base_dir@,
            r.sweeps_orphans() == sweep_orphans,
    {
        WorkspaceManager { base_dir, sweep_orphans }
    }

    /// The base directory of the workspaces.
    pub fn get_workspace_base_dir(&self) -> (r: String)
        ensures
            r@ == self.base_dir(),
    {
        self.base_dir.clone()
    }

    /// Where the working tree of `branch_name` for the repository at `repo_path` lies: beside
    /// the repository, named after it and the branch, with `-` for every `/` of the branch.
    pub fn compute_worktree_path(repo_path: &str, branch_name: &str) -> (r: String)
        ensures
            r@ == worktree_path(repo_path@, branch_name@),
            is_plain_name(repo_dir_name(repo_path@)),
    {
        sibling_path(parent_of(repo_path), file_name_of(repo_path), repo_path, branch_name)
    }

    /// Begins the build of a workspace: the shared directory `workspace_dir` with a working
    /// tree of `branch_name` for each repository.
    pub fn create_workspace(
        workspace_dir: &str,
        repos: &Vec<RepoWorkspaceInput>,
        branch_name: &str,
    ) -> (r: Progress<CreateWorkspace, WorktreeContainer>)
        ensures
            r@ == create_start(workspace_dir@, repos.deep_view(), branch_name@),
    {
        CreateWorkspace::start(workspace_dir, repos, branch_name)
    }

    /// Begins the repair of a workspace after a restart: every repository gets its working
    /// tree of `branch_name` beside it and its link in `workspace_dir`.
    pub fn ensure_workspace_exists(workspace_dir: &str, repos: &Vec<Repo>, branch_name: &str) -> (r:
        Progress<EnsureWorkspace, ()>)
        ensures
            r@ == ensure_start(workspace_dir@, repos.deep_view(), branch_name@),
    {
        EnsureWorkspace::start(workspace_dir, repos, branch_name)
    }

    /// Begins the teardown of a workspace: the working trees of `branch_name` beside the
    /// repositories, then `workspace_dir`.
    pub fn cleanup_workspace(workspace_dir: &str, repos: &Vec<Repo>, branch_name: &str) -> (r:
        Progress<CleanupWorkspace, ()>)
        ensures
            r@ == cleanup_start(workspace_dir@, repos.deep_view(), branch_name@),
    {
        CleanupWorkspace::start(workspace_dir, repos, branch_name)
    }

    /// Begins the migration of a workspace of the oldest layout, in which `workspace_dir`
    /// itself is the working tree of `repo`. It ends with `true` where the tree was moved and
    /// with `false` where there was nothing to do.
    pub fn migrate_legacy_worktree(workspace_dir: &str, repo: &Repo) -> (r: Progress<
        MigrateLegacy,
        bool,
    >)
        ensures
            r@ == migrate_start(workspace_dir@, repo@),
    {
        MigrateLegacy::start(workspace_dir, repo)
    }

    /// Begins a sweep of the base directory for workspaces that no record names. Where
    /// sweeping is switched off, the sweep is over at once.
    pub fn cleanup_orphan_workspaces(&self) -> (r: Progress<OrphanSweep, ()>)
        ensures
            r@ == sweep_start(self.base_dir(), self.sweeps_orphans()),
    {
        OrphanSweep::start(self.base_dir.as_str(), self.sweep_orphans)
    }
}

} // verus!

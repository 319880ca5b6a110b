use std::collections::{BTreeMap, BTreeSet};
use workspace_orchestrator::create::CreateWorkspace;
use workspace_orchestrator::destroy::{worktree_cleanups, CleanupWorkspace};
use workspace_orchestrator::disk::{Action, DirEntry, Outcome, PathState, Progress};
use workspace_orchestrator::migrate::MigrateLegacy;
use workspace_orchestrator::reconcile::{detect_legacy_state, EnsureWorkspace, LegacyState};
use workspace_orchestrator::sweep::OrphanSweep;
use workspace_orchestrator::workspace::{
    partial_creation_message, Repo, RepoWorkspaceInput, RepoWorktree, WorkspaceError,
    WorktreeCleanup, WorktreeContainer,
};
use workspace_orchestrator::workspace_manager::WorkspaceManager;

#[derive(Clone, Debug, PartialEq, Eq)]
enum Node {
    Dir { worktree: bool },
    Link(String),
    File,
}

/// A disk in memory that performs actions the way the real collaborators do, refuses what
/// they refuse (a directory that is not empty is not removed as a directory, a link is not
/// made where something is), and fails the actions it is told to fail.
#[derive(Default)]
struct FakeDisk {
    nodes: BTreeMap<String, Node>,
    records: BTreeSet<String>,
    failing: Vec<String>,
    log: Vec<Action>,
}

fn within(path: &str, dir: &str) -> bool {
    let prefix = if dir.is_empty() || dir.ends_with('/') {
        dir.to_string()
    } else {
        format!("{}/", dir)
    };
    path == dir || (path.len() > prefix.len() && path.starts_with(&prefix))
}

fn tag(action: &Action) -> String {
    match action {
        Action::CreateDirAll { path } => format!("mkdir {}", path),
        Action::RemoveDir { path } => format!("rmdir {}", path),
        Action::RemoveDirAll { path } => format!("rmtree {}", path),
        Action::RemoveFile { path } => format!("rm {}", path),
        Action::Symlink { link, .. } => format!("link {}", link),
        Action::Inspect { path } => format!("stat {}", path),
        Action::ListDir { path } => format!("ls {}", path),
        Action::CreateWorktree { path, .. } => format!("create {}", path),
        Action::MoveWorktree { from, .. } => format!("move {}", from),
        Action::EnsureWorktree { path, .. } => format!("ensure {}", path),
        Action::CleanupWorktree { worktree } => format!("cleanup {}", worktree.worktree_path),
        Action::BatchCleanup { .. } => "batch".to_string(),
        Action::CleanupSuspected { path } => format!("suspect {}", path),
        Action::RecordExists { path } => format!("record {}", path),
    }
}

fn changes_disk(action: &Action) -> bool {
    !matches!(
        action,
        Action::Inspect { .. } | Action::ListDir { .. } | Action::RecordExists { .. }
    )
}

impl FakeDisk {
    fn remove_tree(&mut self, dir: &str) {
        self.nodes.retain(|path, _| !within(path, dir));
    }

    fn observe(&self, path: &str) -> PathState {
        match self.nodes.get(path) {
            None => PathState::missing(),
            Some(Node::Dir { worktree }) => PathState {
                exists: true,
                is_symlink: false,
                is_dir: true,
                has_git_file: *worktree,
                link_target: None,
            },
            Some(Node::File) => PathState {
                exists: true,
                is_symlink: false,
                is_dir: false,
                has_git_file: false,
                link_target: None,
            },
            Some(Node::Link(target)) => {
                let behind = self.nodes.get(target);
                PathState {
                    exists: behind.is_some(),
                    is_symlink: true,
                    is_dir: matches!(behind, Some(Node::Dir { .. })),
                    has_git_file: matches!(behind, Some(Node::Dir { worktree: true })),
                    link_target: Some(target.clone()),
                }
            }
        }
    }

    fn list(&self, dir: &str) -> Vec<DirEntry> {
        self.nodes
            .keys()
            .filter(|path| {
                within(path, dir) && path.as_str() != dir && !path[dir.len() + 1..].contains('/')
            })
            .map(|path| DirEntry { path: path.clone(), is_dir: self.observe(path).is_dir })
            .collect()
    }

    fn perform(&mut self, action: &Action) -> Outcome {
        self.log.push(action.clone());
        let name = tag(action);
        if self.failing.contains(&name) {
            return Outcome::Failed { reason: format!("cannot {}", name) };
        }
        let refused = Outcome::Failed { reason: format!("refused to {}", name) };
        match action {
            Action::CreateDirAll { path } => {
                if self.nodes.contains_key(path) && !self.observe(path).is_dir {
                    return refused;
                }
                self.nodes.entry(path.clone()).or_insert(Node::Dir { worktree: false });
            }
            Action::RemoveDir { path } => {
                let is_dir = matches!(self.nodes.get(path), Some(Node::Dir { .. }));
                if !is_dir || !self.list(path).is_empty() {
                    return refused;
                }
                self.nodes.remove(path);
            }
            Action::RemoveDirAll { path } => match self.nodes.get(path) {
                Some(Node::Dir { .. }) => self.remove_tree(path),
                Some(Node::Link(_)) => {
                    self.nodes.remove(path);
                }
                _ => return refused,
            },
            Action::RemoveFile { path } => match self.nodes.get(path) {
                Some(Node::Link(_)) | Some(Node::File) => {
                    self.nodes.remove(path);
                }
                _ => return refused,
            },
            Action::Symlink { target, link } => {
                if self.nodes.contains_key(link) {
                    return refused;
                }
                self.nodes.insert(link.clone(), Node::Link(target.clone()));
            }
            Action::Inspect { path } => return Outcome::Inspected { state: self.observe(path) },
            Action::ListDir { path } => return Outcome::Listed { entries: self.list(path) },
            Action::CreateWorktree { path, .. } | Action::EnsureWorktree { path, .. } => {
                self.nodes.insert(path.clone(), Node::Dir { worktree: true });
            }
            Action::MoveWorktree { from, to, .. } => {
                self.remove_tree(from);
                self.nodes.insert(to.clone(), Node::Dir { worktree: true });
            }
            Action::CleanupWorktree { worktree } => self.remove_tree(&worktree.worktree_path),
            Action::BatchCleanup { targets } => {
                for target in targets {
                    self.remove_tree(&target.worktree_path);
                }
            }
            Action::CleanupSuspected { path } => self.remove_tree(path),
            Action::RecordExists { path } => {
                return Outcome::Record { exists: self.records.contains(path) }
            }
        }
        Outcome::Done
    }

    fn tags(&self) -> Vec<String> {
        self.log.iter().map(tag).collect()
    }
}

fn drive<M, T>(
    start: Progress<M, T>,
    disk: &mut FakeDisk,
    resume: impl Fn(M, &Outcome) -> Progress<M, T>,
) -> Result<T, WorkspaceError> {
    let mut progress = start;
    loop {
        match progress {
            Progress::Perform { machine, action } => {
                let outcome = disk.perform(&action);
                progress = resume(machine, &outcome);
            }
            Progress::Finished { value } => return Ok(value),
            Progress::Failed { error } => return Err(error),
        }
    }
}

fn repo(id: u128, name: &str, path: &str) -> Repo {
    Repo { id, name: name.to_string(), path: path.to_string() }
}

fn two_repos() -> Vec<Repo> {
    vec![repo(1, "A", "/repos/A"), repo(2, "B", "/work/B")]
}

fn two_inputs() -> Vec<RepoWorkspaceInput> {
    two_repos()
        .into_iter()
        .map(|r| RepoWorkspaceInput::new(r, "main".to_string()))
        .collect()
}

const SHARED: &str = "/ws/shared";
const TREE_A: &str = "/repos/A-feature-x";
const TREE_B: &str = "/work/B-feature-x";
const LINK_A: &str = "/ws/shared/A";
const LINK_B: &str = "/ws/shared/B";

fn build(disk: &mut FakeDisk) -> Result<WorktreeContainer, WorkspaceError> {
    drive(
        WorkspaceManager::create_workspace(SHARED, &two_inputs(), "feature/x"),
        disk,
        CreateWorkspace::resume,
    )
}

fn reconcile(disk: &mut FakeDisk) -> Result<(), WorkspaceError> {
    drive(
        WorkspaceManager::ensure_workspace_exists(SHARED, &two_repos(), "feature/x"),
        disk,
        EnsureWorkspace::resume,
    )
}

fn destroy(disk: &mut FakeDisk) -> Result<(), WorkspaceError> {
    drive(
        WorkspaceManager::cleanup_workspace(SHARED, &two_repos(), "feature/x"),
        disk,
        CleanupWorkspace::resume,
    )
}

fn migrate(disk: &mut FakeDisk) -> Result<bool, WorkspaceError> {
    drive(
        WorkspaceManager::migrate_legacy_worktree(SHARED, &repo(1, "A", "/repos/A")),
        disk,
        MigrateLegacy::resume,
    )
}

fn sweep(disk: &mut FakeDisk, enabled: bool) {
    let manager = WorkspaceManager::new("/base".to_string(), enabled);
    drive(manager.cleanup_orphan_workspaces(), disk, OrphanSweep::resume).unwrap();
}

fn worktree() -> Node {
    Node::Dir { worktree: true }
}

fn plain_dir() -> Node {
    Node::Dir { worktree: false }
}

fn disk_with(nodes: &[(&str, Node)]) -> FakeDisk {
    let mut disk = FakeDisk::default();
    for (path, node) in nodes {
        disk.nodes.insert(path.to_string(), node.clone());
    }
    disk
}

fn settled_nodes() -> BTreeMap<String, Node> {
    disk_with(&[
        (SHARED, plain_dir()),
        (TREE_A, worktree()),
        (TREE_B, worktree()),
        (LINK_A, Node::Link(TREE_A.to_string())),
        (LINK_B, Node::Link(TREE_B.to_string())),
    ])
    .nodes
}

#[test]
fn build_makes_trees_beside_repositories_and_links_in_shared_directory() {
    let mut disk = FakeDisk::default();
    let container = build(&mut disk).unwrap();
    assert_eq!(
        container,
        WorktreeContainer {
            workspace_dir: SHARED.to_string(),
            worktrees: vec![
                RepoWorktree {
                    repo_id: 1,
                    repo_name: "A".to_string(),
                    source_repo_path: "/repos/A".to_string(),
                    worktree_path: TREE_A.to_string(),
                },
                RepoWorktree {
                    repo_id: 2,
                    repo_name: "B".to_string(),
                    source_repo_path: "/work/B".to_string(),
                    worktree_path: TREE_B.to_string(),
                },
            ],
        }
    );
    assert_eq!(disk.nodes, settled_nodes());
}

#[test]
fn build_asks_for_each_tree_on_the_branch_based_on_the_target_branch() {
    let mut disk = FakeDisk::default();
    build(&mut disk).unwrap();
    assert_eq!(disk.log[0], Action::CreateDirAll { path: SHARED.to_string() });
    assert_eq!(
        disk.log[1],
        Action::CreateWorktree {
            source_repo: "/repos/A".to_string(),
            branch: "feature/x".to_string(),
            path: TREE_A.to_string(),
            base_branch: "main".to_string(),
            checkout: true,
        }
    );
    assert_eq!(
        disk.tags(),
        vec![
            "mkdir /ws/shared",
            "create /repos/A-feature-x",
            "create /work/B-feature-x",
            "stat /ws/shared/A",
            "link /ws/shared/A",
            "stat /ws/shared/B",
            "link /ws/shared/B",
        ]
    );
}

#[test]
fn failed_build_rolls_back_trees_and_shared_directory() {
    let mut disk = FakeDisk::default();
    disk.failing.push(format!("create {}", TREE_B));
    let error = build(&mut disk).unwrap_err();
    assert_eq!(
        error,
        WorkspaceError::PartialCreation(
            "Failed to create worktree for repo 'B': cannot create /work/B-feature-x".to_string()
        )
    );
    assert_eq!(
        error.message(),
        "Partial workspace creation failed: Failed to create worktree for repo 'B': \
         cannot create /work/B-feature-x"
    );
    assert!(disk.nodes.is_empty());
    assert_eq!(
        disk.tags(),
        vec![
            "mkdir /ws/shared",
            "create /repos/A-feature-x",
            "create /work/B-feature-x",
            "cleanup /repos/A-feature-x",
            "rmdir /ws/shared",
        ]
    );
    assert_eq!(
        disk.log[3],
        Action::CleanupWorktree {
            worktree: WorktreeCleanup::new(TREE_A.to_string(), Some("/repos/A".to_string())),
        }
    );
}

#[test]
fn build_failing_at_the_first_tree_removes_only_the_shared_directory() {
    let mut disk = disk_with(&[("/elsewhere", Node::File)]);
    disk.failing.push(format!("create {}", TREE_A));
    let error = build(&mut disk).unwrap_err();
    assert_eq!(
        error,
        WorkspaceError::PartialCreation(partial_creation_message("A", "cannot create /repos/A-feature-x"))
    );
    assert_eq!(disk.nodes, disk_with(&[("/elsewhere", Node::File)]).nodes);
    assert_eq!(disk.tags(), vec!["mkdir /ws/shared", "create /repos/A-feature-x", "rmdir /ws/shared"]);
}

#[test]
fn failed_build_keeps_a_shared_directory_that_held_something() {
    let before = [(SHARED, plain_dir()), ("/ws/shared/notes.md", Node::File)];
    let mut disk = disk_with(&before);
    disk.failing.push(format!("create {}", TREE_B));
    let error = build(&mut disk).unwrap_err();
    assert_eq!(
        error,
        WorkspaceError::PartialCreation(partial_creation_message(
            "B",
            "cannot create /work/B-feature-x"
        ))
    );
    assert_eq!(disk.nodes, disk_with(&before).nodes);
    assert_eq!(disk.tags().last().unwrap(), "rmdir /ws/shared");
}

#[test]
fn build_does_not_remove_a_file_at_the_place_of_a_link() {
    let mut disk = disk_with(&[(SHARED, plain_dir()), (LINK_A, Node::File)]);
    let container = build(&mut disk).unwrap();
    assert_eq!(container.worktrees.len(), 2);
    assert_eq!(disk.nodes.get(LINK_A), Some(&Node::File));
    assert_eq!(disk.nodes.get(LINK_B), Some(&Node::Link(TREE_B.to_string())));
    assert_eq!(
        disk.tags(),
        vec![
            "mkdir /ws/shared",
            "create /repos/A-feature-x",
            "create /work/B-feature-x",
            "stat /ws/shared/A",
            "link /ws/shared/A",
            "stat /ws/shared/B",
            "link /ws/shared/B",
        ]
    );
}

#[test]
fn rollback_goes_on_past_a_cleanup_that_fails() {
    let mut disk = FakeDisk::default();
    disk.failing.push(format!("create {}", TREE_B));
    disk.failing.push(format!("cleanup {}", TREE_A));
    disk.failing.push(format!("rmdir {}", SHARED));
    let error = build(&mut disk).unwrap_err();
    assert!(matches!(error, WorkspaceError::PartialCreation(_)));
    assert_eq!(disk.tags().last().unwrap(), "rmdir /ws/shared");
}

#[test]
fn build_without_repositories_is_refused_before_any_action() {
    let start = WorkspaceManager::create_workspace(SHARED, &Vec::new(), "feature/x");
    assert!(matches!(start, Progress::Failed { error: WorkspaceError::NoRepositories }));
    assert_eq!(WorkspaceError::NoRepositories.message(), "No repositories provided");
}

#[test]
fn build_fails_with_io_error_when_shared_directory_cannot_be_made() {
    let mut disk = FakeDisk::default();
    disk.failing.push(format!("mkdir {}", SHARED));
    let error = build(&mut disk).unwrap_err();
    assert_eq!(error, WorkspaceError::Io("cannot mkdir /ws/shared".to_string()));
    assert_eq!(error.message(), "IO error: cannot mkdir /ws/shared");
    assert_eq!(disk.tags(), vec!["mkdir /ws/shared"]);
}

#[test]
fn build_replaces_what_lies_at_the_place_of_a_link() {
    let mut disk = disk_with(&[
        (SHARED, plain_dir()),
        (LINK_A, Node::Link("/stale".to_string())),
        (LINK_B, plain_dir()),
        ("/ws/shared/B/leftover", Node::File),
    ]);
    build(&mut disk).unwrap();
    assert_eq!(disk.nodes, settled_nodes());
    assert!(disk.tags().contains(&"rm /ws/shared/A".to_string()));
    assert!(disk.tags().contains(&"rmtree /ws/shared/B".to_string()));
}

#[test]
fn build_succeeds_although_a_link_cannot_be_made() {
    let mut disk = FakeDisk::default();
    disk.failing.push(format!("link {}", LINK_A));
    let container = build(&mut disk).unwrap();
    assert_eq!(container.worktrees.len(), 2);
    assert_eq!(disk.nodes.get(LINK_A), None);
    assert_eq!(disk.nodes.get(LINK_B), Some(&Node::Link(TREE_B.to_string())));
    assert_eq!(disk.nodes.get(TREE_A), Some(&worktree()));
}

#[test]
fn reconcile_repairs_a_link_that_build_could_not_make() {
    let mut disk = FakeDisk::default();
    disk.failing.push(format!("link {}", LINK_A));
    build(&mut disk).unwrap();
    disk.failing.clear();
    reconcile(&mut disk).unwrap();
    assert_eq!(disk.nodes, settled_nodes());
}

#[test]
fn reconcile_makes_everything_on_an_empty_disk() {
    let mut disk = FakeDisk::default();
    reconcile(&mut disk).unwrap();
    assert_eq!(disk.nodes, settled_nodes());
    assert_eq!(
        disk.log[3],
        Action::EnsureWorktree {
            source_repo: "/repos/A".to_string(),
            branch: "feature/x".to_string(),
            path: TREE_A.to_string(),
        }
    );
}

#[test]
fn second_reconcile_changes_nothing() {
    let mut disk = FakeDisk::default();
    reconcile(&mut disk).unwrap();
    let after_first = disk.nodes.clone();
    disk.log.clear();
    reconcile(&mut disk).unwrap();
    assert_eq!(disk.nodes, after_first);
    assert_eq!(
        disk.tags(),
        vec![
            "stat /ws/shared",
            "stat /ws/shared/A",
            "ensure /repos/A-feature-x",
            "stat /ws/shared/A",
            "stat /ws/shared/B",
            "ensure /work/B-feature-x",
            "stat /ws/shared/B",
        ]
    );
}

#[test]
fn second_reconcile_changes_nothing_where_a_file_is_in_the_way() {
    let mut disk = disk_with(&[
        (SHARED, plain_dir()),
        (LINK_A, Node::File),
        (LINK_B, Node::Link("/elsewhere".to_string())),
    ]);
    reconcile(&mut disk).unwrap();
    let after_first = disk.nodes.clone();
    assert_eq!(after_first.get(LINK_A), Some(&Node::File));
    assert_eq!(after_first.get(LINK_B), Some(&Node::Link(TREE_B.to_string())));
    assert_eq!(after_first.get(TREE_A), Some(&worktree()));
    disk.log.clear();
    reconcile(&mut disk).unwrap();
    assert_eq!(disk.nodes, after_first);
}

#[test]
fn second_reconcile_changes_nothing_where_the_first_fails() {
    let mut disk = disk_with(&[(SHARED, Node::Link("/nowhere".to_string()))]);
    let before = disk.nodes.clone();
    assert!(matches!(reconcile(&mut disk), Err(WorkspaceError::Io(_))));
    assert_eq!(disk.nodes, before);
    assert!(matches!(reconcile(&mut disk), Err(WorkspaceError::Io(_))));
    assert_eq!(disk.nodes, before);
}

#[test]
fn reconcile_moves_a_tree_of_the_old_layout_beside_its_repository() {
    let mut disk = disk_with(&[(SHARED, plain_dir()), (LINK_A, worktree())]);
    reconcile(&mut disk).unwrap();
    assert_eq!(disk.nodes, settled_nodes());
    assert_eq!(
        disk.log[2],
        Action::MoveWorktree {
            source_repo: "/repos/A".to_string(),
            from: LINK_A.to_string(),
            to: TREE_A.to_string(),
        }
    );
}

#[test]
fn reconcile_recreates_a_tree_that_cannot_be_moved() {
    let mut disk = disk_with(&[(SHARED, plain_dir()), (LINK_A, worktree())]);
    disk.failing.push(format!("move {}", LINK_A));
    reconcile(&mut disk).unwrap();
    assert_eq!(disk.nodes, settled_nodes());
    let tags = disk.tags();
    assert_eq!(
        &tags[1..7],
        &[
            "stat /ws/shared/A",
            "move /ws/shared/A",
            "rmtree /ws/shared/A",
            "ensure /repos/A-feature-x",
            "stat /ws/shared/A",
            "link /ws/shared/A",
        ]
    );
}

#[test]
fn reconcile_replaces_stale_links_and_leftover_directories() {
    let mut disk = disk_with(&[
        (SHARED, plain_dir()),
        (LINK_A, Node::Link("/stale".to_string())),
        (LINK_B, plain_dir()),
    ]);
    reconcile(&mut disk).unwrap();
    assert_eq!(disk.nodes, settled_nodes());
    assert!(disk.tags().contains(&"rm /ws/shared/A".to_string()));
    assert!(disk.tags().contains(&"rmtree /ws/shared/B".to_string()));
}

#[test]
fn reconcile_stops_when_a_tree_cannot_be_ensured() {
    let mut disk = FakeDisk::default();
    disk.failing.push(format!("ensure {}", TREE_B));
    let error = reconcile(&mut disk).unwrap_err();
    assert_eq!(error, WorkspaceError::Worktree("cannot ensure /work/B-feature-x".to_string()));
    assert_eq!(error.message(), "cannot ensure /work/B-feature-x");
    assert_eq!(disk.nodes.get(LINK_A), Some(&Node::Link(TREE_A.to_string())));
    assert_eq!(disk.nodes.get(LINK_B), None);
}

#[test]
fn reconcile_without_repositories_makes_sure_of_the_shared_directory_only() {
    let mut disk = FakeDisk::default();
    let start = WorkspaceManager::ensure_workspace_exists(SHARED, &Vec::new(), "feature/x");
    assert_eq!(drive(start, &mut disk, EnsureWorkspace::resume), Ok(()));
    assert_eq!(disk.nodes, disk_with(&[(SHARED, plain_dir())]).nodes);
    assert_eq!(disk.tags(), vec!["stat /ws/shared", "mkdir /ws/shared"]);
    disk.log.clear();
    let again = WorkspaceManager::ensure_workspace_exists(SHARED, &Vec::new(), "feature/x");
    assert_eq!(drive(again, &mut disk, EnsureWorkspace::resume), Ok(()));
    assert_eq!(disk.tags(), vec!["stat /ws/shared"]);
}

#[test]
fn reconcile_without_repositories_fails_only_with_the_shared_directory() {
    let mut disk = FakeDisk::default();
    disk.failing.push(format!("mkdir {}", SHARED));
    let start = WorkspaceManager::ensure_workspace_exists(SHARED, &Vec::new(), "feature/x");
    assert_eq!(
        drive(start, &mut disk, EnsureWorkspace::resume),
        Err(WorkspaceError::Io("cannot mkdir /ws/shared".to_string()))
    );
}

#[test]
fn reconcile_fails_with_io_error_when_shared_directory_cannot_be_made() {
    let mut disk = FakeDisk::default();
    disk.failing.push(format!("mkdir {}", SHARED));
    assert_eq!(
        reconcile(&mut disk).unwrap_err(),
        WorkspaceError::Io("cannot mkdir /ws/shared".to_string())
    );
}

#[test]
fn legacy_state_is_read_off_what_lies_at_the_link() {
    let sibling = TREE_A.to_string();
    let state = |exists, is_symlink, is_dir, has_git_file, target: Option<&str>| PathState {
        exists,
        is_symlink,
        is_dir,
        has_git_file,
        link_target: target.map(|t| t.to_string()),
    };
    assert_eq!(
        detect_legacy_state(&state(true, false, true, true, None), &sibling),
        LegacyState::LegacyUnmigrated
    );
    assert_eq!(
        detect_legacy_state(&state(true, true, true, true, Some(TREE_A)), &sibling),
        LegacyState::Current
    );
    assert_eq!(
        detect_legacy_state(&state(false, true, false, false, Some(TREE_A)), &sibling),
        LegacyState::Current
    );
    assert_eq!(
        detect_legacy_state(&state(true, true, true, true, Some("/stale")), &sibling),
        LegacyState::LegacySymlinkStale
    );
    assert_eq!(
        detect_legacy_state(&state(true, true, true, true, None), &sibling),
        LegacyState::LegacySymlinkStale
    );
    assert_eq!(
        detect_legacy_state(&state(true, false, true, false, None), &sibling),
        LegacyState::LegacySymlinkStale
    );
    assert_eq!(
        detect_legacy_state(&PathState::missing(), &sibling),
        LegacyState::LegacySymlinkStale
    );
}

#[test]
fn destroy_removes_trees_and_shared_directory() {
    let mut disk = FakeDisk::default();
    build(&mut disk).unwrap();
    disk.nodes.insert("/keep".to_string(), Node::File);
    disk.log.clear();
    destroy(&mut disk).unwrap();
    assert_eq!(disk.nodes, disk_with(&[("/keep", Node::File)]).nodes);
    assert_eq!(
        disk.log[0],
        Action::BatchCleanup {
            targets: vec![
                WorktreeCleanup::new(TREE_A.to_string(), Some("/repos/A".to_string())),
                WorktreeCleanup::new(TREE_B.to_string(), Some("/work/B".to_string())),
            ],
        }
    );
    assert_eq!(disk.tags(), vec!["batch", "stat /ws/shared", "rmtree /ws/shared"]);
    assert_eq!(
        worktree_cleanups(&two_repos(), "feature/x"),
        vec![
            WorktreeCleanup::new(TREE_A.to_string(), Some("/repos/A".to_string())),
            WorktreeCleanup::new(TREE_B.to_string(), Some("/work/B".to_string())),
        ]
    );
}

#[test]
fn destroy_goes_on_past_a_failed_removal_of_the_trees() {
    let mut disk = FakeDisk::default();
    build(&mut disk).unwrap();
    disk.log.clear();
    disk.failing.push("batch".to_string());
    assert_eq!(destroy(&mut disk), Ok(()));
    assert_eq!(disk.tags(), vec!["batch", "stat /ws/shared", "rmtree /ws/shared"]);
    assert_eq!(disk.nodes, disk_with(&[(TREE_A, worktree()), (TREE_B, worktree())]).nodes);
}

#[test]
fn destroy_ends_well_whatever_fails() {
    let mut disk = FakeDisk::default();
    build(&mut disk).unwrap();
    disk.failing.push("batch".to_string());
    disk.failing.push(format!("rmtree {}", SHARED));
    assert_eq!(destroy(&mut disk), Ok(()));
    assert_eq!(disk.nodes, settled_nodes());
}

#[test]
fn destroy_tolerates_a_shared_directory_that_stays() {
    let mut disk = FakeDisk::default();
    build(&mut disk).unwrap();
    disk.failing.push(format!("rmtree {}", SHARED));
    assert_eq!(destroy(&mut disk), Ok(()));
    assert!(disk.nodes.contains_key(SHARED));
    assert!(!disk.nodes.contains_key(TREE_A));
}

#[test]
fn destroy_skips_a_shared_directory_that_is_not_there() {
    let mut disk = disk_with(&[(TREE_A, worktree())]);
    assert_eq!(destroy(&mut disk), Ok(()));
    assert_eq!(disk.tags(), vec!["batch", "stat /ws/shared"]);
    assert!(disk.nodes.is_empty());
}

#[test]
fn migration_moves_the_old_tree_into_its_entry() {
    let mut disk = disk_with(&[(SHARED, worktree())]);
    assert_eq!(migrate(&mut disk), Ok(true));
    assert_eq!(disk.nodes, disk_with(&[(SHARED, plain_dir()), (LINK_A, worktree())]).nodes);
    assert_eq!(
        disk.tags(),
        vec![
            "stat /ws/shared",
            "stat /ws/shared/A",
            "move /ws/shared",
            "mkdir /ws/shared",
            "move /ws/shared-migrating",
            "stat /ws/shared-migrating",
        ]
    );
    assert_eq!(
        disk.log[2],
        Action::MoveWorktree {
            source_repo: "/repos/A".to_string(),
            from: SHARED.to_string(),
            to: "/ws/shared-migrating".to_string(),
        }
    );
}

#[test]
fn migration_does_nothing_when_the_new_entry_exists() {
    let before = [(SHARED, worktree()), (LINK_A, plain_dir())];
    let mut disk = disk_with(&before);
    assert_eq!(migrate(&mut disk), Ok(false));
    assert_eq!(disk.nodes, disk_with(&before).nodes);
    assert!(disk.log.iter().all(|action| !changes_disk(action)));
}

#[test]
fn migration_does_nothing_without_the_old_layout() {
    for before in [vec![], vec![(SHARED, plain_dir())], vec![("/other", worktree())]] {
        let mut disk = disk_with(&before);
        assert_eq!(migrate(&mut disk), Ok(false));
        assert_eq!(disk.nodes, disk_with(&before).nodes);
        assert_eq!(disk.tags(), vec!["stat /ws/shared"]);
    }
}

#[test]
fn migration_reports_the_step_that_fails() {
    let mut disk = disk_with(&[(SHARED, worktree())]);
    disk.failing.push(format!("move {}", SHARED));
    assert_eq!(
        migrate(&mut disk).unwrap_err(),
        WorkspaceError::Worktree("cannot move /ws/shared".to_string())
    );
    let mut disk = disk_with(&[(SHARED, worktree())]);
    disk.failing.push(format!("mkdir {}", SHARED));
    assert_eq!(
        migrate(&mut disk).unwrap_err(),
        WorkspaceError::Io("cannot mkdir /ws/shared".to_string())
    );
    let mut disk = disk_with(&[(SHARED, worktree())]);
    disk.failing.push("move /ws/shared-migrating".to_string());
    assert_eq!(
        migrate(&mut disk).unwrap_err(),
        WorkspaceError::Worktree("cannot move /ws/shared-migrating".to_string())
    );
}

fn base_with_workspaces() -> FakeDisk {
    let mut disk = disk_with(&[
        ("/base", plain_dir()),
        ("/base/owned", plain_dir()),
        ("/base/owned/repo", worktree()),
        ("/base/orphan", plain_dir()),
        ("/base/orphan/repo", worktree()),
        ("/base/orphan/notes.txt", Node::File),
        ("/base/file.txt", Node::File),
    ]);
    disk.records.insert("/base/owned".to_string());
    disk
}

#[test]
fn sweep_removes_directories_without_a_record() {
    let mut disk = base_with_workspaces();
    sweep(&mut disk, true);
    assert_eq!(
        disk.nodes,
        disk_with(&[
            ("/base", plain_dir()),
            ("/base/owned", plain_dir()),
            ("/base/owned/repo", worktree()),
            ("/base/file.txt", Node::File),
        ])
        .nodes
    );
    assert_eq!(
        disk.tags(),
        vec![
            "stat /base",
            "ls /base",
            "record /base/orphan",
            "ls /base/orphan",
            "suspect /base/orphan/repo",
            "stat /base/orphan",
            "rmtree /base/orphan",
            "record /base/owned",
        ]
    );
}

#[test]
fn sweep_switched_off_does_nothing() {
    let mut disk = base_with_workspaces();
    let before = disk.nodes.clone();
    sweep(&mut disk, false);
    assert_eq!(disk.nodes, before);
    assert!(disk.log.is_empty());
}

#[test]
fn sweep_without_base_directory_does_nothing() {
    let mut disk = FakeDisk::default();
    sweep(&mut disk, true);
    assert_eq!(disk.tags(), vec!["stat /base"]);
}

#[test]
fn sweep_treats_a_failed_record_query_as_no_owner() {
    let mut disk = base_with_workspaces();
    disk.failing.push("record /base/owned".to_string());
    sweep(&mut disk, true);
    assert!(!disk.nodes.contains_key("/base/owned"));
    assert!(!disk.nodes.contains_key("/base/orphan"));
    assert!(disk.nodes.contains_key("/base/file.txt"));
}

#[test]
fn sweep_goes_on_past_failures() {
    let mut disk = base_with_workspaces();
    disk.nodes.insert("/base/second".to_string(), plain_dir());
    disk.failing.push("suspect /base/orphan/repo".to_string());
    disk.failing.push("rmtree /base/orphan".to_string());
    sweep(&mut disk, true);
    assert!(disk.nodes.contains_key("/base/orphan"));
    assert!(!disk.nodes.contains_key("/base/second"));
    assert!(disk.nodes.contains_key("/base/owned"));
}

#[test]
fn sweep_removes_an_orphan_that_cannot_be_listed() {
    let mut disk = base_with_workspaces();
    disk.failing.push("ls /base/orphan".to_string());
    sweep(&mut disk, true);
    assert!(!disk.nodes.contains_key("/base/orphan"));
    assert!(!disk.tags().contains(&"suspect /base/orphan/repo".to_string()));
}

#[test]
fn sweep_ends_when_the_base_directory_cannot_be_listed() {
    let mut disk = base_with_workspaces();
    let before = disk.nodes.clone();
    disk.failing.push("ls /base".to_string());
    sweep(&mut disk, true);
    assert_eq!(disk.nodes, before);
    assert_eq!(disk.tags(), vec!["stat /base", "ls /base"]);
}

#[test]
fn sweep_spares_what_a_record_names_whatever_fails() {
    let failures = [
        "ls /base/orphan",
        "suspect /base/orphan/repo",
        "stat /base/orphan",
        "rmtree /base/orphan",
        "record /base/orphan",
    ];
    for failure in failures {
        let mut disk = base_with_workspaces();
        disk.failing.push(failure.to_string());
        sweep(&mut disk, true);
        assert!(!disk.tags().contains(&"rmtree /base/owned".to_string()), "{}", failure);
        assert!(disk.nodes.contains_key("/base/owned"), "{}", failure);
        assert!(disk.nodes.contains_key("/base/owned/repo"), "{}", failure);
    }
}

#[test]
fn sweep_asks_to_remove_every_directory_without_a_record() {
    let mut disk = base_with_workspaces();
    disk.nodes.insert("/base/second".to_string(), plain_dir());
    disk.nodes.insert("/base/third".to_string(), worktree());
    disk.failing.push("rmtree /base/orphan".to_string());
    disk.failing.push("ls /base/second".to_string());
    sweep(&mut disk, true);
    let tags = disk.tags();
    for orphan in ["/base/orphan", "/base/second", "/base/third"] {
        assert!(tags.contains(&format!("rmtree {}", orphan)), "{}", orphan);
    }
    assert!(!tags.contains(&"rmtree /base/file.txt".to_string()));
    assert!(!tags.contains(&"rmtree /base/owned".to_string()));
}

#[test]
fn outcome_tells_failures_from_the_rest() {
    let failed = Outcome::Failed { reason: "disk full".to_string() };
    assert!(failed.is_failure());
    assert_eq!(failed.failure(), Some("disk full".to_string()));
    assert!(!Outcome::Done.is_failure());
    assert_eq!(Outcome::Done.failure(), None);
    assert_eq!(Outcome::Record { exists: true }.failure(), None);
}

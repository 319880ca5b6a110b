use std::path::Path;
use workspace_orchestrator::path::{join, migrating_sibling, sanitized_branch, sibling_path};
use workspace_orchestrator::migrate::compute_migrating_path;
use workspace_orchestrator::workspace_manager::WorkspaceManager;

fn by_std(repo_path: &str, branch: &str) -> String {
    let path = Path::new(repo_path);
    let parent = path.parent().unwrap_or(path);
    let name = path
        .file_name()
        .map(|n| n.to_string_lossy().to_string())
        .unwrap_or_else(|| "repo".to_string());
    parent
        .join(format!("{}-{}", name, branch.replace('/', "-")))
        .to_string_lossy()
        .to_string()
}

#[test]
fn worktree_lies_beside_the_repository() {
    assert_eq!(
        WorkspaceManager::compute_worktree_path("/home/user/myrepo", "branch-name"),
        "/home/user/myrepo-branch-name"
    );
}

#[test]
fn slashes_of_the_branch_become_dashes() {
    assert_eq!(
        WorkspaceManager::compute_worktree_path("/repos/A", "feature/x"),
        "/repos/A-feature-x"
    );
    assert_eq!(
        WorkspaceManager::compute_worktree_path("/repos/A", "a/b/c"),
        "/repos/A-a-b-c"
    );
    assert_eq!(sanitized_branch("feature/x"), "feature-x");
    assert_eq!(sanitized_branch("/lead/trail/"), "-lead-trail-");
    assert_eq!(sanitized_branch("plain"), "plain");
    assert_eq!(sanitized_branch(""), "");
    assert_eq!(sanitized_branch("caf\u{e9}/\u{1f600}"), "caf\u{e9}-\u{1f600}");
}

#[test]
fn repository_without_name_is_called_repo() {
    assert_eq!(WorkspaceManager::compute_worktree_path("/", "main"), "/repo-main");
    assert_eq!(WorkspaceManager::compute_worktree_path("/a/..", "main"), "/a/repo-main");
    assert_eq!(WorkspaceManager::compute_worktree_path("", "main"), "repo-main");
}

#[test]
fn relative_and_odd_repository_paths() {
    assert_eq!(WorkspaceManager::compute_worktree_path("repo", "main"), "repo-main");
    assert_eq!(WorkspaceManager::compute_worktree_path("a/b", "main"), "a/b-main");
    assert_eq!(WorkspaceManager::compute_worktree_path("/a/b/", "x"), "/a/b-x");
    assert_eq!(WorkspaceManager::compute_worktree_path("/a//b", "x"), "/a/b-x");
    assert_eq!(WorkspaceManager::compute_worktree_path("/b", "x"), "/b-x");
}

#[test]
fn compute_path_agrees_with_std_paths() {
    let repos = [
        "/home/user/myrepo",
        "/repos/A",
        "/",
        "",
        "repo",
        "a/b",
        "/a/b/",
        "/a//b",
        "/a/./b",
        "/a/..",
        "..",
        ".",
        "/caf\u{e9}/d\u{e9}p\u{f4}t",
        "/with space/my repo",
    ];
    let branches = ["main", "feature/x", "a/b/c", "", "vk/1234-fix", "caf\u{e9}/\u{1f600}"];
    for repo in repos {
        for branch in branches {
            assert_eq!(
                WorkspaceManager::compute_worktree_path(repo, branch),
                by_std(repo, branch),
                "repo {:?} branch {:?}",
                repo,
                branch
            );
        }
    }
}

#[test]
fn compute_path_is_deterministic() {
    let first = WorkspaceManager::compute_worktree_path("/repos/A", "feature/x");
    let second = WorkspaceManager::compute_worktree_path("/repos/A", "feature/x");
    assert_eq!(first, second);
}

#[test]
fn different_branches_and_repositories_get_different_paths() {
    let base = WorkspaceManager::compute_worktree_path("/repos/A", "feature/x");
    assert_ne!(base, WorkspaceManager::compute_worktree_path("/repos/A", "feature/y"));
    assert_ne!(base, WorkspaceManager::compute_worktree_path("/repos/B", "feature/x"));
    assert_ne!(base, WorkspaceManager::compute_worktree_path("/other/A", "feature/x"));
}

#[test]
fn branches_equal_after_sanitizing_share_a_path() {
    assert_eq!(
        WorkspaceManager::compute_worktree_path("/repos/A", "feature/x"),
        WorkspaceManager::compute_worktree_path("/repos/A", "feature-x")
    );
}

#[test]
fn join_puts_one_separator_between() {
    assert_eq!(join("/ws/shared", "A"), "/ws/shared/A");
    assert_eq!(join("/ws/shared/", "A"), "/ws/shared/A");
    assert_eq!(join("", "A"), "A");
    assert_eq!(join("/", "A"), "/A");
    assert_eq!(join("/ws", "/abs"), "/abs");
    assert_eq!(join("/ws", ""), "/ws/");
    assert_eq!(join("rel", "a/b"), "rel/a/b");
}

#[test]
fn join_agrees_with_std_paths() {
    let dirs = ["/ws/shared", "/ws/shared/", "", "/", "rel", "rel/", "/caf\u{e9}"];
    let rels = ["A", "a/b", "/abs", "", "-migrating", "caf\u{e9}"];
    for dir in dirs {
        for rel in rels {
            assert_eq!(
                join(dir, rel),
                Path::new(dir).join(rel).to_string_lossy().to_string(),
                "dir {:?} rel {:?}",
                dir,
                rel
            );
        }
    }
}

#[test]
fn migrating_path_lies_beside_the_workspace() {
    assert_eq!(compute_migrating_path("/ws/task-1"), "/ws/task-1-migrating");
    assert_eq!(compute_migrating_path("/ws/task-1/"), "/ws/task-1-migrating");
    assert_eq!(compute_migrating_path("task-1"), "task-1-migrating");
    assert_eq!(compute_migrating_path("/"), "/-migrating");
}

#[test]
fn migrating_path_agrees_with_std_paths() {
    for dir in ["/ws/task-1", "/ws/task-1/", "task-1", "/", "a/..", "/a/b/c", ""] {
        let path = Path::new(dir);
        let name = format!(
            "{}-migrating",
            path.file_name().map(|n| n.to_string_lossy()).unwrap_or_default()
        );
        assert_eq!(
            compute_migrating_path(dir),
            path.with_file_name(name).to_string_lossy().to_string(),
            "dir {:?}",
            dir
        );
    }
}

#[test]
fn manager_hands_back_its_base_directory() {
    let manager = WorkspaceManager::new("/var/tmp/workspaces".to_string(), true);
    assert_eq!(manager.get_workspace_base_dir(), "/var/tmp/workspaces");
}

#[test]
fn sibling_is_put_together_from_parent_and_name() {
    let some = |text: &str| Some(text.to_string());
    assert_eq!(sibling_path(some("/src"), some("A"), "/src/A", "feature/x"), "/src/A-feature-x");
    assert_eq!(sibling_path(some("/src/"), some("A"), "/src/A", "x"), "/src/A-x");
    assert_eq!(sibling_path(some(""), some("A"), "A", "x"), "A-x");
    assert_eq!(sibling_path(None, some("A"), "/here", "x"), "/here/A-x");
    assert_eq!(sibling_path(some("/src"), None, "/src/..", "a/b"), "/src/repo-a-b");
    assert_eq!(sibling_path(None, None, "/", "main"), "/repo-main");
    assert_eq!(sibling_path(None, None, "", ""), "repo-");
}

#[test]
fn migrating_place_is_put_together_from_parent_and_name() {
    let some = |text: &str| Some(text.to_string());
    assert_eq!(migrating_sibling(some("/ws"), some("task-1"), "/ws/task-1"), "/ws/task-1-migrating");
    assert_eq!(migrating_sibling(some(""), some("task-1"), "task-1"), "task-1-migrating");
    assert_eq!(migrating_sibling(None, some("task-1"), "task-1"), "task-1-migrating");
    assert_eq!(migrating_sibling(some("/ws"), None, "/ws/.."), "/ws/../-migrating");
    assert_eq!(migrating_sibling(None, None, "/"), "/-migrating");
}

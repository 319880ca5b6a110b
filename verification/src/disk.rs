//! What the lifecycle asks of the outside world, what it hears back, and a model of the disk
//! over which its effects are stated.
//!
//! The lifecycle never touches the disk. It names one [`Action`] at a time; the caller
//! performs it and answers with an [`Outcome`]. The model says what a performed action does
//! to a disk, and on which disks it can be performed at all: it is the reading of the
//! collaborators under which the laws of this crate are proved.
//!
//! The model looks at each path by itself. It knows which paths lie below which, but it does
//! not ask that the directory above a new entry be there, it knows no permissions, and it
//! takes the working-tree primitive to be able to do whatever it is asked.

use crate::path::{as_prefix, is_plain_name, join_path, lemma_join_splits};
use crate::workspace::{WorktreeCleanup, WorktreeCleanupView};
use vstd::prelude::*;

verus! {

/// What was found at a path.
#[derive(Clone, Debug, PartialEq, Eq)]
pub struct PathState {
    /// Something is there; a link counts only where what it points at is there.
    pub exists: bool,
    /// The path itself is a symbolic link, wherever it points.
    pub is_symlink: bool,
    /// It is a directory, or a link to one.
    pub is_dir: bool,
    /// A file named `.git` lies directly inside: the mark of a working tree.
    pub has_git_file: bool,
    /// Where the link points, for a link whose target could be read.
    pub link_target: Option<String>,
}

/// The mathematical value of a [`PathState`].
pub struct PathStateView {
    pub exists: bool,
    pub is_symlink: bool,
    pub is_dir: bool,
    pub has_git_file: bool,
    pub link_target: Option<Seq<char>>,
}

impl View for PathState {
    type V = PathStateView;

    open spec fn view(&self) -> PathStateView {
        PathStateView {
            exists: self.exists,
            is_symlink: self.is_symlink,
            is_dir: self.is_dir,
            has_git_file: self.has_git_file,
            link_target: self.link_target.deep_view(),
        }
    }
}

/// The state of a path at which nothing is.
pub open spec fn nothing_there() -> PathStateView {
    PathStateView {
        exists: false,
        is_symlink: false,
        is_dir: false,
        has_git_file: false,
        link_target: None,
    }
}

impl PathState {
    /// The state of a path at which nothing is.
    pub fn missing() -> (r: Self)
        ensures
            r@ == nothing_there(),
    {
        PathState {
            exists: false,
            is_symlink: false,
            is_dir: false,
            has_git_file: false,
            link_target: None,
        }
    }
}

/// One entry of a directory listing.
#[derive(Clone, Debug, PartialEq, Eq)]
pub struct DirEntry {
    pub path: String,
    pub is_dir: bool,
}

/// The mathematical value of a [`DirEntry`].
pub struct DirEntryView {
    pub path: Seq<char>,
    pub is_dir: bool,
}

impl View for DirEntry {
    type V = DirEntryView;

    open spec fn view(&self) -> DirEntryView {
        DirEntryView { path: self.path@, is_dir: self.is_dir }
    }
}

impl DeepView for DirEntry {
    type V = DirEntryView;

    open spec fn deep_view(&self) -> DirEntryView {
        self@
    }
}

/// One thing the caller is asked to do.
#[derive(Clone, Debug, PartialEq, Eq)]
pub enum Action {
    /// Make the directory and the directories above it.
    CreateDirAll { path: String },
    /// Remove the directory if it is empty.
    RemoveDir { path: String },
    /// Remove the directory with all that is in it.
    RemoveDirAll { path: String },
    /// Remove the file or link.
    RemoveFile { path: String },
    /// Make a symbolic link at `link` that points at `target`.
    Symlink { target: String, link: String },
    /// Look at the path and answer with its [`PathState`].
    Inspect { path: String },
    /// List what lies directly in the directory.
    ListDir { path: String },
    /// Make a working tree of `source_repo` at `path`, on `branch`, based on `base_branch`.
    CreateWorktree {
        source_repo: String,
        branch: String,
        path: String,
        base_branch: String,
        checkout: bool,
    },
    /// Move a working tree of `source_repo`.
    MoveWorktree { source_repo: String, from: String, to: String },
    /// Make the working tree unless a valid one is there already.
    EnsureWorktree { source_repo: String, branch: String, path: String },
    /// Remove one working tree.
    CleanupWorktree { worktree: WorktreeCleanup },
    /// Remove several working trees, going on past the ones that fail.
    BatchCleanup { targets: Vec<WorktreeCleanup> },
    /// Remove what may be a working tree of an unknown repository.
    CleanupSuspected { path: String },
    /// Ask whether a workspace record names this path.
    RecordExists { path: String },
}

/// The mathematical value of an [`Action`].
pub enum ActionView {
    CreateDirAll { path: Seq<char> },
    RemoveDir { path: Seq<char> },
    RemoveDirAll { path: Seq<char> },
    RemoveFile { path: Seq<char> },
    Symlink { target: Seq<char>, link: Seq<char> },
    Inspect { path: Seq<char> },
    ListDir { path: Seq<char> },
    CreateWorktree {
        source_repo: Seq<char>,
        branch: Seq<char>,
        path: Seq<char>,
        base_branch: Seq<char>,
        checkout: bool,
    },
    MoveWorktree { source_repo: Seq<char>, from: Seq<char>, to: Seq<char> },
    EnsureWorktree { source_repo: Seq<char>, branch: Seq<char>, path: Seq<char> },
    CleanupWorktree { worktree: WorktreeCleanupView },
    BatchCleanup { targets: Seq<WorktreeCleanupView> },
    CleanupSuspected { path: Seq<char> },
    RecordExists { path: Seq<char> },
}

impl View for Action {
    type V = ActionView;

    open spec fn view(&self) -> ActionView {
        match self {
            Action::CreateDirAll { path } => ActionView::CreateDirAll { path: path@ },
            Action::RemoveDir { path } => ActionView::RemoveDir { path: path@ },
            Action::RemoveDirAll { path } => ActionView::RemoveDirAll { path: path@ },
            Action::RemoveFile { path } => ActionView::RemoveFile { path: path@ },
            Action::Symlink { target, link } => ActionView::Symlink {
                target: target@,
                link: link@,
            },
            Action::Inspect { path } => ActionView::Inspect { path: path@ },
            Action::ListDir { path } => ActionView::ListDir { path: path@ },
            Action::CreateWorktree { source_repo, branch, path, base_branch, checkout } => {
                ActionView::CreateWorktree {
                    source_repo: source_repo@,
                    branch: branch@,
                    path: path@,
                    base_branch: base_branch@,
                    checkout: *checkout,
                }
            },
            Action::MoveWorktree { source_repo, from, to } => ActionView::MoveWorktree {
                source_repo: source_repo@,
                from: from@,
                to: to@,
            },
            Action::EnsureWorktree { source_repo, branch, path } => ActionView::EnsureWorktree {
                source_repo: source_repo@,
                branch: branch@,
                path: path@,
            },
            Action::CleanupWorktree { worktree } => ActionView::CleanupWorktree {
                worktree: worktree@,
            },
            Action::BatchCleanup { targets } => ActionView::BatchCleanup {
                targets: targets.deep_view(),
            },
            Action::CleanupSuspected { path } => ActionView::CleanupSuspected { path: path@ },
            Action::RecordExists { path } => ActionView::RecordExists { path: path@ },
        }
    }
}

/// What the caller answers after an action.
#[derive(Clone, Debug, PartialEq, Eq)]
pub enum Outcome {
    /// The action was performed.
    Done,
    /// The action failed; the text says why.
    Failed { reason: String },
    /// The answer to [`Action::Inspect`].
    Inspected { state: PathState },
    /// The answer to [`Action::ListDir`]: the entries that could be read.
    Listed { entries: Vec<DirEntry> },
    /// The answer to [`Action::RecordExists`].
    Record { exists: bool },
}

/// The mathematical value of an [`Outcome`].
pub enum OutcomeView {
    Done,
    Failed { reason: Seq<char> },
    Inspected { state: PathStateView },
    Listed { entries: Seq<DirEntryView> },
    Record { exists: bool },
}

impl OutcomeView {
    /// The state that the outcome reports, and nothing where it reports none.
    pub open spec fn state(self) -> PathStateView {
        match self {
            OutcomeView::Inspected { state } => state,
            _ => nothing_there(),
        }
    }

    /// The entries that the outcome lists, and none where it lists nothing.
    pub open spec fn entries(self) -> Seq<DirEntryView> {
        match self {
            OutcomeView::Listed { entries } => entries,
            _ => Seq::empty(),
        }
    }
}

impl View for Outcome {
    type V = OutcomeView;

    open spec fn view(&self) -> OutcomeView {
        match self {
            Outcome::Done => OutcomeView::Done,
            Outcome::Failed { reason } => OutcomeView::Failed { reason: reason@ },
            Outcome::Inspected { state } => OutcomeView::Inspected { state: state@ },
            Outcome::Listed { entries } => OutcomeView::Listed { entries: entries.deep_view() },
            Outcome::Record { exists } => OutcomeView::Record { exists: *exists },
        }
    }
}

/// What a lifecycle operation says after each outcome: the next thing to do, or how it ended.
#[derive(Debug)]
pub enum Progress<M, T> {
    /// Perform `action`, then hand its outcome to `machine`.
    Perform { machine: M, action: Action },
    /// The operation succeeded with `value`.
    Finished { value: T },
    /// The operation failed.
    Failed { error: crate::workspace::WorkspaceError },
}

/// The mathematical value of a [`Progress`].
pub enum ProgressView<M, T> {
    Perform { machine: M, action: ActionView },
    Finished { value: T },
    Failed { error: crate::workspace::WorkspaceErrorView },
}

impl<M: View, T: View> View for Progress<M, T> {
    type V = ProgressView<M::V, T::V>;

    open spec fn view(&self) -> ProgressView<M::V, T::V> {
        match self {
            Progress::Perform { machine, action } => ProgressView::Perform {
                machine: machine@,
                action: action@,
            },
            Progress::Finished { value } => ProgressView::Finished { value: value@ },
            Progress::Failed { error } => ProgressView::Failed { error: error@ },
        }
    }
}

/// What lies at one path of the modelled disk.
pub enum Node {
    /// A directory; `worktree` says whether a `.git` file lies in it.
    Directory { worktree: bool },
    /// A symbolic link.
    Link { target: Seq<char> },
    /// Anything else.
    File,
}

/// The modelled disk: what lies at which path.
pub struct Disk {
    pub nodes: Map<Seq<char>, Node>,
}

/// `path` is `dir` or lies below it.
pub open spec fn within(path: Seq<char>, dir: Seq<char>) -> bool {
    path == dir || (as_prefix(dir).len() < path.len() && path.take(as_prefix(dir).len() as int)
        == as_prefix(dir))
}

/// What lies at or below the entry `name` of the directory `dir` lies below `dir`, and is not
/// `dir` itself.
pub proof fn lemma_entry_lies_below(dir: Seq<char>, name: Seq<char>, path: Seq<char>)
    requires
        is_plain_name(name),
        within(path, join_path(dir, name)),
    ensures
        within(path, dir),
        path != dir,
{
    let front = as_prefix(dir);
    let entry = join_path(dir, name);
    lemma_join_splits(dir, name);
    assert(entry.last() == name.last());
    assert(entry.take(front.len() as int) =~= front);
    if path != entry {
        assert(as_prefix(entry) == entry.push('/'));
        assert(path.take(front.len() as int) =~= path.take(as_prefix(entry).len() as int).take(
            front.len() as int,
        ));
        assert(entry.push('/').take(front.len() as int) =~= front);
    }
}

/// Two entries of one directory with different names keep out of each other's way: neither
/// lies at or below the other.
pub proof fn lemma_entries_apart(dir: Seq<char>, one: Seq<char>, other: Seq<char>)
    requires
        is_plain_name(one),
        is_plain_name(other),
        one != other,
    ensures
        !within(join_path(dir, other), join_path(dir, one)),
{
    let front = as_prefix(dir);
    let first = join_path(dir, one);
    let second = join_path(dir, other);
    lemma_join_splits(dir, one);
    lemma_join_splits(dir, other);
    assert(first.last() == one.last());
    if second == first {
        assert(one =~= first.subrange(front.len() as int, first.len() as int));
        assert(other =~= second.subrange(front.len() as int, second.len() as int));
    } else if within(second, first) {
        let k = first.len() as int;
        assert(as_prefix(first) == first.push('/'));
        assert(second.take(k + 1)[k] == '/');
        assert(second[k] == other[k - front.len()]);
    }
}

impl Disk {
    /// Something lies at `path`.
    pub open spec fn has(self, path: Seq<char>) -> bool {
        self.nodes.contains_key(path)
    }

    /// A working tree lies at `path`.
    pub open spec fn has_worktree(self, path: Seq<char>) -> bool {
        self.has(path) && self.nodes[path] == (Node::Directory { worktree: true })
    }

    /// A directory lies at `path`.
    pub open spec fn has_directory(self, path: Seq<char>) -> bool {
        self.has(path) && self.nodes[path] is Directory
    }

    /// Something lies below `dir`.
    pub open spec fn holds_below(self, dir: Seq<char>) -> bool {
        exists|p: Seq<char>| #[trigger] self.has(p) && within(p, dir) && p != dir
    }

    /// A link to `target` lies at `path`.
    pub open spec fn has_link(self, path: Seq<char>, target: Seq<char>) -> bool {
        self.has(path) && self.nodes[path] == (Node::Link { target })
    }

    /// The disk with `node` at `path`.
    pub open spec fn with(self, path: Seq<char>, node: Node) -> Disk {
        Disk { nodes: self.nodes.insert(path, node) }
    }

    /// The disk without what lies at `path` itself.
    pub open spec fn without(self, path: Seq<char>) -> Disk {
        Disk { nodes: self.nodes.remove(path) }
    }

    /// The disk without `dir` and all that lies below it.
    pub open spec fn without_tree(self, dir: Seq<char>) -> Disk {
        Disk { nodes: self.nodes.remove_keys(Set::new(|p: Seq<char>| within(p, dir))) }
    }

    /// The disk without every target of `targets`.
    pub open spec fn without_trees(self, targets: Seq<WorktreeCleanupView>) -> Disk
        decreases targets.len(),
    {
        if targets.len() == 0 {
            self
        } else {
            self.without_trees(targets.drop_last()).without_tree(targets.last().worktree_path)
        }
    }

    /// What an inspection of `path` finds.
    pub open spec fn observe(self, path: Seq<char>) -> PathStateView {
        if !self.has(path) {
            nothing_there()
        } else {
            match self.nodes[path] {
                Node::Directory { worktree } => PathStateView {
                    exists: true,
                    is_symlink: false,
                    is_dir: true,
                    has_git_file: worktree,
                    link_target: None,
                },
                Node::File => PathStateView {
                    exists: true,
                    is_symlink: false,
                    is_dir: false,
                    has_git_file: false,
                    link_target: None,
                },
                Node::Link { target } => PathStateView {
                    exists: self.has(target),
                    is_symlink: true,
                    is_dir: self.has(target) && self.nodes[target] is Directory,
                    has_git_file: self.has_worktree(target),
                    link_target: Some(target),
                },
            }
        }
    }
}

impl ActionView {
    /// The action can be performed on `disk`. A directory is made where nothing or a
    /// directory is; only an empty directory is removed as a directory; a directory or a link
    /// is removed with all that is in it; a file or a link is removed as a file; a link is
    /// made only where nothing is.
    pub open spec fn can_be_done(self, disk: Disk) -> bool {
        match self {
            ActionView::CreateDirAll { path } => !disk.has(path) || disk.observe(path).is_dir,
            ActionView::RemoveDir { path } => disk.has_directory(path) && !disk.holds_below(path),
            ActionView::RemoveDirAll { path } => disk.has(path) && !(disk.nodes[path] is File),
            ActionView::RemoveFile { path } => disk.has(path) && !(disk.nodes[path]
                is Directory),
            ActionView::Symlink { link, .. } => !disk.has(link),
            _ => true,
        }
    }

    /// The disk after the action was performed on `disk`, where it can be performed.
    pub open spec fn effect(self, disk: Disk) -> Disk {
        match self {
            ActionView::CreateDirAll { path } => if disk.has(path) {
                disk
            } else {
                disk.with(path, Node::Directory { worktree: false })
            },
            ActionView::RemoveDir { path } => disk.without(path),
            ActionView::RemoveDirAll { path } => if disk.has(path) && disk.nodes[path] is Link {
                disk.without(path)
            } else {
                disk.without_tree(path)
            },
            ActionView::RemoveFile { path } => disk.without(path),
            ActionView::Symlink { target, link } => disk.with(link, Node::Link { target }),
            ActionView::CreateWorktree { path, .. } => disk.with(
                path,
                Node::Directory { worktree: true },
            ),
            ActionView::MoveWorktree { from, to, .. } => disk.without_tree(from).with(
                to,
                Node::Directory { worktree: true },
            ),
            ActionView::EnsureWorktree { path, .. } => disk.with(
                path,
                Node::Directory { worktree: true },
            ),
            ActionView::CleanupWorktree { worktree } => disk.without_tree(worktree.worktree_path),
            ActionView::BatchCleanup { targets } => disk.without_trees(targets),
            ActionView::CleanupSuspected { path } => disk.without_tree(path),
            ActionView::Inspect { .. } => disk,
            ActionView::ListDir { .. } => disk,
            ActionView::RecordExists { .. } => disk,
        }
    }

    /// The disk after the action was tried on `disk` with the outcome `outcome`: an action
    /// that failed, or that cannot be performed there, leaves the disk as it was.
    pub open spec fn applied(self, outcome: OutcomeView, disk: Disk) -> Disk {
        if outcome is Failed || !self.can_be_done(disk) {
            disk
        } else {
            self.effect(disk)
        }
    }

    /// The outcome of the action on `disk` when nothing goes wrong that need not: an
    /// inspection tells what is there, an action that can be performed is done, and one that
    /// cannot fails.
    pub open spec fn smooth_outcome(self, disk: Disk) -> OutcomeView {
        match self {
            ActionView::Inspect { path } => OutcomeView::Inspected { state: disk.observe(path) },
            _ => if self.can_be_done(disk) {
                OutcomeView::Done
            } else {
                OutcomeView::Failed { reason: "the action cannot be performed here"@ }
            },
        }
    }

    /// The action changes nothing on any disk.
    pub open spec fn only_looks(self) -> bool {
        self is Inspect || self is ListDir || self is RecordExists
    }
}

impl Outcome {
    /// The reason of a failure, and `None` for every other outcome.
    pub fn failure(&self) -> (r: Option<String>)
        ensures
            r.deep_view() == (match self@ {
                OutcomeView::Failed { reason } => Some(reason),
                _ => None,
            }),
    {
        match self {
            Outcome::Failed { reason } => Some(reason.clone()),
            _ => None,
        }
    }

    /// Tells whether the outcome is a failure.
    pub fn is_failure(&self) -> (r: bool)
        ensures
            r == (self@ is Failed),
    {
        match self {
            Outcome::Failed { .. } => true,
            _ => false,
        }
    }
}

} // verus!

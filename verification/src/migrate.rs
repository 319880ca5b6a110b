//! Moving a workspace of the oldest layout, where the shared directory itself was the one
//! working tree, to the layout with one entry for each repository.
//!
//! A directory cannot be moved into itself, so the tree first moves aside, to a temporary
//! place beside the shared directory; the shared directory is made anew; then the tree moves
//! in. Where nothing of the old layout is found, or the new place is taken, nothing is done.

use crate::disk::{Action, ActionView, Disk, Outcome, OutcomeView, Progress, ProgressView};
use crate::path::{
    file_name_of, join, join_path, migrating_place, migrating_sibling, parent_of, path_file_name,
    path_parent,
};
use crate::workspace::{Repo, RepoView, WorkspaceError, WorkspaceErrorView};
use vstd::prelude::*;

verus! {

/// What a migration is waiting for.
#[derive(Clone, Copy, Debug, PartialEq, Eq, Structural)]
pub enum MigratePhase {
    /// The shared directory is being looked at.
    CheckingDir,
    /// The new place of the working tree is being looked at.
    CheckingTarget,
    /// The working tree is being moved aside.
    MovingOut,
    /// The shared directory is being made anew.
    MakingDir,
    /// The working tree is being moved to its new place.
    MovingIn,
    /// The temporary place is being looked at.
    CheckingTemp,
    /// What is left at the temporary place is being removed.
    RemovingTemp,
}

/// A migration under way.
#[derive(Debug)]
pub struct MigrateLegacy {
    workspace_dir: String,
    repo: Repo,
    temp_path: String,
    phase: MigratePhase,
}

/// The mathematical value of a [`MigrateLegacy`].
pub struct MigrateLegacyView {
    pub workspace_dir: Seq<char>,
    pub repo: RepoView,
    pub temp_path: Seq<char>,
    pub phase: MigratePhase,
}

impl View for MigrateLegacy {
    type V = MigrateLegacyView;

    closed spec fn view(&self) -> MigrateLegacyView {
        MigrateLegacyView {
            workspace_dir: self.workspace_dir@,
            repo: self.repo@,
            temp_path: self.temp_path@,
            phase: self.phase,
        }
    }
}

/// The temporary place beside the shared directory: its name with `-migrating` behind it,
/// in the same directory; and `-migrating` below the path itself where it has no name.
pub open spec fn migrating_path(workspace_dir: Seq<char>) -> Seq<char> {
    migrating_place(path_parent(workspace_dir), path_file_name(workspace_dir), workspace_dir)
}

/// Computes the temporary place beside the shared directory.
pub fn compute_migrating_path(workspace_dir: &str) -> (r: String)
    ensures
        r@ == migrating_path(workspace_dir@),
{
    migrating_sibling(parent_of(workspace_dir), file_name_of(workspace_dir), workspace_dir)
}

impl MigrateLegacyView {
    /// The new place of the working tree: the repository's entry in the shared directory.
    pub open spec fn target(self) -> Seq<char> {
        join_path(self.workspace_dir, self.repo.name)
    }

    /// The migration asking for `action` and waiting in `phase`.
    pub open spec fn ask(self, phase: MigratePhase, action: ActionView) -> ProgressView<
        MigrateLegacyView,
        bool,
    > {
        ProgressView::Perform { machine: MigrateLegacyView { phase, ..self }, action }
    }

    /// What the migration does after the outcome of the action it last asked for.
    pub open spec fn next(self, outcome: OutcomeView) -> ProgressView<MigrateLegacyView, bool> {
        match self.phase {
            MigratePhase::CheckingDir => if outcome.state().exists && outcome.state().has_git_file {
                self.ask(MigratePhase::CheckingTarget, ActionView::Inspect { path: self.target() })
            } else {
                ProgressView::Finished { value: false }
            },
            MigratePhase::CheckingTarget => if outcome.state().exists {
                ProgressView::Finished { value: false }
            } else {
                self.ask(
                    MigratePhase::MovingOut,
                    ActionView::MoveWorktree {
                        source_repo: self.repo.path,
                        from: self.workspace_dir,
                        to: self.temp_path,
                    },
                )
            },
            MigratePhase::MovingOut => match outcome {
                OutcomeView::Failed { reason } => ProgressView::Failed {
                    error: WorkspaceErrorView::Worktree(reason),
                },
                _ => self.ask(
                    MigratePhase::MakingDir,
                    ActionView::CreateDirAll { path: self.workspace_dir },
                ),
            },
            MigratePhase::MakingDir => match outcome {
                OutcomeView::Failed { reason } => ProgressView::Failed {
                    error: WorkspaceErrorView::Io(reason),
                },
                _ => self.ask(
                    MigratePhase::MovingIn,
                    ActionView::MoveWorktree {
                        source_repo: self.repo.path,
                        from: self.temp_path,
                        to: self.target(),
                    },
                ),
            },
            MigratePhase::MovingIn => match outcome {
                OutcomeView::Failed { reason } => ProgressView::Failed {
                    error: WorkspaceErrorView::Worktree(reason),
                },
                _ => self.ask(
                    MigratePhase::CheckingTemp,
                    ActionView::Inspect { path: self.temp_path },
                ),
            },
            MigratePhase::CheckingTemp => if outcome.state().exists {
                self.ask(
                    MigratePhase::RemovingTemp,
                    ActionView::RemoveDirAll { path: self.temp_path },
                )
            } else {
                ProgressView::Finished { value: true }
            },
            MigratePhase::RemovingTemp => ProgressView::Finished { value: true },
        }
    }
}

/// How the migration of the workspace under `workspace_dir` for `repo` begins: by looking at
/// the shared directory.
pub open spec fn migrate_start(workspace_dir: Seq<char>, repo: RepoView) -> ProgressView<
    MigrateLegacyView,
    bool,
> {
    ProgressView::Perform {
        machine: MigrateLegacyView {
            workspace_dir,
            repo,
            temp_path: migrating_path(workspace_dir),
            phase: MigratePhase::CheckingDir,
        },
        action: ActionView::Inspect { path: workspace_dir },
    }
}

impl MigrateLegacy {
    /// Begins a migration; see [`migrate_start`].
    pub(crate) fn start(workspace_dir: &str, repo: &Repo) -> (r: Progress<MigrateLegacy, bool>)
        ensures
            r@ == migrate_start(workspace_dir@, repo@),
    {
        Progress::Perform {
            machine: MigrateLegacy {
                workspace_dir: String::from_str(workspace_dir),
                repo: repo.clone(),
                temp_path: compute_migrating_path(workspace_dir),
                phase: MigratePhase::CheckingDir,
            },
            action: Action::Inspect { path: String::from_str(workspace_dir) },
        }
    }

    fn target(&self) -> (r: String)
        ensures
            r@ == self@.target(),
    {
        join(self.workspace_dir.as_str(), self.repo.name.as_str())
    }

    fn ask(self, phase: MigratePhase, action: Action) -> (r: Progress<MigrateLegacy, bool>)
        ensures
            r@ == self@.ask(phase, action@),
    {
        Progress::Perform { machine: MigrateLegacy { phase, ..self }, action }
    }

    /// Takes the outcome of the action last asked for and says what comes next.
    pub fn resume(self, outcome: &Outcome) -> (r: Progress<MigrateLegacy, bool>)
        ensures
            r@ == self@.next(outcome@),
    {
        let (exists, has_git_file) = match outcome {
            Outcome::Inspected { state } => (state.exists, state.has_git_file),
            _ => (false, false),
        };
        match self.phase {
            MigratePhase::CheckingDir => {
                if exists && has_git_file {
                    let action = Action::Inspect { path: self.target() };
                    self.ask(MigratePhase::CheckingTarget, action)
                } else {
                    Progress::Finished { value: false }
                }
            },
            MigratePhase::CheckingTarget => {
                if exists {
                    Progress::Finished { value: false }
                } else {
                    let action = Action::MoveWorktree {
                        source_repo: self.repo.path.clone(),
                        from: self.workspace_dir.clone(),
                        to: self.temp_path.clone(),
                    };
                    self.ask(MigratePhase::MovingOut, action)
                }
            },
            MigratePhase::MovingOut => match outcome.failure() {
                Some(reason) => Progress::Failed { error: WorkspaceError::Worktree(reason) },
                None => {
                    let action = Action::CreateDirAll { path: self.workspace_dir.clone() };
                    self.ask(MigratePhase::MakingDir, action)
                },
            },
            MigratePhase::MakingDir => match outcome.failure() {
                Some(reason) => Progress::Failed { error: WorkspaceError::Io(reason) },
                None => {
                    let action = Action::MoveWorktree {
                        source_repo: self.repo.path.clone(),
                        from: self.temp_path.clone(),
                        to: self.target(),
                    };
                    self.ask(MigratePhase::MovingIn, action)
                },
            },
            MigratePhase::MovingIn => match outcome.failure() {
                Some(reason) => Progress::Failed { error: WorkspaceError::Worktree(reason) },
                None => {
                    let action = Action::Inspect { path: self.temp_path.clone() };
                    self.ask(MigratePhase::CheckingTemp, action)
                },
            },
            MigratePhase::CheckingTemp => {
                if exists {
                    let action = Action::RemoveDirAll { path: self.temp_path.clone() };
                    self.ask(MigratePhase::RemovingTemp, action)
                } else {
                    Progress::Finished { value: true }
                }
            },
            MigratePhase::RemovingTemp => Progress::Finished { value: true },
        }
    }
}

/// What a played migration comes to: where it stands, the disk it leaves, and the actions it
/// asked for, in their order.
pub struct MigrationRun {
    pub end: ProgressView<MigrateLegacyView, bool>,
    pub disk: Disk,
    pub asked: Seq<ActionView>,
}

/// How the outside world answers a migration: the outcome of the action that the migration
/// asks for in a given state, on a given disk.
pub type MigrateScript = spec_fn(MigrateLegacyView, ActionView, Disk) -> OutcomeView;

/// The world in which every inspection tells what is there; what becomes of the other
/// actions is up to `script`.
pub open spec fn looks_truly(script: MigrateScript) -> bool {
    forall|m: MigrateLegacyView, path: Seq<char>, disk: Disk| #[trigger]
        script(m, ActionView::Inspect { path }, disk) == (OutcomeView::Inspected {
            state: disk.observe(path),
        })
}

/// The migration `p` played on `disk` against `script` for at most `fuel` actions.
pub open spec fn play_migrate(
    p: ProgressView<MigrateLegacyView, bool>,
    disk: Disk,
    script: MigrateScript,
    fuel: nat,
) -> MigrationRun
    decreases fuel,
{
    match p {
        ProgressView::Perform { machine, action } => if fuel == 0 {
            MigrationRun { end: p, disk, asked: Seq::empty() }
        } else {
            let outcome = script(machine, action, disk);
            let rest = play_migrate(
                machine.next(outcome),
                action.applied(outcome, disk),
                script,
                (fuel - 1) as nat,
            );
            MigrationRun { asked: seq![action] + rest.asked, ..rest }
        },
        _ => MigrationRun { end: p, disk, asked: Seq::empty() },
    }
}

/// Where the new place is taken, a migration does nothing.
///
/// Let something lie at the repository's entry in the shared directory. Then, whatever else
/// is on the disk, the migration answers `false`, every action it asked for only looked at
/// the disk, and the disk is as it was.
pub proof fn lemma_migration_skipped_when_target_exists(
    workspace_dir: Seq<char>,
    repo: RepoView,
    disk: Disk,
    script: MigrateScript,
    fuel: nat,
)
    requires
        looks_truly(script),
        disk.observe(join_path(workspace_dir, repo.name)).exists,
        fuel >= 2,
    ensures
        ({
            let run = play_migrate(migrate_start(workspace_dir, repo), disk, script, fuel);
            &&& run.end == (ProgressView::<MigrateLegacyView, bool>::Finished { value: false })
            &&& run.disk == disk
            &&& forall|i: int| 0 <= i < run.asked.len() ==> (#[trigger] run.asked[i]).only_looks()
        }),
{
    reveal_with_fuel(play_migrate, 3);
}

/// A migration changes the disk only where it finds the old layout: the shared directory is
/// there with the mark of a working tree in it, and the new place is free.
pub proof fn lemma_migration_needs_old_layout(
    workspace_dir: Seq<char>,
    repo: RepoView,
    disk: Disk,
    script: MigrateScript,
    fuel: nat,
)
    requires
        looks_truly(script),
        fuel >= 2,
        !(disk.observe(workspace_dir).exists && disk.observe(workspace_dir).has_git_file
            && !disk.observe(join_path(workspace_dir, repo.name)).exists),
    ensures
        ({
            let run = play_migrate(migrate_start(workspace_dir, repo), disk, script, fuel);
            &&& run.end == (ProgressView::<MigrateLegacyView, bool>::Finished { value: false })
            &&& run.disk == disk
            &&& forall|i: int| 0 <= i < run.asked.len() ==> (#[trigger] run.asked[i]).only_looks()
        }),
{
    reveal_with_fuel(play_migrate, 3);
}

/// What decides how a migration of the old layout ends: which of its steps, if any, was the
/// first to fail.
pub enum MigrationFate {
    /// The working tree could not be moved aside, for this reason.
    NoMoveOut(Seq<char>),
    /// The shared directory could not be made anew, for this reason.
    NoDirectory(Seq<char>),
    /// The working tree could not be moved to its new place, for this reason.
    NoMoveIn(Seq<char>),
    /// All three steps were taken.
    Moved,
}

/// The world `script` finds the old layout and deals the migration the fate `fate`, whatever
/// else it does.
pub open spec fn deals(script: MigrateScript, fate: MigrationFate) -> bool {
    forall|m: MigrateLegacyView, action: ActionView, disk: Disk|
        {
            let outcome = #[trigger] script(m, action, disk);
            let failed = |reason: Seq<char>| outcome == (OutcomeView::Failed { reason });
            &&& m.phase == MigratePhase::CheckingDir ==> outcome.state().exists
                && outcome.state().has_git_file
            &&& m.phase == MigratePhase::CheckingTarget ==> !outcome.state().exists
            &&& m.phase == MigratePhase::MovingOut ==> (match fate {
                MigrationFate::NoMoveOut(reason) => failed(reason),
                _ => !(outcome is Failed),
            })
            &&& m.phase == MigratePhase::MakingDir ==> (match fate {
                MigrationFate::NoDirectory(reason) => failed(reason),
                _ => !(outcome is Failed),
            })
            &&& m.phase == MigratePhase::MovingIn ==> (match fate {
                MigrationFate::NoMoveIn(reason) => failed(reason),
                _ => !(outcome is Failed),
            })
        }
}

/// A migration of the old layout ends by the first of its steps that fails.
///
/// Where the old layout is found, the migration ends with the error of the step that failed
/// first: of the working-tree primitive for a move, an input-output error for the shared
/// directory. Where all three steps are taken it answers `true`, whether or not what was left
/// at the temporary place could be removed.
pub proof fn lemma_migration_ends_by_its_fate(
    workspace_dir: Seq<char>,
    repo: RepoView,
    disk: Disk,
    script: MigrateScript,
    fate: MigrationFate,
    fuel: nat,
)
    requires
        deals(script, fate),
        fuel >= 7,
    ensures
        play_migrate(migrate_start(workspace_dir, repo), disk, script, fuel).end == (match fate {
            MigrationFate::NoMoveOut(reason) => ProgressView::<MigrateLegacyView, bool>::Failed {
                error: WorkspaceErrorView::Worktree(reason),
            },
            MigrationFate::NoDirectory(reason) => ProgressView::Failed {
                error: WorkspaceErrorView::Io(reason),
            },
            MigrationFate::NoMoveIn(reason) => ProgressView::Failed {
                error: WorkspaceErrorView::Worktree(reason),
            },
            MigrationFate::Moved => ProgressView::Finished { value: true },
        }),
{
    reveal_with_fuel(play_migrate, 8);
}

} // verus!

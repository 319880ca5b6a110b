//! Sweeping orphans: the directories under the base directory that no workspace record
//! names are removed, with what may be working trees inside them cleaned up first.
//!
//! The sweep races with builds and teardowns of the same paths: between the answer that no
//! record names a path and the removal, a build may have claimed it. Nothing here locks a
//! path; whoever needs that has to add a lease around the sweep.
//!
//! The laws speak of a sweep played against the modelled disk and a script, which says how
//! each action turns out: a sweep never fails; what a record names is never asked to be
//! removed, and stays where it is; and every directory of the base directory that nothing owns
//! is asked to be removed before the sweep ends.

use crate::disk::{
    within, Action, ActionView, DirEntry, DirEntryView, Disk, Outcome, OutcomeView, Progress,
    ProgressView,
};
use vstd::prelude::*;

verus! {

/// What a sweep is waiting for. From `Asking` on, the phases concern entry `index` of the
/// base directory.
#[derive(Clone, Copy, Debug, PartialEq, Eq, Structural)]
pub enum SweepPhase {
    /// The base directory is being looked at.
    CheckingBase,
    /// The base directory is being listed.
    Listing,
    /// The records are being asked about the entry.
    Asking,
    /// The orphan is being listed.
    ListingOrphan,
    /// Child `child` of the orphan is being cleaned up as a suspected working tree.
    CleaningChild,
    /// The orphan is being looked at.
    CheckingOrphan,
    /// The orphan is being removed.
    RemovingOrphan,
}

/// A sweep under way.
#[derive(Debug)]
pub struct OrphanSweep {
    base_dir: String,
    entries: Vec<DirEntry>,
    index: usize,
    children: Vec<DirEntry>,
    child: usize,
    phase: SweepPhase,
}

/// The mathematical value of an [`OrphanSweep`].
pub struct OrphanSweepView {
    pub base_dir: Seq<char>,
    pub entries: Seq<DirEntryView>,
    pub index: int,
    pub children: Seq<DirEntryView>,
    pub child: int,
    pub phase: SweepPhase,
}

impl View for OrphanSweep {
    type V = OrphanSweepView;

    closed spec fn view(&self) -> OrphanSweepView {
        OrphanSweepView {
            base_dir: self.base_dir@,
            entries: self.entries.deep_view(),
            index: self.index as int,
            children: self.children.deep_view(),
            child: self.child as int,
            phase: self.phase,
        }
    }
}

/// The index of the first directory among `entries` from `from` on, and the number of
/// entries where there is none.
pub open spec fn next_dir(entries: Seq<DirEntryView>, from: int) -> int
    decreases entries.len() - from,
{
    if from < 0 || from >= entries.len() {
        entries.len() as int
    } else if entries[from].is_dir {
        from
    } else {
        next_dir(entries, from + 1)
    }
}

impl OrphanSweepView {
    /// The sweep turning to the first directory of the base directory from `from` on, or done
    /// where there is none.
    pub open spec fn turn_to_entry(self, from: int) -> ProgressView<OrphanSweepView, ()> {
        let i = next_dir(self.entries, from);
        if i < self.entries.len() {
            ProgressView::Perform {
                machine: OrphanSweepView {
                    index: i,
                    children: Seq::empty(),
                    child: 0,
                    phase: SweepPhase::Asking,
                    ..self
                },
                action: ActionView::RecordExists { path: self.entries[i].path },
            }
        } else {
            ProgressView::Finished { value: () }
        }
    }

    /// The sweep turning to the first directory inside the orphan from `from` on, or to the
    /// orphan itself where there is none.
    pub open spec fn turn_to_child(self, from: int) -> ProgressView<OrphanSweepView, ()> {
        let j = next_dir(self.children, from);
        if j < self.children.len() {
            ProgressView::Perform {
                machine: OrphanSweepView { child: j, phase: SweepPhase::CleaningChild, ..self },
                action: ActionView::CleanupSuspected { path: self.children[j].path },
            }
        } else {
            ProgressView::Perform {
                machine: OrphanSweepView { child: j, phase: SweepPhase::CheckingOrphan, ..self },
                action: ActionView::Inspect { path: self.entries[self.index].path },
            }
        }
    }

    /// The order to remove the orphan.
    pub open spec fn remove_orphan(self) -> ProgressView<OrphanSweepView, ()> {
        ProgressView::Perform {
            machine: OrphanSweepView { phase: SweepPhase::RemovingOrphan, ..self },
            action: ActionView::RemoveDirAll { path: self.entries[self.index].path },
        }
    }

    /// What the sweep does after the outcome of the action it last asked for.
    pub open spec fn next(self, outcome: OutcomeView) -> ProgressView<OrphanSweepView, ()> {
        match self.phase {
            SweepPhase::CheckingBase => if outcome.state().exists {
                ProgressView::Perform {
                    machine: OrphanSweepView { phase: SweepPhase::Listing, ..self },
                    action: ActionView::ListDir { path: self.base_dir },
                }
            } else {
                ProgressView::Finished { value: () }
            },
            SweepPhase::Listing => (OrphanSweepView { entries: outcome.entries(), ..self }).turn_to_entry(
                0,
            ),
            SweepPhase::Asking => if outcome == (OutcomeView::Record { exists: true }) {
                self.turn_to_entry(self.index + 1)
            } else {
                ProgressView::Perform {
                    machine: OrphanSweepView { phase: SweepPhase::ListingOrphan, ..self },
                    action: ActionView::ListDir { path: self.entries[self.index].path },
                }
            },
            SweepPhase::ListingOrphan => if outcome is Failed {
                self.remove_orphan()
            } else {
                (OrphanSweepView { children: outcome.entries(), ..self }).turn_to_child(0)
            },
            SweepPhase::CleaningChild => self.turn_to_child(self.child + 1),
            SweepPhase::CheckingOrphan => if outcome.state().exists {
                self.remove_orphan()
            } else {
                self.turn_to_entry(self.index + 1)
            },
            SweepPhase::RemovingOrphan => self.turn_to_entry(self.index + 1),
        }
    }
}

/// How a sweep of `base_dir` begins: not at all where sweeping is switched off, else by
/// looking at the base directory.
pub open spec fn sweep_start(base_dir: Seq<char>, enabled: bool) -> ProgressView<
    OrphanSweepView,
    (),
> {
    if enabled {
        ProgressView::Perform {
            machine: OrphanSweepView {
                base_dir,
                entries: Seq::empty(),
                index: 0,
                children: Seq::empty(),
                child: 0,
                phase: SweepPhase::CheckingBase,
            },
            action: ActionView::Inspect { path: base_dir },
        }
    } else {
        ProgressView::Finished { value: () }
    }
}

/// A copy of the entries.
pub(crate) fn clone_entries(entries: &Vec<DirEntry>) -> (r: Vec<DirEntry>)
    ensures
        r.deep_view() == entries.deep_view(),
{
    let mut out: Vec<DirEntry> = Vec::new();
    let mut i: usize = 0;
    while i < entries.len()
        invariant
            i <= entries.len(),
            out.len() == i,
            forall|j: int| 0 <= j < i ==> out[j]@ == entries[j]@,
        decreases entries.len() - i,
    {
        out.push(DirEntry { path: entries[i].path.clone(), is_dir: entries[i].is_dir });
        i += 1;
    }
    assert(out.deep_view() =~= entries.deep_view());
    out
}

/// The index of the first directory among `entries` from `from` on.
pub fn find_next_dir(entries: &Vec<DirEntry>, from: usize) -> (r: usize)
    ensures
        r == next_dir(entries.deep_view(), from as int),
        r <= entries.len(),
        r < entries.len() ==> entries[r as int].is_dir,
{
    let mut i = from;
    while i < entries.len() && !entries[i].is_dir
        invariant
            next_dir(entries.deep_view(), from as int) == next_dir(entries.deep_view(), i as int),
        decreases entries.len() - i,
    {
        assert(entries.deep_view()[i as int] == entries[i as int]@);
        i += 1;
    }
    if i < entries.len() {
        assert(entries.deep_view()[i as int] == entries[i as int]@);
        i
    } else {
        entries.len()
    }
}

/// The outcome's listing, and an empty one where it lists nothing.
fn listed(outcome: &Outcome) -> (r: Vec<DirEntry>)
    ensures
        r.deep_view() == outcome@.entries(),
{
    match outcome {
        Outcome::Listed { entries } => clone_entries(entries),
        _ => {
            let none: Vec<DirEntry> = Vec::new();
            assert(none.deep_view() =~= Seq::<DirEntryView>::empty());
            none
        },
    }
}

impl OrphanSweep {
    #[verifier::type_invariant]
    spec fn wf(self) -> bool {
        match self.phase {
            SweepPhase::CheckingBase | SweepPhase::Listing => true,
            SweepPhase::CleaningChild => self.index < self.entries.len() && self.child
                < self.children.len(),
            _ => self.index < self.entries.len(),
        }
    }

    /// Begins a sweep; see [`sweep_start`].
    pub(crate) fn start(base_dir: &str, enabled: bool) -> (r: Progress<OrphanSweep, ()>)
        ensures
            r@ == sweep_start(base_dir@, enabled),
    {
        if !enabled {
            return Progress::Finished { value: () };
        }
        let machine = OrphanSweep {
            base_dir: String::from_str(base_dir),
            entries: Vec::new(),
            index: 0,
            children: Vec::new(),
            child: 0,
            phase: SweepPhase::CheckingBase,
        };
        assert(machine.entries.deep_view() =~= Seq::<DirEntryView>::empty());
        assert(machine.children.deep_view() =~= Seq::<DirEntryView>::empty());
        Progress::Perform { machine, action: Action::Inspect { path: String::from_str(base_dir) } }
    }

    fn turn_to_entry(self, from: usize) -> (r: Progress<OrphanSweep, ()>)
        ensures
            r@ == self@.turn_to_entry(from as int),
    {
        let i = find_next_dir(&self.entries, from);
        if i < self.entries.len() {
            let action = Action::RecordExists { path: self.entries[i].path.clone() };
            let children: Vec<DirEntry> = Vec::new();
            assert(children.deep_view() =~= Seq::<DirEntryView>::empty());
            let machine = OrphanSweep {
                index: i,
                children,
                child: 0,
                phase: SweepPhase::Asking,
                ..self
            };
            Progress::Perform { machine, action }
        } else {
            Progress::Finished { value: () }
        }
    }

    fn turn_to_child(self, from: usize) -> (r: Progress<OrphanSweep, ()>)
        requires
            self.index < self.entries.len(),
        ensures
            r@ == self@.turn_to_child(from as int),
    {
        let j = find_next_dir(&self.children, from);
        if j < self.children.len() {
            let action = Action::CleanupSuspected { path: self.children[j].path.clone() };
            let machine = OrphanSweep { child: j, phase: SweepPhase::CleaningChild, ..self };
            Progress::Perform { machine, action }
        } else {
            let action = Action::Inspect { path: self.entries[self.index].path.clone() };
            let machine = OrphanSweep { child: j, phase: SweepPhase::CheckingOrphan, ..self };
            Progress::Perform { machine, action }
        }
    }

    fn remove_orphan(self) -> (r: Progress<OrphanSweep, ()>)
        requires
            self.index < self.entries.len(),
        ensures
            r@ == self@.remove_orphan(),
    {
        let action = Action::RemoveDirAll { path: self.entries[self.index].path.clone() };
        let machine = OrphanSweep { phase: SweepPhase::RemovingOrphan, ..self };
        Progress::Perform { machine, action }
    }

    /// Takes the outcome of the action last asked for and says what comes next.
    pub fn resume(self, outcome: &Outcome) -> (r: Progress<OrphanSweep, ()>)
        ensures
            r@ == self@.next(outcome@),
    {
        proof {
            use_type_invariant(&self);
        }
        let exists = match outcome {
            Outcome::Inspected { state } => state.exists,
            _ => false,
        };
        match self.phase {
            SweepPhase::CheckingBase => {
                if exists {
                    let action = Action::ListDir { path: self.base_dir.clone() };
                    Progress::Perform {
                        machine: OrphanSweep { phase: SweepPhase::Listing, ..self },
                        action,
                    }
                } else {
                    Progress::Finished { value: () }
                }
            },
            SweepPhase::Listing => {
                let machine = OrphanSweep { entries: listed(outcome), ..self };
                machine.turn_to_entry(0)
            },
            SweepPhase::Asking => {
                let owned = match outcome {
                    Outcome::Record { exists } => *exists,
                    _ => false,
                };
                if owned {
                    let from = self.index + 1;
                    self.turn_to_entry(from)
                } else {
                    let action = Action::ListDir { path: self.entries[self.index].path.clone() };
                    Progress::Perform {
                        machine: OrphanSweep { phase: SweepPhase::ListingOrphan, ..self },
                        action,
                    }
                }
            },
            SweepPhase::ListingOrphan => {
                if outcome.is_failure() {
                    self.remove_orphan()
                } else {
                    let machine = OrphanSweep { children: listed(outcome), ..self };
                    machine.turn_to_child(0)
                }
            },
            SweepPhase::CleaningChild => {
                let from = self.child + 1;
                self.turn_to_child(from)
            },
            SweepPhase::CheckingOrphan => {
                if exists {
                    self.remove_orphan()
                } else {
                    let from = self.index + 1;
                    self.turn_to_entry(from)
                }
            },
            SweepPhase::RemovingOrphan => {
                let from = self.index + 1;
                self.turn_to_entry(from)
            },
        }
    }
}

/// How the outside world answers a sweep: the outcome of the action that the sweep asks for
/// in a given state, on a given disk.
pub type SweepScript = spec_fn(OrphanSweepView, ActionView, Disk) -> OutcomeView;

/// What a played sweep comes to: where it stands, the disk it leaves, and the actions it
/// asked for, in their order.
pub struct SweepRun {
    pub end: ProgressView<OrphanSweepView, ()>,
    pub disk: Disk,
    pub asked: Seq<ActionView>,
}

/// The sweep `p` played on `disk` against `script` for at most `fuel` actions.
pub open spec fn play_sweep(
    p: ProgressView<OrphanSweepView, ()>,
    disk: Disk,
    script: SweepScript,
    fuel: nat,
) -> SweepRun
    decreases fuel,
{
    match p {
        ProgressView::Perform { machine, action } => if fuel == 0 {
            SweepRun { end: p, disk, asked: Seq::empty() }
        } else {
            let outcome = script(machine, action, disk);
            let rest = play_sweep(
                machine.next(outcome),
                action.applied(outcome, disk),
                script,
                (fuel - 1) as nat,
            );
            SweepRun { asked: seq![action] + rest.asked, ..rest }
        },
        _ => SweepRun { end: p, disk, asked: Seq::empty() },
    }
}

/// The order to remove the directory at `path` with all that is in it.
pub open spec fn removal_of(path: Seq<char>) -> ActionView {
    ActionView::RemoveDirAll { path }
}

/// In the world `script` the records name `path`: asked about it, they say so, always.
pub open spec fn vouches(script: SweepScript, path: Seq<char>) -> bool {
    forall|m: OrphanSweepView, disk: Disk| #[trigger]
        script(m, ActionView::RecordExists { path }, disk) == (OutcomeView::Record {
            exists: true,
        })
}

/// In the world `script` nothing owns `path`: asked about it, the records never say that
/// they name it, and whenever it is looked at it is there.
pub open spec fn disowns(script: SweepScript, path: Seq<char>) -> bool {
    &&& forall|m: OrphanSweepView, disk: Disk| #[trigger]
        script(m, ActionView::RecordExists { path }, disk) != (OutcomeView::Record {
            exists: true,
        })
    &&& forall|m: OrphanSweepView, disk: Disk|
        (#[trigger] script(m, ActionView::Inspect { path }, disk)).state().exists
}

/// Where the search for the next directory ends.
pub proof fn lemma_next_dir(entries: Seq<DirEntryView>, from: int)
    requires
        0 <= from,
    ensures
        from <= next_dir(entries, from) || next_dir(entries, from) == entries.len(),
        0 <= next_dir(entries, from) <= entries.len(),
        next_dir(entries, from) < entries.len() ==> entries[next_dir(entries, from)].is_dir,
        forall|k: int|
            from <= k < entries.len() && (#[trigger] entries[k]).is_dir ==> next_dir(entries, from)
                <= k,
    decreases entries.len() - from,
{
    if from < entries.len() && !entries[from].is_dir {
        lemma_next_dir(entries, from + 1);
    }
}

/// A sweep never fails.
///
/// Whatever the listings, the records and the removals answer, a sweep that has ended has
/// ended well.
pub proof fn lemma_sweep_never_fails(
    p: ProgressView<OrphanSweepView, ()>,
    disk: Disk,
    script: SweepScript,
    fuel: nat,
)
    requires
        !(p is Failed),
    ensures
        !(play_sweep(p, disk, script, fuel).end is Failed),
    decreases fuel,
{
    match p {
        ProgressView::Perform { machine, action } => {
            if fuel > 0 {
                let outcome = script(machine, action, disk);
                lemma_sweep_never_fails(
                    machine.next(outcome),
                    action.applied(outcome, disk),
                    script,
                    (fuel - 1) as nat,
                );
            }
        },
        _ => {},
    }
}

/// The sweep `m`, about to ask for `action`, keeps its hands off `path`.
pub open spec fn spares(m: OrphanSweepView, action: ActionView, path: Seq<char>) -> bool {
    &&& action != removal_of(path)
    &&& match m.phase {
        SweepPhase::CheckingBase | SweepPhase::Listing => true,
        SweepPhase::Asking => {
            &&& 0 <= m.index < m.entries.len()
            &&& action == (ActionView::RecordExists { path: m.entries[m.index].path })
        },
        _ => 0 <= m.index < m.entries.len() && m.entries[m.index].path != path,
    }
}

/// A sweep that keeps its hands off a path that the records name goes on doing so.
pub proof fn lemma_spared(
    m: OrphanSweepView,
    action: ActionView,
    disk: Disk,
    script: SweepScript,
    path: Seq<char>,
    fuel: nat,
)
    requires
        vouches(script, path),
        spares(m, action, path),
    ensures
        !play_sweep(
            ProgressView::Perform { machine: m, action },
            disk,
            script,
            fuel,
        ).asked.contains(removal_of(path)),
    decreases fuel,
{
    let run = play_sweep(ProgressView::Perform { machine: m, action }, disk, script, fuel);
    if fuel > 0 {
        let outcome = script(m, action, disk);
        let next = m.next(outcome);
        let after = action.applied(outcome, disk);
        let rest = play_sweep(next, after, script, (fuel - 1) as nat);
        if m.index + 1 >= 0 {
            lemma_next_dir(m.entries, m.index + 1);
        }
        if m.child + 1 >= 0 {
            lemma_next_dir(m.children, m.child + 1);
        }
        lemma_next_dir(outcome.entries(), 0);
        match next {
            ProgressView::Perform { machine, action: then } => {
                assert(spares(machine, then, path));
                lemma_spared(machine, then, after, script, path, (fuel - 1) as nat);
            },
            _ => {},
        }
        assert(run.asked =~= seq![action] + rest.asked);
        if run.asked.contains(removal_of(path)) {
            let i = choose|i: int| 0 <= i < run.asked.len() && run.asked[i] == removal_of(path);
            if i > 0 {
                assert(rest.asked[i - 1] == removal_of(path));
            }
        }
    }
}

/// A directory that a record names is never removed.
///
/// Let the records name `path` whenever they are asked. Then, whatever else happens, the
/// sweep never asks to remove the directory at `path`.
pub proof fn lemma_sweep_spares_what_a_record_names(
    base_dir: Seq<char>,
    enabled: bool,
    disk: Disk,
    script: SweepScript,
    path: Seq<char>,
    fuel: nat,
)
    requires
        vouches(script, path),
    ensures
        !play_sweep(sweep_start(base_dir, enabled), disk, script, fuel).asked.contains(
            removal_of(path),
        ),
{
    match sweep_start(base_dir, enabled) {
        ProgressView::Perform { machine, action } => {
            lemma_spared(machine, action, disk, script, path, fuel);
        },
        _ => {},
    }
}

/// In the world `script` the listings keep clear of `path`: the listing of the base
/// directory names nothing that `path` lies in but `path` itself, and the listing of an
/// orphan names nothing that `path` lies in.
pub open spec fn keeps_clear(script: SweepScript, path: Seq<char>) -> bool {
    forall|m: OrphanSweepView, action: ActionView, disk: Disk, i: int|
        0 <= i < script(m, action, disk).entries().len() ==> {
            let entry = #[trigger] script(m, action, disk).entries()[i];
            !within(path, entry.path) || (m.phase == SweepPhase::Listing && entry.path == path)
        }
}

/// The action removes nothing at `path`.
pub open spec fn leaves_alone(action: ActionView, path: Seq<char>) -> bool {
    match action {
        ActionView::RemoveDirAll { path: gone } => !within(path, gone),
        ActionView::CleanupSuspected { path: gone } => !within(path, gone),
        _ => action.only_looks(),
    }
}

/// The sweep `m`, about to ask for `action`, keeps its hands off `path` and off all that
/// `path` lies in.
pub open spec fn minds(m: OrphanSweepView, action: ActionView, path: Seq<char>) -> bool {
    &&& spares(m, action, path)
    &&& leaves_alone(action, path)
    &&& forall|i: int|
        0 <= i < m.entries.len() ==> (#[trigger] m.entries[i]).path == path || !within(
            path,
            m.entries[i].path,
        )
    &&& forall|j: int| 0 <= j < m.children.len() ==> !within(path, (#[trigger] m.children[j]).path)
}

/// A sweep that keeps its hands off a path that the records name leaves there what was
/// there.
pub proof fn lemma_minded(
    m: OrphanSweepView,
    action: ActionView,
    disk: Disk,
    script: SweepScript,
    path: Seq<char>,
    fuel: nat,
)
    requires
        vouches(script, path),
        keeps_clear(script, path),
        minds(m, action, path),
    ensures
        ({
            let after = play_sweep(
                ProgressView::Perform { machine: m, action },
                disk,
                script,
                fuel,
            ).disk;
            &&& after.has(path) == disk.has(path)
            &&& after.has(path) ==> after.nodes[path] == disk.nodes[path]
        }),
    decreases fuel,
{
    if fuel > 0 {
        let outcome = script(m, action, disk);
        let next = m.next(outcome);
        let after = action.applied(outcome, disk);
        let rest = play_sweep(next, after, script, (fuel - 1) as nat);
        assert(play_sweep(ProgressView::Perform { machine: m, action }, disk, script, fuel).disk
            == rest.disk);
        assert(after.has(path) == disk.has(path));
        assert(after.has(path) ==> after.nodes[path] == disk.nodes[path]);
        if m.index + 1 >= 0 {
            lemma_next_dir(m.entries, m.index + 1);
        }
        if m.child + 1 >= 0 {
            lemma_next_dir(m.children, m.child + 1);
        }
        lemma_next_dir(outcome.entries(), 0);
        assert forall|i: int| 0 <= i < outcome.entries().len() implies !within(
            path,
            (#[trigger] outcome.entries()[i]).path,
        ) || (m.phase == SweepPhase::Listing && outcome.entries()[i].path == path) by {
            let entry = script(m, action, disk).entries()[i];
        }
        match next {
            ProgressView::Perform { machine, action: then } => {
                assert(minds(machine, then, path));
                lemma_minded(machine, then, after, script, path, (fuel - 1) as nat);
            },
            _ => {
                assert(rest.disk == after);
            },
        }
    }
}

/// What a record names stays where it is.
///
/// Let the records name `path` whenever they are asked, and let the listings keep clear of
/// `path`. Then, whatever else happens, the sweep leaves at `path` what was there.
pub proof fn lemma_sweep_keeps_what_a_record_names(
    base_dir: Seq<char>,
    enabled: bool,
    disk: Disk,
    script: SweepScript,
    path: Seq<char>,
    fuel: nat,
)
    requires
        vouches(script, path),
        keeps_clear(script, path),
    ensures
        ({
            let after = play_sweep(sweep_start(base_dir, enabled), disk, script, fuel).disk;
            &&& after.has(path) == disk.has(path)
            &&& after.has(path) ==> after.nodes[path] == disk.nodes[path]
        }),
{
    match sweep_start(base_dir, enabled) {
        ProgressView::Perform { machine, action } => {
            lemma_minded(machine, action, disk, script, path, fuel);
        },
        _ => {},
    }
}

/// The sweep `m`, about to ask for `action`, has still to come to entry `k` of the base
/// directory, or is dealing with it.
pub open spec fn heading_for(m: OrphanSweepView, action: ActionView, k: int) -> bool {
    &&& 0 <= m.index <= k < m.entries.len()
    &&& m.entries[k].is_dir
    &&& match m.phase {
        SweepPhase::CheckingBase | SweepPhase::Listing => false,
        SweepPhase::Asking => action == (ActionView::RecordExists {
            path: m.entries[m.index].path,
        }),
        SweepPhase::CheckingOrphan => action == (ActionView::Inspect {
            path: m.entries[m.index].path,
        }),
        SweepPhase::RemovingOrphan => action == removal_of(m.entries[m.index].path),
        _ => true,
    }
}

/// A sweep that has still to come to an entry that nothing owns, and that ends, has asked to
/// remove it by then.
pub proof fn lemma_reached(
    m: OrphanSweepView,
    action: ActionView,
    disk: Disk,
    script: SweepScript,
    k: int,
    fuel: nat,
)
    requires
        heading_for(m, action, k),
        disowns(script, m.entries[k].path),
        play_sweep(
            ProgressView::Perform { machine: m, action },
            disk,
            script,
            fuel,
        ).end is Finished,
    ensures
        play_sweep(
            ProgressView::Perform { machine: m, action },
            disk,
            script,
            fuel,
        ).asked.contains(removal_of(m.entries[k].path)),
    decreases fuel,
{
    let run = play_sweep(ProgressView::Perform { machine: m, action }, disk, script, fuel);
    let target = removal_of(m.entries[k].path);
    if fuel > 0 {
        let outcome = script(m, action, disk);
        let next = m.next(outcome);
        let after = action.applied(outcome, disk);
        let rest = play_sweep(next, after, script, (fuel - 1) as nat);
        assert(run.asked =~= seq![action] + rest.asked);
        if m.phase == SweepPhase::RemovingOrphan && m.index == k {
            assert(run.asked[0] == target);
        } else {
            lemma_next_dir(m.entries, m.index + 1);
            if m.child + 1 >= 0 {
                lemma_next_dir(m.children, m.child + 1);
            }
            lemma_next_dir(outcome.entries(), 0);
            match next {
                ProgressView::Perform { machine, action: then } => {
                    assert(machine.entries == m.entries);
                    assert(heading_for(machine, then, k));
                    lemma_reached(machine, then, after, script, k, (fuel - 1) as nat);
                    let i = choose|i: int| 0 <= i < rest.asked.len() && rest.asked[i] == target;
                    assert(run.asked[i + 1] == target);
                },
                _ => {},
            }
        }
    }
}

/// Every directory that nothing owns is asked to be removed.
///
/// Let the base directory be there, let its listing hold a directory at entry `k`, let the
/// records never name that directory, and let it be there whenever it is looked at. Then a
/// sweep that has ended has asked to remove it.
pub proof fn lemma_sweep_removes_what_nothing_owns(
    base_dir: Seq<char>,
    disk: Disk,
    script: SweepScript,
    k: int,
    fuel: nat,
)
    requires
        ({
            let start = sweep_start(base_dir, true)->machine;
            let listing = OrphanSweepView { phase: SweepPhase::Listing, ..start };
            let entries = script(listing, ActionView::ListDir { path: base_dir }, disk).entries();
            &&& script(start, ActionView::Inspect { path: base_dir }, disk).state().exists
            &&& 0 <= k < entries.len()
            &&& entries[k].is_dir
            &&& disowns(script, entries[k].path)
        }),
        play_sweep(sweep_start(base_dir, true), disk, script, fuel).end is Finished,
    ensures
        ({
            let start = sweep_start(base_dir, true)->machine;
            let listing = OrphanSweepView { phase: SweepPhase::Listing, ..start };
            let entries = script(listing, ActionView::ListDir { path: base_dir }, disk).entries();
            play_sweep(sweep_start(base_dir, true), disk, script, fuel).asked.contains(
                removal_of(entries[k].path),
            )
        }),
{
    let start = sweep_start(base_dir, true)->machine;
    let look = ActionView::Inspect { path: base_dir };
    let list = ActionView::ListDir { path: base_dir };
    let listing = OrphanSweepView { phase: SweepPhase::Listing, ..start };
    let listed = script(listing, list, disk);
    let entries = listed.entries();
    let target = removal_of(entries[k].path);
    let run = play_sweep(sweep_start(base_dir, true), disk, script, fuel);
    reveal_with_fuel(play_sweep, 3);
    lemma_next_dir(entries, 0);
    if fuel >= 2 {
        let disk1 = look.applied(script(start, look, disk), disk);
        assert(disk1 == disk);
        let disk2 = list.applied(listed, disk);
        let next = listing.next(listed);
        let rest = play_sweep(next, disk2, script, (fuel - 2) as nat);
        assert(run.asked =~= seq![look] + (seq![list] + rest.asked));
        match next {
            ProgressView::Perform { machine, action } => {
                assert(heading_for(machine, action, k));
                lemma_reached(machine, action, disk2, script, k, (fuel - 2) as nat);
                let i = choose|i: int| 0 <= i < rest.asked.len() && rest.asked[i] == target;
                assert(run.asked[i + 2] == target);
            },
            _ => {},
        }
    }
}

} // verus!

//! Changing a task: which fields an update replaces, and what a change of execution mode asks
//! of the sequential queue.

use crate::sequential_queue::{set_mode, set_position, max_position, SequentialQueueService};
use crate::task::{ExecutionMode, TaskStatus};
use crate::text::{trim, trimmed};
use vstd::prelude::*;

verus! {

/// What a change of execution mode asks of the queue.
#[derive(Clone, Copy, Debug, PartialEq, Eq, Structural)]
pub enum ModeChange {
    /// The task turns sequential: it joins the queue of its project at the end.
    Enqueue,
    /// The task turns parallel: it leaves the queue.
    Dequeue,
    /// The mode stays what it was.
    Keep,
}

/// What the change from `existing` to `requested` asks of the queue.
pub fn mode_change(existing: ExecutionMode, requested: ExecutionMode) -> (r: ModeChange)
    ensures
        r == (if existing == requested {
            ModeChange::Keep
        } else if requested == ExecutionMode::Sequential {
            ModeChange::Enqueue
        } else {
            ModeChange::Dequeue
        }),
{
    match (existing, requested) {
        (ExecutionMode::Parallel, ExecutionMode::Sequential) => ModeChange::Enqueue,
        (ExecutionMode::Sequential, ExecutionMode::Parallel) => ModeChange::Dequeue,
        _ => ModeChange::Keep,
    }
}

/// The records after the task `id` of `project` changed from `existing` to `requested`: a
/// task that turns sequential gets the position behind the last of the queue, a task that
/// turns parallel loses its position, and either way it has the mode asked for.
pub open spec fn mode_changed(
    tasks: Seq<crate::task::TaskView>,
    project: u128,
    id: u128,
    existing: ExecutionMode,
    requested: ExecutionMode,
) -> Seq<crate::task::TaskView> {
    if existing == requested {
        set_mode(tasks, id, requested)
    } else if requested == ExecutionMode::Sequential {
        set_mode(
            set_position(tasks, id, Some((max_position(tasks, project) + 1) as i32)),
            id,
            requested,
        )
    } else {
        set_mode(set_position(tasks, id, None), id, requested)
    }
}

/// Changes the execution mode of a task and keeps the queue of its project in step.
pub fn change_execution_mode(
    service: &mut SequentialQueueService,
    task_id: u128,
    project_id: u128,
    existing: ExecutionMode,
    requested: ExecutionMode,
)
    requires
        max_position(old(service)@, project_id) < i32::MAX,
    ensures
        final(service)@ == mode_changed(old(service)@, project_id, task_id, existing, requested),
{
    match mode_change(existing, requested) {
        ModeChange::Enqueue => service.enqueue(task_id, project_id),
        ModeChange::Dequeue => service.dequeue(task_id),
        ModeChange::Keep => {},
    }
    service.set_execution_mode(task_id, requested);
}

/// The description after an update: cleared by a text that is empty or all white space,
/// replaced by any other text, kept where the update gives none.
pub open spec fn updated_description(given: Option<Seq<char>>, recorded: Option<Seq<char>>) -> Option<
    Seq<char>,
> {
    match given {
        Some(text) => if trimmed(text).len() == 0 {
            None
        } else {
            Some(text)
        },
        None => recorded,
    }
}

/// The description of a task after an update.
pub fn merged_description(given: Option<String>, recorded: Option<String>) -> (r: Option<String>)
    ensures
        r.deep_view() == updated_description(given.deep_view(), recorded.deep_view()),
{
    match given {
        Some(text) => {
            if trim(text.as_str()).as_str().unicode_len() == 0 {
                None
            } else {
                Some(text)
            }
        },
        None => recorded,
    }
}

/// Tells whether an update moves the task into `target`: it is there afterwards and was not
/// before.
pub fn status_changes_to(existing: TaskStatus, updated: TaskStatus, target: TaskStatus) -> (r:
    bool)
    ensures
        r == (existing != target && updated == target),
{
    existing != target && updated == target
}

} // verus!

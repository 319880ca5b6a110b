//! The task record that the scheduler reads and updates.

use vstd::prelude::*;

verus! {

/// Where a task stands in its life.
#[derive(Clone, Copy, Debug, PartialEq, Eq, Structural)]
pub enum TaskStatus {
    Todo,
    InProgress,
    InReview,
    Done,
    Cancelled,
}

impl TaskStatus {
    /// A task with this status has given up the sequential slot of its project.
    pub open spec fn releases_slot(self) -> bool {
        self == TaskStatus::Done || self == TaskStatus::Cancelled || self == TaskStatus::InReview
    }

    /// Tells whether a task with this status has given up the sequential slot of its project.
    pub fn is_terminal_for_scheduling(self) -> (r: bool)
        ensures
            r == self.releases_slot(),
    {
        match self {
            TaskStatus::Done | TaskStatus::Cancelled | TaskStatus::InReview => true,
            _ => false,
        }
    }
}

/// How a task shares its project with the others.
#[derive(Clone, Copy, Debug, PartialEq, Eq, Structural)]
pub enum ExecutionMode {
    /// Runs whenever it is started.
    Parallel,
    /// Waits in the project's queue; at most one such task runs at a time.
    Sequential,
}

/// A unit of work inside a project.
#[derive(Debug, PartialEq, Eq)]
pub struct Task {
    pub id: u128,
    pub project_id: u128,
    pub title: String,
    pub status: TaskStatus,
    pub execution_mode: ExecutionMode,
    pub queue_position: Option<i32>,
}

/// The mathematical value of a [`Task`].
pub struct TaskView {
    pub id: u128,
    pub project_id: u128,
    pub title: Seq<char>,
    pub status: TaskStatus,
    pub execution_mode: ExecutionMode,
    pub queue_position: Option<i32>,
}

impl TaskView {
    /// The same task at another queue position.
    pub open spec fn with_position(self, position: Option<i32>) -> TaskView {
        TaskView { queue_position: position, ..self }
    }

    /// The number by which the queue orders the task: its position, or 0 where it has none.
    pub open spec fn key(self) -> int {
        match self.queue_position {
            Some(p) => p as int,
            None => 0,
        }
    }

    /// The task waits in, or runs from, the sequential queue of `project`.
    pub open spec fn queued_in(self, project: u128) -> bool {
        self.project_id == project && self.execution_mode == ExecutionMode::Sequential
    }
}

impl View for Task {
    type V = TaskView;

    open spec fn view(&self) -> TaskView {
        TaskView {
            id: self.id,
            project_id: self.project_id,
            title: self.title@,
            status: self.status,
            execution_mode: self.execution_mode,
            queue_position: self.queue_position,
        }
    }
}

impl DeepView for Task {
    type V = TaskView;

    open spec fn deep_view(&self) -> TaskView {
        self@
    }
}

impl Clone for Task {
    fn clone(&self) -> (r: Self)
        ensures
            r@ == self@,
    {
        Task {
            id: self.id,
            project_id: self.project_id,
            title: self.title.clone(),
            status: self.status,
            execution_mode: self.execution_mode,
            queue_position: self.queue_position,
        }
    }
}

impl Task {
    /// A task as it is first recorded: parallel, with no place in any queue.
    pub fn new(id: u128, project_id: u128, title: String, status: TaskStatus) -> (r: Self)
        ensures
            r@ == (TaskView {
                id,
                project_id,
                title: title@,
                status,
                execution_mode: ExecutionMode::Parallel,
                queue_position: None,
            }),
    {
        Task {
            id,
            project_id,
            title,
            status,
            execution_mode: ExecutionMode::Parallel,
            queue_position: None,
        }
    }

    /// Tells whether the task belongs to the sequential queue of `project`.
    pub fn is_queued_in(&self, project: u128) -> (r: bool)
        ensures
            r == self@.queued_in(project),
    {
        self.project_id == project && self.execution_mode == ExecutionMode::Sequential
    }

    /// The number by which the queue orders the task.
    pub fn position_key(&self) -> (r: i32)
        ensures
            r == self@.key(),
    {
        match self.queue_position {
            Some(p) => p,
            None => 0,
        }
    }
}

} // verus!

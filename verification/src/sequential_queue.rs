//! The sequential queue: per project, the tasks that run one at a time, in the order of their
//! positions.
//!
//! The queue is not stored anywhere. It is read off the task records: a task belongs to the
//! queue of its project while its execution mode is sequential, and the queue lists those tasks
//! by ascending position. The service holds the records it was given, answers questions about
//! them and rewrites positions; loading and storing the records is the caller's business.

use crate::queue_laws::{lemma_queue_ascending, lemma_queue_members};
use crate::task::{ExecutionMode, Task, TaskStatus, TaskView};
use vstd::prelude::*;

verus! {

/// Why a queue operation refused to act. Nothing was changed when one of these comes back.
#[derive(Clone, Copy, Debug, PartialEq, Eq, Structural)]
pub enum SequentialQueueError {
    /// No record has this id.
    TaskNotFound(u128),
    /// The task is not in sequential mode.
    NotSequentialMode,
}

/// A client's request to move a task to another position of its project's queue.
#[derive(Clone, Copy, Debug, PartialEq, Eq, Structural)]
pub struct ReorderQueueRequest {
    pub new_position: i32,
}

/// `q` with `t` put behind the last entry whose key is not larger than that of `t`.
pub open spec fn insert_by_position(q: Seq<TaskView>, t: TaskView) -> Seq<TaskView>
    decreases q.len(),
{
    if q.len() == 0 {
        seq![t]
    } else if q.last().key() <= t.key() {
        q.push(t)
    } else {
        insert_by_position(q.drop_last(), t).push(q.last())
    }
}

/// The sequential queue of `project`: its sequential tasks by ascending key, tasks of equal
/// key in the order of the records.
pub open spec fn queue_of(tasks: Seq<TaskView>, project: u128) -> Seq<TaskView>
    decreases tasks.len(),
{
    if tasks.len() == 0 {
        Seq::empty()
    } else if tasks.last().queued_in(project) {
        insert_by_position(queue_of(tasks.drop_last(), project), tasks.last())
    } else {
        queue_of(tasks.drop_last(), project)
    }
}

/// `q` lists its tasks by ascending key.
pub open spec fn ascending(q: Seq<TaskView>) -> bool {
    forall|a: int, b: int| 0 <= a < b < q.len() ==> q[a].key() <= q[b].key()
}

/// No two records share an id.
pub open spec fn distinct_ids(tasks: Seq<TaskView>) -> bool {
    forall|i: int, j: int| 0 <= i < j < tasks.len() ==> tasks[i].id != tasks[j].id
}

/// Some record of `tasks` has the id `id`.
pub open spec fn has_id(tasks: Seq<TaskView>, id: u128) -> bool {
    exists|i: int| 0 <= i < tasks.len() && #[trigger] tasks[i].id == id
}

/// The queue of `project` reads 1, 2, .., N: dense, ascending, starting at 1, nothing twice.
pub open spec fn dense_queue(tasks: Seq<TaskView>, project: u128) -> bool {
    let q = queue_of(tasks, project);
    forall|k: int|
        0 <= k < q.len() ==> (#[trigger] q[k]).queue_position is Some && q[k].key() == k + 1
}

/// The largest key in the queue of `project`, and 0 where the queue is empty or holds no
/// positive key.
pub open spec fn max_position(tasks: Seq<TaskView>, project: u128) -> int
    decreases tasks.len(),
{
    if tasks.len() == 0 {
        0
    } else {
        let m = max_position(tasks.drop_last(), project);
        let t = tasks.last();
        if t.queued_in(project) && t.key() > m {
            t.key()
        } else {
            m
        }
    }
}

/// The records with the position of every task of id `id` replaced by `position`.
pub open spec fn set_position(tasks: Seq<TaskView>, id: u128, position: Option<i32>) -> Seq<
    TaskView,
> {
    Seq::new(
        tasks.len(),
        |i: int|
            if tasks[i].id == id {
                tasks[i].with_position(position)
            } else {
                tasks[i]
            },
    )
}

/// The records with the execution mode of every task of id `id` replaced by `mode`.
pub open spec fn set_mode(tasks: Seq<TaskView>, id: u128, mode: ExecutionMode) -> Seq<TaskView> {
    Seq::new(
        tasks.len(),
        |i: int|
            if tasks[i].id == id {
                TaskView { execution_mode: mode, ..tasks[i] }
            } else {
                tasks[i]
            },
    )
}

/// The records with the status of every task of id `id` replaced by `status`.
pub open spec fn set_status(tasks: Seq<TaskView>, id: u128, status: TaskStatus) -> Seq<TaskView> {
    Seq::new(
        tasks.len(),
        |i: int|
            if tasks[i].id == id {
                TaskView { status, ..tasks[i] }
            } else {
                tasks[i]
            },
    )
}

/// At most one sequential task of `project` is in progress.
pub open spec fn single_runner(tasks: Seq<TaskView>, project: u128) -> bool {
    forall|i: int, j: int|
        0 <= i < tasks.len() && 0 <= j < tasks.len() && (#[trigger] tasks[i]).queued_in(project)
            && tasks[i].status == TaskStatus::InProgress && (#[trigger] tasks[j]).queued_in(
            project,
        ) && tasks[j].status == TaskStatus::InProgress ==> i == j
}

/// Some sequential task of `project` is in progress.
pub open spec fn has_running(tasks: Seq<TaskView>, project: u128) -> bool {
    exists|i: int|
        0 <= i < tasks.len() && (#[trigger] tasks[i]).queued_in(project) && tasks[i].status
            == TaskStatus::InProgress
}

/// `r` is the first task of `q` that is ready to start, or `None` where `q` has none.
pub open spec fn is_first_todo(q: Seq<TaskView>, r: Option<TaskView>) -> bool {
    match r {
        Some(t) => exists|i: int|
            0 <= i < q.len() && (#[trigger] q[i]) == t && t.status == TaskStatus::Todo && forall|
                j: int,
            |
                0 <= j < i ==> (#[trigger] q[j]).status != TaskStatus::Todo,
        None => forall|i: int| 0 <= i < q.len() ==> (#[trigger] q[i]).status != TaskStatus::Todo,
    }
}

/// `q` without the tasks of id `id`, the others in their order.
pub open spec fn without_id(q: Seq<TaskView>, id: u128) -> Seq<TaskView>
    decreases q.len(),
{
    if q.len() == 0 {
        q
    } else if q.last().id != id {
        without_id(q.drop_last(), id).push(q.last())
    } else {
        without_id(q.drop_last(), id)
    }
}

/// The first record of `tasks` with the id `id`.
pub open spec fn first_with_id(tasks: Seq<TaskView>, id: u128) -> Option<TaskView>
    decreases tasks.len(),
{
    if tasks.len() == 0 {
        None
    } else if tasks[0].id == id {
        Some(tasks[0])
    } else {
        first_with_id(tasks.skip(1), id)
    }
}

/// Where, among `others` queued tasks, a task asking for `new_position` is put: one before
/// the position, brought into `0..=others`.
pub open spec fn insertion_index(new_position: i32, others: int) -> int {
    if new_position - 1 < 0 {
        0
    } else if new_position - 1 > others {
        others
    } else {
        new_position - 1
    }
}

/// The position given to the task at index `idx` of the other tasks: counted from 1, with
/// one number left free for the task put in at `index`.
pub open spec fn renumbered(idx: int, index: int) -> int {
    if idx < index {
        idx + 1
    } else {
        idx + 2
    }
}

/// The index of the last task of `q` with the id `id`, and -1 where there is none.
pub open spec fn last_rank(q: Seq<TaskView>, id: u128) -> int
    decreases q.len(),
{
    if q.len() == 0 {
        -1
    } else if q.last().id == id {
        q.len() - 1
    } else {
        last_rank(q.drop_last(), id)
    }
}

/// The records after the task `id` was moved to `new_position` in the queue of `project`:
/// the moved task has exactly `new_position`; every other task of the queue is numbered by its
/// place among the others, skipping the number behind the insertion index; all else is as it
/// was.
pub open spec fn reordered(tasks: Seq<TaskView>, project: u128, id: u128, new_position: i32) -> Seq<
    TaskView,
> {
    let others = without_id(queue_of(tasks, project), id);
    let index = insertion_index(new_position, others.len() as int);
    Seq::new(
        tasks.len(),
        |i: int|
            if tasks[i].id == id {
                tasks[i].with_position(Some(new_position))
            } else if last_rank(others, tasks[i].id) >= 0 {
                tasks[i].with_position(
                    Some(renumbered(last_rank(others, tasks[i].id), index) as i32),
                )
            } else {
                tasks[i]
            },
    )
}

/// What a request to move the task `id` to `new_position` answers, and the records it leaves.
pub open spec fn reorder_result(
    tasks: Seq<TaskView>,
    project: u128,
    id: u128,
    new_position: i32,
) -> (Result<(), SequentialQueueError>, Seq<TaskView>) {
    match first_with_id(tasks, id) {
        None => (Err(SequentialQueueError::TaskNotFound(id)), tasks),
        Some(t) => if t.execution_mode != ExecutionMode::Sequential {
            (Err(SequentialQueueError::NotSequentialMode), tasks)
        } else if t.key() == new_position {
            (Ok(()), tasks)
        } else {
            (Ok(()), reordered(tasks, project, id, new_position))
        },
    }
}

/// The completion of `completed` lets the queue of its project move on: the task was
/// sequential, its status has given up the slot, and no sequential task of the project runs.
pub open spec fn may_advance(tasks: Seq<TaskView>, completed: TaskView) -> bool {
    &&& completed.execution_mode == ExecutionMode::Sequential
    &&& completed.status.releases_slot()
    &&& !has_running(tasks, completed.project_id)
}

/// The records with every task of the first `k` entries of `q`, but those of id `id`,
/// numbered by its place among them.
spec fn renumbered_prefix(
    tasks: Seq<TaskView>,
    q: Seq<TaskView>,
    k: int,
    id: u128,
    index: int,
) -> Seq<TaskView> {
    let others = without_id(q.take(k), id);
    Seq::new(
        tasks.len(),
        |i: int|
            if last_rank(others, tasks[i].id) >= 0 {
                tasks[i].with_position(
                    Some(renumbered(last_rank(others, tasks[i].id), index) as i32),
                )
            } else {
                tasks[i]
            },
    )
}

/// A queue holds no more tasks than there are records.
pub proof fn lemma_queue_len_bounded(tasks: Seq<TaskView>, project: u128)
    ensures
        queue_of(tasks, project).len() <= tasks.len(),
    decreases tasks.len(),
{
    if tasks.len() > 0 {
        lemma_queue_len_bounded(tasks.drop_last(), project);
        if tasks.last().queued_in(project) {
            let _ = lemma_insert_somewhere(queue_of(tasks.drop_last(), project), tasks.last());
        }
    }
}

/// Leaving tasks out makes a list no longer, and the id left out is gone.
pub proof fn lemma_without_id(q: Seq<TaskView>, id: u128)
    ensures
        without_id(q, id).len() <= q.len(),
        last_rank(without_id(q, id), id) == -1,
        forall|k: int| 0 <= k < without_id(q, id).len() ==> (#[trigger] without_id(q, id)[k]).id != id,
    decreases q.len(),
{
    if q.len() > 0 {
        lemma_without_id(q.drop_last(), id);
        lemma_last_rank_absent(without_id(q, id), id);
    }
}

/// An id that no task of `q` has ranks -1, and the other way round.
pub proof fn lemma_last_rank_absent(q: Seq<TaskView>, id: u128)
    ensures
        last_rank(q, id) == -1 <==> (forall|k: int| 0 <= k < q.len() ==> (#[trigger] q[k]).id != id),
        -1 <= last_rank(q, id) < q.len(),
        last_rank(q, id) >= 0 ==> q[last_rank(q, id)].id == id,
    decreases q.len(),
{
    if q.len() > 0 {
        lemma_last_rank_absent(q.drop_last(), id);
        if q.last().id != id {
            assert forall|k: int| 0 <= k < q.len() - 1 implies (#[trigger] q[k]).id
                == q.drop_last()[k].id by {}
        }
    }
}

/// Where `q` has no key above that of `t` from `j` on, and none above it just before `j`,
/// ordered insertion puts `t` at `j`.
pub proof fn lemma_insert_at(q: Seq<TaskView>, t: TaskView, j: int)
    requires
        0 <= j <= q.len(),
        forall|k: int| j <= k < q.len() ==> (#[trigger] q[k]).key() > t.key(),
        j > 0 ==> q[j - 1].key() <= t.key(),
    ensures
        insert_by_position(q, t) == q.insert(j, t),
    decreases q.len(),
{
    if q.len() == 0 {
        assert(q.insert(j, t) =~= seq![t]);
    } else if j == q.len() {
        assert(q.insert(j, t) =~= q.push(t));
    } else {
        assert(q.last().key() > t.key());
        lemma_insert_at(q.drop_last(), t, j);
        assert(q.drop_last().insert(j, t).push(q.last()) =~= q.insert(j, t));
    }
}

/// Ordered insertion puts the task somewhere and moves nothing else.
pub proof fn lemma_insert_somewhere(q: Seq<TaskView>, t: TaskView) -> (j: int)
    ensures
        0 <= j <= q.len(),
        insert_by_position(q, t) == q.insert(j, t),
        forall|k: int| j <= k < q.len() ==> (#[trigger] q[k]).key() > t.key(),
        j > 0 ==> q[j - 1].key() <= t.key(),
    decreases q.len(),
{
    if q.len() == 0 {
        assert(q.insert(0, t) =~= seq![t]);
        0
    } else if q.last().key() <= t.key() {
        assert(q.insert(q.len() as int, t) =~= q.push(t));
        q.len() as int
    } else {
        let j = lemma_insert_somewhere(q.drop_last(), t);
        assert(q.drop_last().insert(j, t).push(q.last()) =~= q.insert(j, t));
        assert forall|k: int| j <= k < q.len() implies (#[trigger] q[k]).key() > t.key() by {
            if k < q.len() - 1 {
                assert(q.drop_last()[k] == q[k]);
            }
        }
        j
    }
}

/// What the first record of an id says of the others.
pub proof fn lemma_find_first(tasks: Seq<TaskView>, id: u128)
    ensures
        match first_with_id(tasks, id) {
            Some(t) => t.id == id && tasks.contains(t),
            None => !has_id(tasks, id),
        },
    decreases tasks.len(),
{
    if tasks.len() > 0 {
        if tasks[0].id == id {
            assert(tasks[0] == tasks[0]);
        } else {
            lemma_find_first(tasks.skip(1), id);
            match first_with_id(tasks.skip(1), id) {
                Some(t) => {
                    let i = choose|i: int| 0 <= i < tasks.skip(1).len() && tasks.skip(1)[i] == t;
                    assert(tasks[i + 1] == t);
                },
                None => {
                    assert forall|i: int| 0 <= i < tasks.len() implies (#[trigger] tasks[i].id)
                        != id by {
                        if i > 0 {
                            assert(tasks.skip(1)[i - 1].id == tasks[i].id);
                        }
                    }
                },
            }
        }
    }
}

/// The task records of one store, with the queue operations on them.
pub struct SequentialQueueService {
    tasks: Vec<Task>,
}

impl View for SequentialQueueService {
    type V = Seq<TaskView>;

    closed spec fn view(&self) -> Seq<TaskView> {
        self.tasks.deep_view()
    }
}

impl SequentialQueueService {
    /// A service over the given records.
    pub fn new(tasks: Vec<Task>) -> (r: Self)
        ensures
            r@ == tasks.deep_view(),
    {
        SequentialQueueService { tasks }
    }

    /// The records as they now stand.
    pub fn tasks(&self) -> (r: &Vec<Task>)
        ensures
            r.deep_view() == self@,
    {
        &self.tasks
    }

    /// The first record with the id `task_id`.
    pub fn find_by_id(&self, task_id: u128) -> (r: Option<Task>)
        ensures
            r.deep_view() == first_with_id(self@, task_id),
    {
        let mut i: usize = 0;
        assert(self@.skip(0) =~= self@);
        while i < self.tasks.len()
            invariant
                i <= self.tasks.len(),
                first_with_id(self@, task_id) == first_with_id(self@.skip(i as int), task_id),
            decreases self.tasks.len() - i,
        {
            assert(self@.skip(i as int)[0] == self@[i as int]);
            if self.tasks[i].id == task_id {
                let found = self.tasks[i].clone();
                assert(self@[i as int] == found@);
                assert(Some(found).deep_view() == Some(found@));
                return Some(found);
            }
            assert(self@.skip(i as int).skip(1) =~= self@.skip(i + 1));
            i += 1;
        }
        None
    }

    /// All sequential tasks of the project, by ascending position; tasks of equal position
    /// come in the order of the records.
    pub fn get_queue(&self, project_id: u128) -> (r: Vec<Task>)
        ensures
            r.deep_view() == queue_of(self@, project_id),
            ascending(r.deep_view()),
            forall|k: int|
                0 <= k < r.len() ==> self@.contains(#[trigger] r.deep_view()[k])
                    && r.deep_view()[k].queued_in(project_id),
            forall|i: int|
                0 <= i < self@.len() && (#[trigger] self@[i]).queued_in(project_id)
                    ==> r.deep_view().contains(self@[i]),
    {
        let mut queue: Vec<Task> = Vec::new();
        let mut i: usize = 0;
        assert(self@.take(0) =~= Seq::<TaskView>::empty());
        while i < self.tasks.len()
            invariant
                i <= self.tasks.len(),
                queue.deep_view() == queue_of(self@.take(i as int), project_id),
            decreases self.tasks.len() - i,
        {
            let ghost before = queue.deep_view();
            assert(self@.take(i + 1).drop_last() =~= self@.take(i as int));
            assert(self@.take(i + 1).last() == self@[i as int]);
            if self.tasks[i].is_queued_in(project_id) {
                let task = self.tasks[i].clone();
                let key = task.position_key();
                let mut j: usize = queue.len();
                while j > 0 && queue[j - 1].position_key() > key
                    invariant
                        j <= queue.len(),
                        queue.deep_view() == before,
                        key == task@.key(),
                        forall|k: int|
                            j <= k < queue.len() ==> (#[trigger] before[k]).key() > task@.key(),
                    decreases j,
                {
                    j -= 1;
                }
                proof {
                    lemma_insert_at(before, task@, j as int);
                }
                queue.insert(j, task);
                assert(queue.deep_view() =~= before.insert(j as int, task@));
            }
            i += 1;
        }
        assert(self@.take(i as int) =~= self@);
        proof {
            lemma_queue_ascending(self@, project_id);
            lemma_queue_members(self@, project_id);
        }
        queue
    }

    /// The first task of the project's queue that is ready to start.
    pub fn get_next_pending(&self, project_id: u128) -> (r: Option<Task>)
        ensures
            is_first_todo(queue_of(self@, project_id), r.deep_view()),
    {
        let queue = self.get_queue(project_id);
        let ghost q = queue.deep_view();
        let mut i: usize = 0;
        while i < queue.len()
            invariant
                i <= queue.len(),
                q == queue.deep_view(),
                q == queue_of(self@, project_id),
                forall|j: int| 0 <= j < i ==> (#[trigger] q[j]).status != TaskStatus::Todo,
            decreases queue.len() - i,
        {
            if queue[i].status == TaskStatus::Todo {
                let next = queue[i].clone();
                assert(q[i as int] == next@);
                assert(Some(next).deep_view() == Some(next@));
                return Some(next);
            }
            i += 1;
        }
        None
    }

    /// Tells whether a sequential task of the project is in progress.
    pub fn has_running_task(&self, project_id: u128) -> (r: bool)
        ensures
            r == has_running(self@, project_id),
    {
        let mut i: usize = 0;
        while i < self.tasks.len()
            invariant
                i <= self.tasks.len(),
                forall|j: int|
                    0 <= j < i ==> !((#[trigger] self@[j]).queued_in(project_id) && self@[j].status
                        == TaskStatus::InProgress),
            decreases self.tasks.len() - i,
        {
            if self.tasks[i].is_queued_in(project_id) && self.tasks[i].status
                == TaskStatus::InProgress {
                assert(self@[i as int].queued_in(project_id));
                return true;
            }
            i += 1;
        }
        false
    }

    /// Gives every record of id `task_id` the position `position`.
    fn write_position(&mut self, task_id: u128, position: Option<i32>)
        ensures
            final(self)@ == set_position(old(self)@, task_id, position),
    {
        let mut i: usize = 0;
        while i < self.tasks.len()
            invariant
                i <= self.tasks.len(),
                self@.len() == old(self)@.len(),
                forall|j: int|
                    0 <= j < i ==> (#[trigger] self@[j]) == set_position(
                        old(self)@,
                        task_id,
                        position,
                    )[j],
                forall|j: int| i <= j < self@.len() ==> (#[trigger] self@[j]) == old(self)@[j],
            decreases self.tasks.len() - i,
        {
            if self.tasks[i].id == task_id {
                let ghost prev = self@;
                let mut task = self.tasks[i].clone();
                task.queue_position = position;
                self.tasks.set(i, task);
                assert(self@ =~= prev.update(i as int, prev[i as int].with_position(position)));
            }
            i += 1;
        }
        assert(self@ =~= set_position(old(self)@, task_id, position));
    }

    /// Gives the task the status `status` and touches nothing else.
    pub fn update_status(&mut self, task_id: u128, status: TaskStatus)
        ensures
            final(self)@ == set_status(old(self)@, task_id, status),
    {
        let mut i: usize = 0;
        while i < self.tasks.len()
            invariant
                i <= self.tasks.len(),
                self@.len() == old(self)@.len(),
                forall|j: int|
                    0 <= j < i ==> (#[trigger] self@[j]) == set_status(
                        old(self)@,
                        task_id,
                        status,
                    )[j],
                forall|j: int| i <= j < self@.len() ==> (#[trigger] self@[j]) == old(self)@[j],
            decreases self.tasks.len() - i,
        {
            if self.tasks[i].id == task_id {
                let ghost prev = self@;
                let mut task = self.tasks[i].clone();
                task.status = status;
                self.tasks.set(i, task);
                assert(self@ =~= prev.update(i as int, TaskView { status, ..prev[i as int] }));
            }
            i += 1;
        }
        assert(self@ =~= set_status(old(self)@, task_id, status));
    }

    /// Gives the task the execution mode `mode` and touches nothing else.
    pub fn set_execution_mode(&mut self, task_id: u128, mode: ExecutionMode)
        ensures
            final(self)@ == set_mode(old(self)@, task_id, mode),
    {
        let mut i: usize = 0;
        while i < self.tasks.len()
            invariant
                i <= self.tasks.len(),
                self@.len() == old(self)@.len(),
                forall|j: int|
                    0 <= j < i ==> (#[trigger] self@[j]) == set_mode(old(self)@, task_id, mode)[j],
                forall|j: int| i <= j < self@.len() ==> (#[trigger] self@[j]) == old(self)@[j],
            decreases self.tasks.len() - i,
        {
            if self.tasks[i].id == task_id {
                let ghost prev = self@;
                let mut task = self.tasks[i].clone();
                task.execution_mode = mode;
                self.tasks.set(i, task);
                assert(self@ =~= prev.update(
                    i as int,
                    TaskView { execution_mode: mode, ..prev[i as int] },
                ));
            }
            i += 1;
        }
        assert(self@ =~= set_mode(old(self)@, task_id, mode));
    }

    /// The largest position in the project's queue, 0 where there is none.
    pub fn max_queue_position(&self, project_id: u128) -> (r: i32)
        ensures
            r == max_position(self@, project_id),
    {
        let mut max: i32 = 0;
        let mut i: usize = 0;
        assert(self@.take(0) =~= Seq::<TaskView>::empty());
        while i < self.tasks.len()
            invariant
                i <= self.tasks.len(),
                max == max_position(self@.take(i as int), project_id),
            decreases self.tasks.len() - i,
        {
            assert(self@.take(i + 1).drop_last() =~= self@.take(i as int));
            assert(self@.take(i + 1).last() == self@[i as int]);
            if self.tasks[i].is_queued_in(project_id) && self.tasks[i].position_key() > max {
                max = self.tasks[i].position_key();
            }
            i += 1;
        }
        assert(self@.take(i as int) =~= self@);
        max
    }

    /// Appends the task to the queue of `project_id`: its position becomes one past the largest
    /// position of that queue. The execution mode is left to the caller.
    pub fn enqueue(&mut self, task_id: u128, project_id: u128)
        requires
            max_position(old(self)@, project_id) < i32::MAX,
        ensures
            final(self)@ == set_position(
                old(self)@,
                task_id,
                Some((max_position(old(self)@, project_id) + 1) as i32),
            ),
    {
        let max = self.max_queue_position(project_id);
        self.write_position(task_id, Some(max + 1));
    }

    /// Takes the task's position away. The execution mode is left to the caller.
    pub fn dequeue(&mut self, task_id: u128)
        ensures
            final(self)@ == set_position(old(self)@, task_id, None),
    {
        self.write_position(task_id, None);
    }

    /// Moves the task to `new_position` in the queue of `project_id` and renumbers the rest of
    /// that queue from 1, leaving free the number behind the insertion index.
    ///
    /// Refuses, changing nothing, where no record has the id or the task is not sequential;
    /// does nothing where the task already has the position.
    pub fn reorder(&mut self, project_id: u128, task_id: u128, new_position: i32) -> (r: Result<
        (),
        SequentialQueueError,
    >)
        requires
            old(self)@.len() + 1 < i32::MAX,
        ensures
            (r, final(self)@) == reorder_result(old(self)@, project_id, task_id, new_position),
    {
        let task = match self.find_by_id(task_id) {
            None => {
                return Err(SequentialQueueError::TaskNotFound(task_id));
            },
            Some(t) => t,
        };
        if task.execution_mode != ExecutionMode::Sequential {
            return Err(SequentialQueueError::NotSequentialMode);
        }
        if task.position_key() == new_position {
            return Ok(());
        }
        let queue = self.get_queue(project_id);
        let ghost q = queue.deep_view();
        let ghost start = self@;
        proof {
            lemma_queue_len_bounded(start, project_id);
            lemma_without_id(q, task_id);
        }
        let mut others_len: usize = 0;
        let mut k: usize = 0;
        assert(q.take(0) =~= Seq::<TaskView>::empty());
        while k < queue.len()
            invariant
                k <= queue.len(),
                q == queue.deep_view(),
                others_len == without_id(q.take(k as int), task_id).len(),
                others_len <= k,
            decreases queue.len() - k,
        {
            assert(q.take(k + 1).drop_last() =~= q.take(k as int));
            assert(q.take(k + 1).last() == q[k as int]);
            if queue[k].id != task_id {
                others_len += 1;
            }
            k += 1;
        }
        assert(q.take(k as int) =~= q);
        let index: usize = if new_position <= 1 {
            0
        } else if (new_position - 1) as usize > others_len {
            others_len
        } else {
            (new_position - 1) as usize
        };
        assert(index == insertion_index(new_position, others_len as int));
        let mut idx: usize = 0;
        k = 0;
        assert(self@ =~= renumbered_prefix(start, q, 0, task_id, index as int));
        while k < queue.len()
            invariant
                k <= queue.len(),
                q == queue.deep_view(),
                q.len() <= start.len(),
                start.len() + 1 < i32::MAX,
                idx == without_id(q.take(k as int), task_id).len(),
                idx <= k,
                self@ == renumbered_prefix(start, q, k as int, task_id, index as int),
            decreases queue.len() - k,
        {
            let ghost before = without_id(q.take(k as int), task_id);
            assert(q.take(k + 1).drop_last() =~= q.take(k as int));
            assert(q.take(k + 1).last() == q[k as int]);
            if queue[k].id != task_id {
                let position: i32 = if idx < index {
                    idx as i32 + 1
                } else {
                    idx as i32 + 2
                };
                let ghost moved = q[k as int];
                assert(without_id(q.take(k + 1), task_id) == before.push(moved));
                self.write_position(queue[k].id, Some(position));
                assert(self@ =~= renumbered_prefix(start, q, k + 1, task_id, index as int)) by {
                    assert forall|i: int| 0 <= i < start.len() implies (#[trigger] self@[i])
                        == renumbered_prefix(start, q, k + 1, task_id, index as int)[i] by {
                        assert(before.push(moved).drop_last() =~= before);
                    }
                }
                idx += 1;
            }
            k += 1;
        }
        assert(q.take(k as int) =~= q);
        self.write_position(task_id, Some(new_position));
        assert(self@ =~= reordered(start, project_id, task_id, new_position));
        Ok(())
    }

    /// After `completed_task` has finished, picks what its project's queue runs next: the first
    /// task of the queue that is ready to start. Picks nothing where the task was not
    /// sequential, where its status has not given up the slot, or where a sequential task of
    /// the project still runs. Starting the pick is the caller's business.
    pub fn process_queue_after_completion(&self, completed_task: &Task) -> (r: Option<Task>)
        ensures
            !may_advance(self@, completed_task@) ==> r is None,
            may_advance(self@, completed_task@) ==> is_first_todo(
                queue_of(self@, completed_task.project_id),
                r.deep_view(),
            ),
            r matches Some(next) ==> next@ != completed_task@,
    {
        if completed_task.execution_mode != ExecutionMode::Sequential {
            return None;
        }
        if !completed_task.status.is_terminal_for_scheduling() {
            return None;
        }
        if self.has_running_task(completed_task.project_id) {
            return None;
        }
        self.get_next_pending(completed_task.project_id)
    }

    /// Gives the task the position `new_position` and touches no other task.
    pub fn update_position(&mut self, task_id: u128, new_position: i32)
        ensures
            final(self)@ == set_position(old(self)@, task_id, Some(new_position)),
    {
        self.write_position(task_id, Some(new_position));
    }
}

} // verus!

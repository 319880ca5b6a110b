//! What holds of the sequential queue whatever the records are: its order, its members, and
//! that moving a task inside a dense queue leaves the queue dense.

use crate::sequential_queue::{
    ascending, dense_queue, distinct_ids, first_with_id, has_id, insertion_index, is_first_todo,
    last_rank, lemma_find_first, lemma_insert_somewhere, lemma_last_rank_absent,
    lemma_queue_len_bounded, lemma_without_id, max_position, may_advance, queue_of, renumbered,
    reorder_result, reordered, set_mode, set_position, set_status, single_runner, without_id,
};
use crate::task::{ExecutionMode, TaskStatus, TaskView};
use vstd::prelude::*;

verus! {

/// A queue lists its tasks by ascending position.
pub proof fn lemma_queue_ascending(tasks: Seq<TaskView>, project: u128)
    ensures
        ascending(queue_of(tasks, project)),
    decreases tasks.len(),
{
    if tasks.len() > 0 {
        lemma_queue_ascending(tasks.drop_last(), project);
        if tasks.last().queued_in(project) {
            let rest = queue_of(tasks.drop_last(), project);
            let t = tasks.last();
            let j = lemma_insert_somewhere(rest, t);
            let q = rest.insert(j, t);
            assert forall|a: int, b: int| 0 <= a < b < q.len() implies q[a].key() <= q[b].key() by {
                if a < j && b == j {
                    assert(rest[a].key() <= rest[j - 1].key());
                } else if a < j && b > j {
                    assert(rest[a].key() <= rest[b - 1].key());
                } else if a == j {
                    assert(rest[b - 1].key() > t.key());
                } else if a > j {
                    assert(rest[a - 1].key() <= rest[b - 1].key());
                }
            }
        }
    }
}

/// A queue holds exactly the sequential tasks of its project: each of its entries is such a
/// record, and each such record is one of its entries.
pub proof fn lemma_queue_members(tasks: Seq<TaskView>, project: u128)
    ensures
        forall|k: int|
            0 <= k < queue_of(tasks, project).len() ==> tasks.contains(
                #[trigger] queue_of(tasks, project)[k],
            ) && queue_of(tasks, project)[k].queued_in(project),
        forall|i: int|
            0 <= i < tasks.len() && (#[trigger] tasks[i]).queued_in(project) ==> queue_of(
                tasks,
                project,
            ).contains(tasks[i]),
    decreases tasks.len(),
{
    let q = queue_of(tasks, project);
    if tasks.len() > 0 {
        let front = tasks.drop_last();
        let rest = queue_of(front, project);
        let t = tasks.last();
        lemma_queue_members(front, project);
        assert forall|x: TaskView| front.contains(x) implies tasks.contains(x) by {
            let i = choose|i: int| 0 <= i < front.len() && front[i] == x;
            assert(tasks[i] == x);
        }
        if t.queued_in(project) {
            let j = lemma_insert_somewhere(rest, t);
            assert(q == rest.insert(j, t));
            assert forall|k: int| 0 <= k < q.len() implies tasks.contains(#[trigger] q[k])
                && q[k].queued_in(project) by {
                if k < j {
                    assert(q[k] == rest[k]);
                } else if k == j {
                    assert(tasks[tasks.len() - 1] == t);
                } else {
                    assert(q[k] == rest[k - 1]);
                }
            }
            assert forall|i: int|
                0 <= i < tasks.len() && (#[trigger] tasks[i]).queued_in(project) implies q.contains(
                tasks[i],
            ) by {
                if i < tasks.len() - 1 {
                    assert(front[i] == tasks[i]);
                    let k = choose|k: int| 0 <= k < rest.len() && rest[k] == tasks[i];
                    if k < j {
                        assert(q[k] == tasks[i]);
                    } else {
                        assert(q[k + 1] == tasks[i]);
                    }
                } else {
                    assert(q[j] == tasks[i]);
                }
            }
        } else {
            assert forall|i: int|
                0 <= i < tasks.len() && (#[trigger] tasks[i]).queued_in(project) implies q.contains(
                tasks[i],
            ) by {
                assert(front[i] == tasks[i]);
            }
        }
    }
}

/// Where no two records share an id, no two entries of a queue do.
pub proof fn lemma_queue_distinct_ids(tasks: Seq<TaskView>, project: u128)
    requires
        distinct_ids(tasks),
    ensures
        distinct_ids(queue_of(tasks, project)),
    decreases tasks.len(),
{
    if tasks.len() > 0 {
        let front = tasks.drop_last();
        let rest = queue_of(front, project);
        let t = tasks.last();
        assert(distinct_ids(front)) by {
            assert forall|i: int, j: int| 0 <= i < j < front.len() implies front[i].id
                != front[j].id by {
                assert(front[i] == tasks[i] && front[j] == tasks[j]);
            }
        }
        lemma_queue_distinct_ids(front, project);
        if t.queued_in(project) {
            lemma_queue_members(front, project);
            let j = lemma_insert_somewhere(rest, t);
            let q = rest.insert(j, t);
            assert forall|k: int| 0 <= k < rest.len() implies (#[trigger] rest[k]).id != t.id by {
                assert(front.contains(rest[k]));
                let i = choose|i: int| 0 <= i < front.len() && front[i] == rest[k];
                assert(tasks[i].id != tasks[tasks.len() - 1].id);
            }
            assert forall|a: int, b: int| 0 <= a < b < q.len() implies q[a].id != q[b].id by {
                let ra = if a < j { a } else { a - 1 };
                let rb = if b < j { b } else { b - 1 };
                if a != j && b != j {
                    assert(rest[ra].id != rest[rb].id);
                } else if a == j {
                    assert(rest[rb].id != t.id);
                } else {
                    assert(rest[ra].id != t.id);
                }
            }
        }
    }
}

/// Two lists of records that agree, place by place, on who is queued have queues of one
/// length.
pub proof fn lemma_queue_len_by_membership(a: Seq<TaskView>, b: Seq<TaskView>, project: u128)
    requires
        a.len() == b.len(),
        forall|i: int| 0 <= i < a.len() ==> a[i].queued_in(project) == b[i].queued_in(project),
    ensures
        queue_of(a, project).len() == queue_of(b, project).len(),
    decreases a.len(),
{
    if a.len() > 0 {
        assert forall|i: int| 0 <= i < a.len() - 1 implies a.drop_last()[i].queued_in(project)
            == b.drop_last()[i].queued_in(project) by {
            assert(a.drop_last()[i] == a[i] && b.drop_last()[i] == b[i]);
        }
        lemma_queue_len_by_membership(a.drop_last(), b.drop_last(), project);
        assert(a.last() == a[a.len() - 1] && b.last() == b[b.len() - 1]);
        if a.last().queued_in(project) {
            let _ = lemma_insert_somewhere(queue_of(a.drop_last(), project), a.last());
            let _ = lemma_insert_somewhere(queue_of(b.drop_last(), project), b.last());
        }
    }
}

/// Leaving out an id keeps every task of another id, and drops one entry where exactly one
/// task has the id.
pub proof fn lemma_without_id_keeps(q: Seq<TaskView>, id: u128)
    ensures
        forall|k: int|
            0 <= k < q.len() && (#[trigger] q[k]).id != id ==> without_id(q, id).contains(q[k]),
        !has_id(q, id) ==> without_id(q, id) == q,
        distinct_ids(q) && has_id(q, id) ==> without_id(q, id).len() == q.len() - 1,
        forall|k: int|
            0 <= k < without_id(q, id).len() ==> q.contains(#[trigger] without_id(q, id)[k]),
    decreases q.len(),
{
    let w = without_id(q, id);
    if q.len() > 0 {
        let front = q.drop_last();
        let wf = without_id(front, id);
        lemma_without_id_keeps(front, id);
        assert forall|x: TaskView| front.contains(x) implies q.contains(x) by {
            let i = choose|i: int| 0 <= i < front.len() && front[i] == x;
            assert(q[i] == x);
        }
        assert forall|k: int| 0 <= k < q.len() && (#[trigger] q[k]).id != id implies w.contains(
            q[k],
        ) by {
            if k < q.len() - 1 {
                assert(front[k] == q[k]);
                let m = choose|m: int| 0 <= m < wf.len() && wf[m] == q[k];
                assert(w[m] == q[k]);
            } else {
                assert(w[w.len() - 1] == q[k]);
            }
        }
        assert forall|k: int| 0 <= k < w.len() implies q.contains(#[trigger] w[k]) by {
            if k < wf.len() {
                assert(w[k] == wf[k]);
                assert(front.contains(wf[k]));
            } else {
                assert(w[k] == q[q.len() - 1]);
            }
        }
        if !has_id(q, id) {
            assert(!has_id(front, id)) by {
                if has_id(front, id) {
                    let i = choose|i: int| 0 <= i < front.len() && #[trigger] front[i].id == id;
                    assert(q[i].id == id);
                }
            }
            assert(q[q.len() - 1].id != id);
            assert(w =~= q);
        }
        if distinct_ids(q) && has_id(q, id) {
            assert(distinct_ids(front)) by {
                assert forall|i: int, j: int| 0 <= i < j < front.len() implies front[i].id
                    != front[j].id by {
                    assert(front[i] == q[i] && front[j] == q[j]);
                }
            }
            if q.last().id == id {
                assert(!has_id(front, id)) by {
                    if has_id(front, id) {
                        let i = choose|i: int| 0 <= i < front.len() && #[trigger] front[i].id == id;
                        assert(q[i].id != q[q.len() - 1].id);
                    }
                }
            } else {
                let i = choose|i: int| 0 <= i < q.len() && #[trigger] q[i].id == id;
                assert(front[i].id == id);
            }
        }
    }
}

/// Between two places of a list whose keys strictly ascend, the keys differ by at least the
/// distance of the places.
pub proof fn lemma_ascending_gap(q: Seq<TaskView>, a: int, b: int)
    requires
        0 <= a <= b < q.len(),
        forall|i: int, j: int| 0 <= i < j < q.len() ==> q[i].key() < q[j].key(),
    ensures
        q[b].key() - q[a].key() >= b - a,
    decreases b - a,
{
    if a < b {
        lemma_ascending_gap(q, a, b - 1);
    }
}

/// The queued records all have a position from 1 to `n`, and no two of them share one.
pub open spec fn positions_fill(tasks: Seq<TaskView>, project: u128, n: int) -> bool {
    &&& forall|i: int|
        0 <= i < tasks.len() && (#[trigger] tasks[i]).queued_in(project)
            ==> tasks[i].queue_position is Some && 1 <= tasks[i].key() <= n
    &&& forall|i: int, j: int|
        0 <= i < j < tasks.len() && (#[trigger] tasks[i]).queued_in(project) && (
        #[trigger] tasks[j]).queued_in(project) ==> tasks[i].key() != tasks[j].key()
}

/// A queue of `n` tasks whose positions are `n` different numbers from 1 to `n` reads
/// 1, 2, .., `n`.
pub proof fn lemma_dense_by_positions(tasks: Seq<TaskView>, project: u128)
    requires
        distinct_ids(tasks),
        positions_fill(tasks, project, queue_of(tasks, project).len() as int),
    ensures
        dense_queue(tasks, project),
{
    let q = queue_of(tasks, project);
    lemma_queue_members(tasks, project);
    lemma_queue_distinct_ids(tasks, project);
    lemma_queue_ascending(tasks, project);
    assert forall|k: int| 0 <= k < q.len() implies (#[trigger] q[k]).queue_position is Some && 1
        <= q[k].key() <= q.len() by {
        assert(tasks.contains(q[k]));
        let i = choose|i: int| 0 <= i < tasks.len() && tasks[i] == q[k];
        assert(tasks[i].queued_in(project));
    }
    assert forall|a: int, b: int| 0 <= a < b < q.len() implies q[a].key() < q[b].key() by {
        assert(tasks.contains(q[a]) && tasks.contains(q[b]));
        let i = choose|i: int| 0 <= i < tasks.len() && tasks[i] == q[a];
        let j = choose|j: int| 0 <= j < tasks.len() && tasks[j] == q[b];
        assert(q[a].id != q[b].id);
        assert(tasks[i].queued_in(project) && tasks[j].queued_in(project));
        if i < j {
            assert(tasks[i].key() != tasks[j].key());
        } else {
            assert(tasks[j].key() != tasks[i].key());
        }
    }
    assert forall|k: int| 0 <= k < q.len() implies (#[trigger] q[k]).queue_position is Some
        && q[k].key() == k + 1 by {
        lemma_ascending_gap(q, 0, k);
        lemma_ascending_gap(q, k, q.len() - 1);
        assert(1 <= q[0].key());
        assert(q[q.len() - 1].key() <= q.len());
    }
}

/// After a task of a dense queue of `n` tasks was moved to a position from 1 to `n`, the
/// queued records have `n` different positions from 1 to `n`, and the moved task has the one
/// it asked for.
pub proof fn lemma_reordered_positions(
    tasks: Seq<TaskView>,
    project: u128,
    id: u128,
    new_position: i32,
)
    requires
        tasks.len() + 1 < i32::MAX,
        distinct_ids(tasks),
        first_with_id(tasks, id) matches Some(t) && t.queued_in(project),
        1 <= new_position <= queue_of(tasks, project).len(),
    ensures
        positions_fill(
            reordered(tasks, project, id, new_position),
            project,
            queue_of(tasks, project).len() as int,
        ),
        distinct_ids(reordered(tasks, project, id, new_position)),
        reordered(tasks, project, id, new_position).len() == tasks.len(),
        forall|i: int|
            0 <= i < tasks.len() ==> {
                let r = #[trigger] reordered(tasks, project, id, new_position)[i];
                &&& r.queued_in(project) == tasks[i].queued_in(project)
                &&& r.id == tasks[i].id
                &&& r.queued_in(project) ==> (r.key() == new_position <==> r.id == id)
            },
{
    let moved = first_with_id(tasks, id)->0;
    let q = queue_of(tasks, project);
    let n = q.len() as int;
    let after = reordered(tasks, project, id, new_position);
    let others = without_id(q, id);
    let index = insertion_index(new_position, others.len() as int);
    lemma_find_first(tasks, id);
    lemma_queue_members(tasks, project);
    lemma_queue_distinct_ids(tasks, project);
    lemma_queue_len_bounded(tasks, project);
    lemma_without_id_keeps(q, id);
    lemma_without_id(q, id);
    let at = choose|i: int| 0 <= i < tasks.len() && tasks[i] == moved;
    assert(q.contains(tasks[at]));
    let c = choose|k: int| 0 <= k < q.len() && q[k] == moved;
    assert(has_id(q, id)) by {
        assert(q[c].id == id);
    }
    assert(others.len() == n - 1);
    assert(index == new_position - 1);
    assert forall|i: int| 0 <= i < tasks.len() && tasks[i].queued_in(project) && tasks[i].id
        != id implies {
        let r = last_rank(others, tasks[i].id);
        0 <= r < others.len() && others[r].id == tasks[i].id
    } by {
        assert(q.contains(tasks[i]));
        let k = choose|k: int| 0 <= k < q.len() && q[k] == tasks[i];
        assert(others.contains(q[k]));
        let m = choose|m: int| 0 <= m < others.len() && others[m] == tasks[i];
        lemma_last_rank_absent(others, tasks[i].id);
        assert(others[m].id == tasks[i].id);
    }
    assert forall|i: int| 0 <= i < tasks.len() implies {
        let r = #[trigger] after[i];
        &&& r.queued_in(project) == tasks[i].queued_in(project)
        &&& r.id == tasks[i].id
        &&& r.queued_in(project) ==> (r.key() == new_position <==> r.id == id)
        &&& r.queued_in(project) ==> r.queue_position is Some && 1 <= r.key() <= n
        &&& r.queued_in(project) && r.id != id ==> r.key() == renumbered(
            last_rank(others, r.id),
            index,
        )
    } by {
        lemma_last_rank_absent(others, tasks[i].id);
    }
    assert forall|i: int, j: int|
        0 <= i < j < after.len() && (#[trigger] after[i]).queued_in(project) && (
        #[trigger] after[j]).queued_in(project) implies after[i].key() != after[j].key() by {
        assert(tasks[i].id != tasks[j].id);
        if after[i].id != id && after[j].id != id {
            let ri = last_rank(others, after[i].id);
            let rj = last_rank(others, after[j].id);
            assert(others[ri].id != others[rj].id);
        }
    }
    assert forall|i: int, j: int| 0 <= i < j < after.len() implies after[i].id
        != after[j].id by {
        assert(tasks[i].id != tasks[j].id);
    }
}

/// The two lists hold the same tasks in the same places, in or out of the queue of `project`
/// alike; only positions may differ.
pub open spec fn same_tasks(a: Seq<TaskView>, b: Seq<TaskView>, project: u128) -> bool {
    &&& a.len() == b.len()
    &&& forall|i: int|
        0 <= i < a.len() ==> (#[trigger] b[i]).id == a[i].id && b[i].queued_in(project)
            == a[i].queued_in(project)
}

/// Moving a task inside a dense queue leaves the queue dense.
///
/// Let no two records share an id, let the queue of `project` read 1, 2, .., N, and let a task
/// of that queue ask for a position from 1 to N. Then after the move the queue of the project
/// again reads 1, 2, .., N with the same N: ascending from 1, without gap and without
/// duplicate, and the moved task stands at the position it asked for. A chain of such moves
/// therefore never leaves the dense queues.
pub proof fn lemma_reorder_keeps_queue_dense(
    tasks: Seq<TaskView>,
    project: u128,
    id: u128,
    new_position: i32,
)
    requires
        tasks.len() + 1 < i32::MAX,
        distinct_ids(tasks),
        dense_queue(tasks, project),
        first_with_id(tasks, id) matches Some(t) && t.queued_in(project),
        1 <= new_position <= queue_of(tasks, project).len(),
    ensures
        reorder_result(tasks, project, id, new_position).0 is Ok,
        distinct_ids(reorder_result(tasks, project, id, new_position).1),
        dense_queue(reorder_result(tasks, project, id, new_position).1, project),
        queue_of(reorder_result(tasks, project, id, new_position).1, project).len() == queue_of(
            tasks,
            project,
        ).len(),
        queue_of(reorder_result(tasks, project, id, new_position).1, project)[new_position
            - 1].id == id,
        same_tasks(tasks, reorder_result(tasks, project, id, new_position).1, project),
{
    let moved = first_with_id(tasks, id)->0;
    let q = queue_of(tasks, project);
    lemma_find_first(tasks, id);
    if moved.key() == new_position {
        lemma_queue_members(tasks, project);
        lemma_queue_distinct_ids(tasks, project);
        let at = choose|i: int| 0 <= i < tasks.len() && tasks[i] == moved;
        assert(q.contains(tasks[at]));
        let c = choose|k: int| 0 <= k < q.len() && q[k] == moved;
        assert(q[c].key() == c + 1);
    } else {
        let after = reordered(tasks, project, id, new_position);
        let q2 = queue_of(after, project);
        lemma_reordered_positions(tasks, project, id, new_position);
        lemma_queue_len_by_membership(tasks, after, project);
        lemma_dense_by_positions(after, project);
        lemma_queue_members(after, project);
        let target = q2[new_position - 1];
        assert(after.contains(target));
        let it = choose|i: int| 0 <= i < after.len() && after[i] == target;
        assert(after[it].queued_in(project));
    }
}

/// The records after the moves `moves`, one after the other: each names a task and the
/// position it asks for in the queue of `project`.
pub open spec fn after_moves(tasks: Seq<TaskView>, project: u128, moves: Seq<(u128, i32)>) -> Seq<
    TaskView,
>
    decreases moves.len(),
{
    if moves.len() == 0 {
        tasks
    } else {
        reorder_result(
            after_moves(tasks, project, moves.drop_last()),
            project,
            moves.last().0,
            moves.last().1,
        ).1
    }
}

/// Where two lists hold the same tasks in the same places, a task found in the queue of
/// `project` by its id in the one is found there in the other.
pub proof fn lemma_found_in_both(a: Seq<TaskView>, b: Seq<TaskView>, project: u128, id: u128)
    requires
        same_tasks(a, b, project),
        first_with_id(a, id) matches Some(t) && t.queued_in(project),
    ensures
        first_with_id(b, id) matches Some(t) && t.queued_in(project),
    decreases a.len(),
{
    if a.len() > 0 {
        assert(b[0].id == a[0].id);
        if a[0].id != id {
            assert forall|i: int| 0 <= i < a.skip(1).len() implies (#[trigger] b.skip(1)[i]).id
                == a.skip(1)[i].id && b.skip(1)[i].queued_in(project) == a.skip(1)[i].queued_in(
                project,
            ) by {
                assert(b[i + 1].id == a[i + 1].id);
            }
            lemma_found_in_both(a.skip(1), b.skip(1), project, id);
        }
    }
}

/// Any chain of moves inside a dense queue leaves the queue dense.
///
/// Let no two records share an id, let the queue of `project` read 1, 2, .., N, and let every
/// move of the chain name a task of that queue and a position from 1 to N. Then after all the
/// moves the queue of the project still holds the same N tasks and reads 1, 2, .., N.
pub proof fn lemma_reorders_keep_queue_dense(
    tasks: Seq<TaskView>,
    project: u128,
    moves: Seq<(u128, i32)>,
)
    requires
        tasks.len() + 1 < i32::MAX,
        distinct_ids(tasks),
        dense_queue(tasks, project),
        forall|k: int|
            0 <= k < moves.len() ==> (first_with_id(tasks, (#[trigger] moves[k]).0) matches Some(
                t,
            ) && t.queued_in(project)) && 1 <= moves[k].1 <= queue_of(tasks, project).len(),
    ensures
        distinct_ids(after_moves(tasks, project, moves)),
        dense_queue(after_moves(tasks, project, moves), project),
        queue_of(after_moves(tasks, project, moves), project).len() == queue_of(
            tasks,
            project,
        ).len(),
        same_tasks(tasks, after_moves(tasks, project, moves), project),
    decreases moves.len(),
{
    if moves.len() > 0 {
        let front = moves.drop_last();
        assert forall|k: int| 0 <= k < front.len() implies (first_with_id(
            tasks,
            (#[trigger] front[k]).0,
        ) matches Some(t) && t.queued_in(project)) && 1 <= front[k].1 <= queue_of(
            tasks,
            project,
        ).len() by {
            assert(front[k] == moves[k]);
        }
        lemma_reorders_keep_queue_dense(tasks, project, front);
        let mid = after_moves(tasks, project, front);
        let last = moves[moves.len() - 1];
        lemma_found_in_both(tasks, mid, project, last.0);
        lemma_reorder_keeps_queue_dense(mid, project, last.0, last.1);
    }
}

/// The largest position of a queue is the position of one of its tasks, or 0, and no task of
/// the queue has a larger one.
pub proof fn lemma_max_position(tasks: Seq<TaskView>, project: u128)
    ensures
        max_position(tasks, project) >= 0,
        forall|i: int|
            0 <= i < tasks.len() && (#[trigger] tasks[i]).queued_in(project) ==> tasks[i].key()
                <= max_position(tasks, project),
        max_position(tasks, project) > 0 ==> exists|i: int|
            0 <= i < tasks.len() && (#[trigger] tasks[i]).queued_in(project) && tasks[i].key()
                == max_position(tasks, project),
    decreases tasks.len(),
{
    if tasks.len() > 0 {
        let front = tasks.drop_last();
        lemma_max_position(front, project);
        assert forall|i: int|
            0 <= i < tasks.len() && (#[trigger] tasks[i]).queued_in(project) implies tasks[i].key()
            <= max_position(tasks, project) by {
            if i < tasks.len() - 1 {
                assert(front[i] == tasks[i]);
            }
        }
        if max_position(tasks, project) > 0 {
            if max_position(tasks, project) == max_position(front, project) {
                let i = choose|i: int|
                    0 <= i < front.len() && (#[trigger] front[i]).queued_in(project)
                        && front[i].key() == max_position(front, project);
                assert(tasks[i] == front[i]);
            } else {
                assert(tasks[tasks.len() - 1].queued_in(project));
            }
        }
    }
}

/// The tasks of a dense queue of `n` tasks have `n` different positions from 1 to `n`, and
/// `n` is the largest.
pub proof fn lemma_positions_of_dense(tasks: Seq<TaskView>, project: u128)
    requires
        distinct_ids(tasks),
        dense_queue(tasks, project),
    ensures
        positions_fill(tasks, project, queue_of(tasks, project).len() as int),
        max_position(tasks, project) == queue_of(tasks, project).len(),
{
    let q = queue_of(tasks, project);
    lemma_queue_members(tasks, project);
    lemma_queue_distinct_ids(tasks, project);
    lemma_max_position(tasks, project);
    assert forall|i: int|
        0 <= i < tasks.len() && (#[trigger] tasks[i]).queued_in(project) implies tasks[i].queue_position is Some
        && 1 <= tasks[i].key() <= q.len() by {
        assert(q.contains(tasks[i]));
        let k = choose|k: int| 0 <= k < q.len() && q[k] == tasks[i];
        assert(q[k].key() == k + 1);
    }
    assert forall|i: int, j: int|
        0 <= i < j < tasks.len() && (#[trigger] tasks[i]).queued_in(project) && (
        #[trigger] tasks[j]).queued_in(project) implies tasks[i].key() != tasks[j].key() by {
        assert(q.contains(tasks[i]) && q.contains(tasks[j]));
        let a = choose|k: int| 0 <= k < q.len() && q[k] == tasks[i];
        let b = choose|k: int| 0 <= k < q.len() && q[k] == tasks[j];
        assert(tasks[i].id != tasks[j].id);
        assert(q[a].key() == a + 1 && q[b].key() == b + 1);
    }
    if q.len() > 0 {
        let top = q[q.len() - 1];
        assert(top.key() == q.len());
        assert(tasks.contains(top));
        let i = choose|i: int| 0 <= i < tasks.len() && tasks[i] == top;
        assert(tasks[i].queued_in(project));
    }
}

/// Two lists of records that agree on who is queued, but for one place where only the second
/// has a queued task, have queues that differ by one in length.
pub proof fn lemma_queue_len_grows(a: Seq<TaskView>, b: Seq<TaskView>, project: u128, at: int)
    requires
        a.len() == b.len(),
        0 <= at < a.len(),
        !a[at].queued_in(project),
        b[at].queued_in(project),
        forall|i: int|
            0 <= i < a.len() && i != at ==> a[i].queued_in(project) == b[i].queued_in(project),
    ensures
        queue_of(b, project).len() == queue_of(a, project).len() + 1,
    decreases a.len(),
{
    let fa = a.drop_last();
    let fb = b.drop_last();
    assert(a.last() == a[a.len() - 1] && b.last() == b[b.len() - 1]);
    assert forall|i: int| 0 <= i < fa.len() implies fa[i] == a[i] && fb[i] == b[i] by {}
    let _ = lemma_insert_somewhere(queue_of(fb, project), b.last());
    if at == a.len() - 1 {
        lemma_queue_len_by_membership(fa, fb, project);
    } else {
        lemma_queue_len_grows(fa, fb, project, at);
        if a.last().queued_in(project) {
            let _ = lemma_insert_somewhere(queue_of(fa, project), a.last());
        }
    }
}

/// Appending a task to a dense queue leaves the queue dense.
///
/// Let no two records share an id, let the queue of `project` read 1, 2, .., N, and let a
/// parallel task of the project be enqueued and then switched to sequential mode. Then the
/// queue of the project reads 1, 2, .., N + 1, and the task is its last.
pub proof fn lemma_enqueue_keeps_queue_dense(tasks: Seq<TaskView>, project: u128, id: u128)
    requires
        tasks.len() + 1 < i32::MAX,
        distinct_ids(tasks),
        dense_queue(tasks, project),
        first_with_id(tasks, id) matches Some(t) && t.project_id == project && t.execution_mode
            == ExecutionMode::Parallel,
    ensures
        ({
            let appended = (max_position(tasks, project) + 1) as i32;
            let after = set_mode(
                set_position(tasks, id, Some(appended)),
                id,
                ExecutionMode::Sequential,
            );
            &&& appended == queue_of(tasks, project).len() + 1
            &&& distinct_ids(after)
            &&& dense_queue(after, project)
            &&& queue_of(after, project).len() == queue_of(tasks, project).len() + 1
            &&& queue_of(after, project).last().id == id
        }),
{
    let n = queue_of(tasks, project).len() as int;
    let appended = (max_position(tasks, project) + 1) as i32;
    let after = set_mode(set_position(tasks, id, Some(appended)), id, ExecutionMode::Sequential);
    lemma_positions_of_dense(tasks, project);
    lemma_queue_len_bounded(tasks, project);
    lemma_find_first(tasks, id);
    let moved = first_with_id(tasks, id)->0;
    let at = choose|i: int| 0 <= i < tasks.len() && tasks[i] == moved;
    assert forall|i: int| 0 <= i < tasks.len() && i != at implies after[i] == tasks[i] by {
        if i < at {
            assert(tasks[i].id != tasks[at].id);
        } else {
            assert(tasks[at].id != tasks[i].id);
        }
    }
    assert(after[at].queued_in(project) && after[at].key() == n + 1);
    lemma_queue_len_grows(tasks, after, project, at);
    assert(distinct_ids(after)) by {
        assert forall|i: int, j: int| 0 <= i < j < after.len() implies after[i].id
            != after[j].id by {
            assert(tasks[i].id != tasks[j].id);
        }
    }
    assert(positions_fill(after, project, n + 1)) by {
        assert forall|i: int|
            0 <= i < after.len() && (#[trigger] after[i]).queued_in(project) implies after[i].queue_position is Some
            && 1 <= after[i].key() <= n + 1 by {
            if i != at {
                assert(tasks[i].queued_in(project));
            }
        }
        assert forall|i: int, j: int|
            0 <= i < j < after.len() && (#[trigger] after[i]).queued_in(project) && (
            #[trigger] after[j]).queued_in(project) implies after[i].key() != after[j].key() by {
            if i != at && j != at {
                assert(tasks[i].queued_in(project) && tasks[j].queued_in(project));
            } else if i == at {
                assert(tasks[j].queued_in(project));
            } else {
                assert(tasks[i].queued_in(project));
            }
        }
    }
    lemma_dense_by_positions(after, project);
    lemma_queue_members(after, project);
    let q = queue_of(after, project);
    assert(after.contains(q[n]));
    let last = choose|i: int| 0 <= i < after.len() && after[i] == q[n];
    assert(after[last].queued_in(project));
    if last != at {
        assert(tasks[last].queued_in(project));
    }
}

/// The task that the queue runs next is never the task that has just finished.
///
/// Let no two records share an id, and let `completed` be one of the records. Where its
/// completion lets the queue move on and `next` is then picked, `next` is another task.
pub proof fn lemma_next_is_another_task(tasks: Seq<TaskView>, completed: TaskView, next: TaskView)
    requires
        distinct_ids(tasks),
        tasks.contains(completed),
        may_advance(tasks, completed),
        is_first_todo(queue_of(tasks, completed.project_id), Some(next)),
    ensures
        next.id != completed.id,
        next != completed,
{
    let q = queue_of(tasks, completed.project_id);
    lemma_queue_members(tasks, completed.project_id);
    let k = choose|k: int| 0 <= k < q.len() && (#[trigger] q[k]) == next;
    assert(tasks.contains(q[k]));
    let i = choose|i: int| 0 <= i < tasks.len() && tasks[i] == next;
    let j = choose|j: int| 0 <= j < tasks.len() && tasks[j] == completed;
    if i != j {
        if i < j {
            assert(tasks[i].id != tasks[j].id);
        } else {
            assert(tasks[j].id != tasks[i].id);
        }
    }
}

/// Starting the task that the queue picked keeps the project at one running task.
///
/// Let no two records share an id, and let the completion of `completed` let the queue of its
/// project move on and pick `next`. Then no sequential task of the project was in progress,
/// and once `next` is set in progress it is the only one.
pub proof fn lemma_start_keeps_single_runner(
    tasks: Seq<TaskView>,
    completed: TaskView,
    next: TaskView,
)
    requires
        distinct_ids(tasks),
        may_advance(tasks, completed),
        is_first_todo(queue_of(tasks, completed.project_id), Some(next)),
    ensures
        single_runner(tasks, completed.project_id),
        single_runner(
            set_status(tasks, next.id, TaskStatus::InProgress),
            completed.project_id,
        ),
        forall|i: int|
            0 <= i < tasks.len() ==> {
                let started = #[trigger] set_status(tasks, next.id, TaskStatus::InProgress)[i];
                started.queued_in(completed.project_id) && started.status
                    == TaskStatus::InProgress <==> tasks[i].id == next.id
            },
{
    let project = completed.project_id;
    let q = queue_of(tasks, project);
    let started = set_status(tasks, next.id, TaskStatus::InProgress);
    lemma_queue_members(tasks, project);
    let k = choose|k: int| 0 <= k < q.len() && (#[trigger] q[k]) == next;
    assert(tasks.contains(q[k]));
    let at = choose|i: int| 0 <= i < tasks.len() && tasks[i] == next;
    assert forall|i: int| 0 <= i < tasks.len() implies !((#[trigger] tasks[i]).queued_in(project)
        && tasks[i].status == TaskStatus::InProgress) by {}
    assert forall|i: int| 0 <= i < tasks.len() implies ({
        let s = #[trigger] started[i];
        s.queued_in(project) && s.status == TaskStatus::InProgress <==> tasks[i].id == next.id
    }) by {
        if tasks[i].id == next.id {
            if i < at {
                assert(tasks[i].id != tasks[at].id);
            } else if at < i {
                assert(tasks[at].id != tasks[i].id);
            }
        } else {
            assert(started[i] == tasks[i]);
            assert(!(tasks[i].queued_in(project) && tasks[i].status == TaskStatus::InProgress));
        }
    }
    assert forall|i: int, j: int|
        0 <= i < started.len() && 0 <= j < started.len() && (#[trigger] started[i]).queued_in(
            project,
        ) && started[i].status == TaskStatus::InProgress && (#[trigger] started[j]).queued_in(
            project,
        ) && started[j].status == TaskStatus::InProgress implies i == j by {
        assert(tasks[i].id == next.id && tasks[j].id == next.id);
        if i < j {
            assert(tasks[i].id != tasks[j].id);
        } else if j < i {
            assert(tasks[j].id != tasks[i].id);
        }
    }
}

} // verus!

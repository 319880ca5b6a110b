use workspace_orchestrator::sequential_queue::{
    ReorderQueueRequest, SequentialQueueError, SequentialQueueService,
};
use workspace_orchestrator::task::{ExecutionMode, Task, TaskStatus};
use workspace_orchestrator::task_update::{
    change_execution_mode, merged_description, mode_change, status_changes_to, ModeChange,
};

const P: u128 = 100;
const Q: u128 = 200;

fn task(id: u128, project: u128, status: TaskStatus, position: Option<i32>) -> Task {
    Task {
        id,
        project_id: project,
        title: format!("task {}", id),
        status,
        execution_mode: if position.is_some() {
            ExecutionMode::Sequential
        } else {
            ExecutionMode::Parallel
        },
        queue_position: position,
    }
}

fn sequential(id: u128, status: TaskStatus, position: i32) -> Task {
    task(id, P, status, Some(position))
}

fn positions(service: &SequentialQueueService, project: u128) -> Vec<(u128, Option<i32>)> {
    service.get_queue(project).iter().map(|t| (t.id, t.queue_position)).collect()
}

fn three() -> SequentialQueueService {
    SequentialQueueService::new(vec![
        sequential(1, TaskStatus::Todo, 1),
        sequential(2, TaskStatus::Todo, 2),
        sequential(3, TaskStatus::Todo, 3),
    ])
}

#[test]
fn new_task_is_parallel_without_position() {
    let t = Task::new(7, P, "write docs".to_string(), TaskStatus::Todo);
    assert_eq!(t.id, 7);
    assert_eq!(t.project_id, P);
    assert_eq!(t.title, "write docs");
    assert_eq!(t.status, TaskStatus::Todo);
    assert_eq!(t.execution_mode, ExecutionMode::Parallel);
    assert_eq!(t.queue_position, None);
    assert!(!t.is_queued_in(P));
    assert_eq!(t.position_key(), 0);
}

#[test]
fn terminal_statuses_release_the_slot() {
    assert!(TaskStatus::Done.is_terminal_for_scheduling());
    assert!(TaskStatus::Cancelled.is_terminal_for_scheduling());
    assert!(TaskStatus::InReview.is_terminal_for_scheduling());
    assert!(!TaskStatus::Todo.is_terminal_for_scheduling());
    assert!(!TaskStatus::InProgress.is_terminal_for_scheduling());
}

#[test]
fn service_keeps_the_records_it_was_given() {
    let records = vec![sequential(1, TaskStatus::Todo, 1), task(2, Q, TaskStatus::Done, None)];
    let service = SequentialQueueService::new(records.clone());
    assert_eq!(service.tasks(), &records);
}

#[test]
fn queue_lists_sequential_tasks_of_the_project_by_position() {
    let service = SequentialQueueService::new(vec![
        sequential(1, TaskStatus::Todo, 3),
        task(2, P, TaskStatus::Todo, None),
        sequential(3, TaskStatus::Done, 1),
        task(4, Q, TaskStatus::Todo, Some(1)),
        sequential(5, TaskStatus::InProgress, 2),
    ]);
    assert_eq!(positions(&service, P), vec![(3, Some(1)), (5, Some(2)), (1, Some(3))]);
    assert_eq!(positions(&service, Q), vec![(4, Some(1))]);
    assert_eq!(positions(&service, 999), vec![]);
}

#[test]
fn queue_keeps_record_order_among_equal_positions() {
    let mut without_position = sequential(9, TaskStatus::Todo, 0);
    without_position.queue_position = None;
    let service = SequentialQueueService::new(vec![
        sequential(1, TaskStatus::Todo, 2),
        sequential(2, TaskStatus::Todo, 2),
        without_position,
        sequential(3, TaskStatus::Todo, 1),
    ]);
    assert_eq!(
        positions(&service, P),
        vec![(9, None), (3, Some(1)), (1, Some(2)), (2, Some(2))]
    );
}

#[test]
fn find_by_id_returns_the_record_or_none() {
    let service = three();
    assert_eq!(service.find_by_id(2), Some(sequential(2, TaskStatus::Todo, 2)));
    assert_eq!(service.find_by_id(42), None);
}

#[test]
fn next_pending_is_first_todo_in_queue_order() {
    let service = SequentialQueueService::new(vec![
        sequential(1, TaskStatus::Todo, 3),
        sequential(2, TaskStatus::Done, 1),
        sequential(3, TaskStatus::Todo, 2),
    ]);
    assert_eq!(service.get_next_pending(P).map(|t| t.id), Some(3));
}

#[test]
fn next_pending_is_none_without_todo_or_without_queue() {
    let service = SequentialQueueService::new(vec![
        sequential(1, TaskStatus::Done, 1),
        sequential(2, TaskStatus::InReview, 2),
        task(3, P, TaskStatus::Todo, None),
    ]);
    assert_eq!(service.get_next_pending(P), None);
    assert_eq!(service.get_next_pending(Q), None);
}

#[test]
fn has_running_task_sees_only_sequential_tasks_of_the_project() {
    let mut parallel_running = task(1, P, TaskStatus::InProgress, None);
    parallel_running.execution_mode = ExecutionMode::Parallel;
    let service = SequentialQueueService::new(vec![
        parallel_running,
        task(2, Q, TaskStatus::InProgress, Some(1)),
        sequential(3, TaskStatus::Todo, 1),
    ]);
    assert!(!service.has_running_task(P));
    assert!(service.has_running_task(Q));
    let running = SequentialQueueService::new(vec![sequential(4, TaskStatus::InProgress, 1)]);
    assert!(running.has_running_task(P));
}

#[test]
fn enqueue_appends_one_past_the_largest_position() {
    let mut service = SequentialQueueService::new(vec![
        sequential(1, TaskStatus::Todo, 1),
        sequential(2, TaskStatus::Todo, 5),
        task(3, P, TaskStatus::Todo, None),
        task(4, Q, TaskStatus::Todo, Some(9)),
    ]);
    assert_eq!(service.max_queue_position(P), 5);
    service.enqueue(3, P);
    assert_eq!(service.find_by_id(3).unwrap().queue_position, Some(6));
    assert_eq!(service.find_by_id(3).unwrap().execution_mode, ExecutionMode::Parallel);
    assert_eq!(service.find_by_id(1).unwrap().queue_position, Some(1));
    assert_eq!(service.find_by_id(4).unwrap().queue_position, Some(9));
}

#[test]
fn enqueue_into_empty_queue_gives_position_one() {
    let mut service = SequentialQueueService::new(vec![task(1, P, TaskStatus::Todo, None)]);
    assert_eq!(service.max_queue_position(P), 0);
    service.enqueue(1, P);
    assert_eq!(service.find_by_id(1).unwrap().queue_position, Some(1));
}

#[test]
fn enqueue_of_unknown_task_changes_nothing() {
    let mut service = three();
    service.enqueue(42, P);
    assert_eq!(service.tasks(), three().tasks());
}

#[test]
fn dequeue_clears_the_position_and_leaves_the_mode() {
    let mut service = three();
    service.dequeue(2);
    let t = service.find_by_id(2).unwrap();
    assert_eq!(t.queue_position, None);
    assert_eq!(t.execution_mode, ExecutionMode::Sequential);
    assert_eq!(service.find_by_id(1).unwrap().queue_position, Some(1));
    assert_eq!(service.find_by_id(3).unwrap().queue_position, Some(3));
}

#[test]
fn update_position_touches_one_task() {
    let mut service = three();
    service.update_position(2, 7);
    assert_eq!(positions(&service, P), vec![(1, Some(1)), (3, Some(3)), (2, Some(7))]);
}

#[test]
fn reorder_moves_last_task_to_front() {
    let mut service = three();
    let request = ReorderQueueRequest { new_position: 1 };
    assert_eq!(service.reorder(P, 3, request.new_position), Ok(()));
    assert_eq!(positions(&service, P), vec![(3, Some(1)), (1, Some(2)), (2, Some(3))]);
}

#[test]
fn reorder_moves_first_task_to_the_middle_and_the_end() {
    let mut service = three();
    assert_eq!(service.reorder(P, 1, 2), Ok(()));
    assert_eq!(positions(&service, P), vec![(2, Some(1)), (1, Some(2)), (3, Some(3))]);
    assert_eq!(service.reorder(P, 2, 3), Ok(()));
    assert_eq!(positions(&service, P), vec![(1, Some(1)), (3, Some(2)), (2, Some(3))]);
}

#[test]
fn reorder_to_the_same_position_changes_nothing() {
    let mut service = three();
    assert_eq!(service.reorder(P, 2, 2), Ok(()));
    assert_eq!(service.tasks(), three().tasks());
}

#[test]
fn reorder_of_unknown_task_is_refused_without_change() {
    let mut service = three();
    assert_eq!(service.reorder(P, 42, 1), Err(SequentialQueueError::TaskNotFound(42)));
    assert_eq!(service.tasks(), three().tasks());
}

#[test]
fn reorder_of_parallel_task_is_refused_without_change() {
    let records = vec![sequential(1, TaskStatus::Todo, 1), task(2, P, TaskStatus::Todo, None)];
    let mut service = SequentialQueueService::new(records.clone());
    assert_eq!(service.reorder(P, 2, 1), Err(SequentialQueueError::NotSequentialMode));
    assert_eq!(service.tasks(), &records);
}

#[test]
fn reorder_keeps_queue_dense_for_every_task_and_position() {
    for moved in 1..=4u128 {
        for target in 1..=4i32 {
            let mut service = SequentialQueueService::new(vec![
                sequential(1, TaskStatus::Todo, 1),
                sequential(2, TaskStatus::Todo, 2),
                sequential(3, TaskStatus::Todo, 3),
                sequential(4, TaskStatus::Todo, 4),
                task(5, Q, TaskStatus::Todo, Some(1)),
            ]);
            assert_eq!(service.reorder(P, moved, target), Ok(()));
            let queue = positions(&service, P);
            let numbers: Vec<Option<i32>> = queue.iter().map(|entry| entry.1).collect();
            assert_eq!(numbers, vec![Some(1), Some(2), Some(3), Some(4)]);
            assert_eq!(queue[(target - 1) as usize].0, moved);
            assert_eq!(positions(&service, Q), vec![(5, Some(1))]);
        }
    }
}

#[test]
fn chain_of_reorders_keeps_queue_dense() {
    let mut service = three();
    for (moved, target) in [(3u128, 1i32), (1, 3), (2, 2), (3, 3), (1, 1), (2, 1)] {
        assert_eq!(service.reorder(P, moved, target), Ok(()));
        let numbers: Vec<Option<i32>> =
            positions(&service, P).iter().map(|entry| entry.1).collect();
        assert_eq!(numbers, vec![Some(1), Some(2), Some(3)]);
    }
    assert_eq!(positions(&service, P), vec![(2, Some(1)), (1, Some(2)), (3, Some(3))]);
}

#[test]
fn reorder_beyond_the_queue_keeps_the_requested_position() {
    let mut service = three();
    assert_eq!(service.reorder(P, 1, 10), Ok(()));
    assert_eq!(positions(&service, P), vec![(2, Some(1)), (3, Some(2)), (1, Some(10))]);
}

#[test]
fn reorder_below_one_keeps_the_requested_position() {
    let mut service = three();
    assert_eq!(service.reorder(P, 3, -4), Ok(()));
    assert_eq!(positions(&service, P), vec![(3, Some(-4)), (1, Some(2)), (2, Some(3))]);
}

#[test]
fn reorder_closes_gaps_among_the_other_tasks() {
    let mut service = SequentialQueueService::new(vec![
        sequential(1, TaskStatus::Todo, 4),
        sequential(2, TaskStatus::Todo, 9),
        sequential(3, TaskStatus::Todo, 20),
    ]);
    assert_eq!(service.reorder(P, 3, 2), Ok(()));
    assert_eq!(positions(&service, P), vec![(1, Some(1)), (3, Some(2)), (2, Some(3))]);
}

#[test]
fn advance_waits_for_running_task() {
    let completed = sequential(10, TaskStatus::Done, 1);
    let service = SequentialQueueService::new(vec![
        completed.clone(),
        sequential(11, TaskStatus::InProgress, 2),
        sequential(12, TaskStatus::Todo, 3),
    ]);
    assert_eq!(service.process_queue_after_completion(&completed), None);
}

#[test]
fn advance_picks_next_todo() {
    let completed = sequential(1, TaskStatus::Done, 1);
    let service = SequentialQueueService::new(vec![
        completed.clone(),
        sequential(2, TaskStatus::Todo, 2),
        sequential(3, TaskStatus::Todo, 3),
    ]);
    let next = service.process_queue_after_completion(&completed);
    assert_eq!(next, Some(sequential(2, TaskStatus::Todo, 2)));
}

#[test]
fn advance_follows_cancelled_and_in_review_too() {
    for status in [TaskStatus::Cancelled, TaskStatus::InReview] {
        let completed = sequential(1, status, 1);
        let service = SequentialQueueService::new(vec![
            completed.clone(),
            sequential(2, TaskStatus::Todo, 2),
        ]);
        assert_eq!(service.process_queue_after_completion(&completed).map(|t| t.id), Some(2));
    }
}

#[test]
fn advance_ignores_parallel_and_unfinished_tasks() {
    let parallel = task(1, P, TaskStatus::Done, None);
    let unfinished = sequential(2, TaskStatus::Todo, 1);
    let service = SequentialQueueService::new(vec![
        parallel.clone(),
        unfinished.clone(),
        sequential(3, TaskStatus::Todo, 2),
    ]);
    assert_eq!(service.process_queue_after_completion(&parallel), None);
    assert_eq!(service.process_queue_after_completion(&unfinished), None);
}

#[test]
fn advance_never_returns_the_completed_task() {
    for status in [TaskStatus::Done, TaskStatus::Cancelled, TaskStatus::InReview] {
        let completed = sequential(1, status, 1);
        let alone = SequentialQueueService::new(vec![completed.clone()]);
        assert_eq!(alone.process_queue_after_completion(&completed), None);
        let service = SequentialQueueService::new(vec![
            sequential(2, TaskStatus::Todo, 2),
            completed.clone(),
        ]);
        let next = service.process_queue_after_completion(&completed).unwrap();
        assert_ne!(next.id, completed.id);
        assert_ne!(next, completed);
    }
}

#[test]
fn advance_in_project_without_queue_is_none() {
    let completed = task(1, Q, TaskStatus::Done, Some(1));
    let service = SequentialQueueService::new(vec![sequential(2, TaskStatus::Todo, 1)]);
    assert_eq!(service.process_queue_after_completion(&completed), None);
}

#[test]
fn mode_change_tells_what_the_queue_has_to_do() {
    let parallel = ExecutionMode::Parallel;
    let sequential = ExecutionMode::Sequential;
    assert_eq!(mode_change(parallel, sequential), ModeChange::Enqueue);
    assert_eq!(mode_change(sequential, parallel), ModeChange::Dequeue);
    assert_eq!(mode_change(parallel, parallel), ModeChange::Keep);
    assert_eq!(mode_change(sequential, sequential), ModeChange::Keep);
}

#[test]
fn task_turning_sequential_joins_the_end_of_a_dense_queue() {
    let mut service = SequentialQueueService::new(vec![
        sequential(1, TaskStatus::Todo, 1),
        task(2, P, TaskStatus::Todo, None),
        sequential(3, TaskStatus::Todo, 2),
    ]);
    change_execution_mode(&mut service, 2, P, ExecutionMode::Parallel, ExecutionMode::Sequential);
    assert_eq!(positions(&service, P), vec![(1, Some(1)), (3, Some(2)), (2, Some(3))]);
    assert_eq!(service.find_by_id(2).unwrap().execution_mode, ExecutionMode::Sequential);
}

#[test]
fn task_turning_parallel_leaves_the_queue() {
    let mut service = three();
    change_execution_mode(&mut service, 2, P, ExecutionMode::Sequential, ExecutionMode::Parallel);
    assert_eq!(positions(&service, P), vec![(1, Some(1)), (3, Some(3))]);
    let left = service.find_by_id(2).unwrap();
    assert_eq!(left.execution_mode, ExecutionMode::Parallel);
    assert_eq!(left.queue_position, None);
}

#[test]
fn unchanged_mode_keeps_the_position() {
    let mut service = three();
    change_execution_mode(&mut service, 2, P, ExecutionMode::Sequential, ExecutionMode::Sequential);
    assert_eq!(service.tasks(), three().tasks());
    service.set_execution_mode(3, ExecutionMode::Parallel);
    assert_eq!(service.find_by_id(3).unwrap().execution_mode, ExecutionMode::Parallel);
    assert_eq!(service.find_by_id(3).unwrap().queue_position, Some(3));
    assert_eq!(positions(&service, P), vec![(1, Some(1)), (2, Some(2))]);
}

#[test]
fn description_is_cleared_replaced_or_kept() {
    let recorded = Some("old".to_string());
    assert_eq!(merged_description(Some("new".to_string()), recorded.clone()), Some("new".to_string()));
    assert_eq!(merged_description(Some("  new ".to_string()), recorded.clone()), Some("  new ".to_string()));
    assert_eq!(merged_description(Some("".to_string()), recorded.clone()), None);
    assert_eq!(merged_description(Some(" \n\t ".to_string()), recorded.clone()), None);
    assert_eq!(merged_description(None, recorded.clone()), recorded);
    assert_eq!(merged_description(None, None), None);
}

#[test]
fn status_change_is_seen_only_on_entering_the_status() {
    let todo = TaskStatus::Todo;
    let running = TaskStatus::InProgress;
    let review = TaskStatus::InReview;
    assert!(status_changes_to(todo, running, running));
    assert!(!status_changes_to(running, running, running));
    assert!(!status_changes_to(todo, review, running));
    assert!(status_changes_to(running, review, review));
    assert!(!status_changes_to(review, todo, review));
}

#[test]
fn starting_the_pick_leaves_one_running_task() {
    let completed = sequential(1, TaskStatus::Done, 1);
    let mut service = SequentialQueueService::new(vec![
        completed.clone(),
        sequential(2, TaskStatus::Todo, 2),
        sequential(3, TaskStatus::Todo, 3),
        task(4, Q, TaskStatus::Todo, Some(1)),
    ]);
    let next = service.process_queue_after_completion(&completed).unwrap();
    service.update_status(next.id, TaskStatus::InProgress);
    assert!(service.has_running_task(P));
    assert!(!service.has_running_task(Q));
    let running: Vec<u128> = service
        .tasks()
        .iter()
        .filter(|t| t.status == TaskStatus::InProgress)
        .map(|t| t.id)
        .collect();
    assert_eq!(running, vec![2]);
    assert_eq!(service.process_queue_after_completion(&completed), None);
    assert_eq!(service.find_by_id(3).unwrap().status, TaskStatus::Todo);
}

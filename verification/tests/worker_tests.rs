use task_queue::messages::EmptyQueueError;
use task_queue::plus_five::PlusFiveConsumer;
use task_queue::queue::{Queueable, TaskQueue};
use task_queue::worker::{route_outcome, StepAction, StepResult, TaskWorker, WorkerExecuteError};

#[test]
fn route_outcome_routes_each_outcome() {
    assert!(matches!(route_outcome::<i32, i64>(3, Ok(8)), StepAction::Deliver(8)));
    assert!(matches!(
        route_outcome::<i32, i64>(3, Err(WorkerExecuteError::Retryable)),
        StepAction::Retry(3)
    ));
    assert!(matches!(
        route_outcome::<i32, i64>(3, Err(WorkerExecuteError::NonRetryable)),
        StepAction::Drop(3)
    ));
}

#[test]
fn step_on_empty_queue_does_nothing() {
    let mut q: TaskQueue<i32> = TaskQueue::new();
    let mut c = PlusFiveConsumer::new();
    let w = TaskWorker::new();
    assert_eq!(w.next(&mut q, &mut c), StepResult::Empty);
    assert_eq!(c.results, Vec::<i64>::new());
    assert_eq!(c.dropped, Vec::<i32>::new());
}

#[test]
fn retry_reenqueues_at_tail() {
    let mut q = TaskQueue::new();
    q.push(3);
    q.push(7);
    q.push(9);
    let mut c = PlusFiveConsumer::new();
    let w = TaskWorker::new();
    assert_eq!(w.next(&mut q, &mut c), StepResult::Retried);
    // the transformed task 4 stands at the tail, not at its old position:
    // popping everything returns it after all previously queued items
    assert_eq!(q.pop(), Ok(7));
    assert_eq!(q.pop(), Ok(9));
    assert_eq!(q.pop(), Ok(4));
    assert_eq!(q.pop(), Err(EmptyQueueError));
}

#[test]
fn drop_is_terminal_and_fires_once() {
    let mut q = TaskQueue::new();
    q.push(0);
    q.push(6);
    let mut c = PlusFiveConsumer::new();
    let w = TaskWorker::new();
    assert_eq!(w.next(&mut q, &mut c), StepResult::Dropped);
    assert_eq!(c.dropped, vec![0]);
    // the dropped task never reappears; the drop hook never fires again
    assert_eq!(w.next(&mut q, &mut c), StepResult::Completed);
    assert_eq!(w.next(&mut q, &mut c), StepResult::Empty);
    assert_eq!(c.dropped, vec![0]);
    assert_eq!(c.results, vec![11]);
}

#[test]
fn result_hook_fires_once_per_success() {
    let mut q = TaskQueue::new();
    q.push(5);
    let mut c = PlusFiveConsumer::new();
    let w = TaskWorker::new();
    assert_eq!(w.next(&mut q, &mut c), StepResult::Completed);
    assert_eq!(c.results, vec![10]);
    // the completed task is not executed again
    assert_eq!(w.next(&mut q, &mut c), StepResult::Empty);
    assert_eq!(c.results, vec![10]);
}

#[test]
fn end_to_end_scenario() {
    let mut q = TaskQueue::new();
    for v in [5, 8, 3, 11, 0, 20] {
        q.push(v);
    }
    let mut c = PlusFiveConsumer::new();
    let w = TaskWorker::new();
    let mut steps = Vec::new();
    for _ in 0..10 {
        steps.push(w.next(&mut q, &mut c));
    }
    assert_eq!(
        steps,
        vec![
            StepResult::Completed,
            StepResult::Completed,
            StepResult::Retried,
            StepResult::Completed,
            StepResult::Dropped,
            StepResult::Completed,
            StepResult::Retried,
            StepResult::Completed,
            StepResult::Empty,
            StepResult::Empty,
        ]
    );
    // 3 was retried to 4, retried again to 5, then succeeded as 10;
    // 0 was dropped immediately with no retry
    assert_eq!(c.results, vec![10, 13, 16, 25, 10]);
    assert_eq!(c.dropped, vec![0]);
    assert_eq!(q.pop(), Err(EmptyQueueError));
}

//! The worker side of the protocol: the failure classification returned by
//! task execution, the behavior table an application supplies per task/result
//! type pair, the routing decision for one execution outcome, and the worker
//! that drives one full pop-execute-route cycle per call.

use crate::queue::{
    lemma_pop_trace_pops_prefix, op_apply, op_valid, pop_trace, trace_apply, trace_valid, QueueOp,
    Queueable,
};
use core::marker::PhantomData;
use vstd::prelude::*;

verus! {

/// Classification of a failed execution.
///
/// `Retryable` means the task should be attempted again, possibly
/// transformed; `NonRetryable` means the task must be discarded. These are
/// the only two failure categories the worker reacts to.
#[derive(Clone, Copy, Debug, PartialEq, Eq, Structural)]
pub enum WorkerExecuteError {
    Retryable,
    NonRetryable,
}

/// The behavior table implemented once per task/result type pair.
///
/// The spec members are the model an implementation commits to: `execute`
/// must return exactly `outcome_spec`, `retry` exactly `retry_spec`, and the
/// two hooks must move the implementation's state along `drop_step` and
/// `result_step`. [`TaskWorker::next`] is proved against this model alone.
pub trait QueueConsumer<T, W>: Sized {
    /// The outcome of executing a task: a result value on success, otherwise
    /// the failure classification.
    spec fn outcome_spec(&self, task: T) -> Result<W, WorkerExecuteError>;

    /// The task to re-enqueue in place of a task that failed retryably.
    spec fn retry_spec(&self, task: T) -> T;

    /// How one invocation of the drop hook for `task` moves the consumer
    /// from `pre` to `post`.
    spec fn drop_step(pre: Self, post: Self, task: T) -> bool;

    /// How one invocation of the result hook for `result` moves the consumer
    /// from `pre` to `post`.
    spec fn result_step(pre: Self, post: Self, result: W) -> bool;

    /// Performs the unit of work described by `task`.
    fn execute(&self, task: T) -> (outcome: Result<W, WorkerExecuteError>)
        ensures
            outcome == self.outcome_spec(task),
    ;

    /// Given the task that failed retryably — the task as originally
    /// dequeued, not anything produced while executing it — returns the task
    /// to re-enqueue. The identity transform is valid.
    fn retry(&self, task: T) -> (next_task: T)
        ensures
            next_task == self.retry_spec(task),
    ;

    /// Invoked exactly once when `task` is permanently abandoned.
    fn drop(&mut self, task: T)
        ensures
            Self::drop_step(*old(self), *final(self), task),
    ;

    /// Invoked exactly once per successful execution with its result value.
    fn result(&mut self, result: W)
        ensures
            Self::result_step(*old(self), *final(self), result),
    ;
}

/// What one worker step does with a task after executing it.
pub enum StepAction<T, W> {
    /// The execution succeeded: deliver this value to the result hook.
    Deliver(W),
    /// The execution failed retryably: hand the task to the retry
    /// transform and push the transformed task back onto the queue.
    Retry(T),
    /// The execution failed permanently: hand the task to the drop hook.
    Drop(T),
}

/// Routes one execution outcome to its action: success delivers the result,
/// a retryable failure sends the task back toward the queue, a non-retryable
/// failure discards it.
pub fn route_outcome<T, W>(task: T, outcome: Result<W, WorkerExecuteError>) -> (action: StepAction<
    T,
    W,
>)
    ensures
        match outcome {
            Ok(w) => action == StepAction::<T, W>::Deliver(w),
            Err(WorkerExecuteError::Retryable) => action == StepAction::<T, W>::Retry(task),
            Err(WorkerExecuteError::NonRetryable) => action == StepAction::<T, W>::Drop(task),
        },
{
    match outcome {
        Ok(w) => StepAction::Deliver(w),
        Err(WorkerExecuteError::Retryable) => StepAction::Retry(task),
        Err(WorkerExecuteError::NonRetryable) => StepAction::Drop(task),
    }
}

/// What one call of [`TaskWorker::next`] did.
#[derive(Clone, Copy, Debug, PartialEq, Eq, Structural)]
pub enum StepResult {
    /// The queue held no task; nothing was executed and no hook fired.
    Empty,
    /// The head task succeeded and its result was delivered.
    Completed,
    /// The head task failed retryably; its transform was pushed at the tail.
    Retried,
    /// The head task failed permanently and was handed to the drop hook.
    Dropped,
}

/// A stateless worker handle for one task/result type pair.
///
/// Each call of [`TaskWorker::next`] performs one full queue-item lifecycle
/// transition; the caller decides cadence and count of steps. All shared
/// state lives in the queue.
pub struct TaskWorker<T, W> {
    task: PhantomData<T>,
    result: PhantomData<W>,
}

impl<T: Copy, W> TaskWorker<T, W> {
    pub fn new() -> (worker: TaskWorker<T, W>) {
        TaskWorker { task: PhantomData, result: PhantomData }
    }

    /// One full cycle: pop the head task, execute it, route the outcome.
    ///
    /// On an empty queue nothing further happens. On success the result hook
    /// fires exactly once with the execution's value. On a retryable failure
    /// the transformed task is re-enqueued at the tail, not at the head's
    /// old position. On a non-retryable failure the drop hook fires exactly
    /// once and the task is gone from the queue.
    pub fn next<Q: Queueable<T>, C: QueueConsumer<T, W>>(
        &self,
        queue: &mut Q,
        consumer: &mut C,
    ) -> (r: StepResult)
        ensures
            old(queue).contents().len() == 0 ==> r == StepResult::Empty
                && final(queue).contents() == old(queue).contents()
                && *final(consumer) == *old(consumer),
            old(queue).contents().len() > 0 ==> (match old(consumer).outcome_spec(
                old(queue).contents().first(),
            ) {
                Ok(w) => r == StepResult::Completed
                    && final(queue).contents() == old(queue).contents().drop_first()
                    && C::result_step(*old(consumer), *final(consumer), w),
                Err(WorkerExecuteError::Retryable) => r == StepResult::Retried
                    && final(queue).contents() == old(queue).contents().drop_first().push(
                    old(consumer).retry_spec(old(queue).contents().first()),
                ) && *final(consumer) == *old(consumer),
                Err(WorkerExecuteError::NonRetryable) => r == StepResult::Dropped
                    && final(queue).contents() == old(queue).contents().drop_first()
                    && C::drop_step(*old(consumer), *final(consumer), old(queue).contents().first()),
            }),
    {
        match queue.pop() {
            Err(_) => StepResult::Empty,
            Ok(task) => match route_outcome(task, consumer.execute(task)) {
                StepAction::Deliver(w) => {
                    consumer.result(w);
                    StepResult::Completed
                },
                StepAction::Retry(t) => {
                    let transformed = consumer.retry(t);
                    queue.push(transformed);
                    StepResult::Retried
                },
                StepAction::Drop(t) => {
                    consumer.drop(t);
                    StepResult::Dropped
                },
            },
        }
    }
}

/// The queue events of one call of [`TaskWorker::next`] against contents
/// `q`: a step on an empty queue observes it empty; otherwise it pops the
/// head, and on a retryable failure it also pushes the transformed task.
pub open spec fn step_ops<T, W, C: QueueConsumer<T, W>>(consumer: C, q: Seq<T>) -> Seq<
    QueueOp<T>,
> {
    if q.len() == 0 {
        seq![QueueOp::PopEmpty]
    } else {
        match consumer.outcome_spec(q.first()) {
            Err(WorkerExecuteError::Retryable) => seq![
                QueueOp::PopOk(q.first()),
                QueueOp::Push(consumer.retry_spec(q.first())),
            ],
            _ => seq![QueueOp::PopOk(q.first())],
        }
    }
}

/// Every worker step is itself a valid queue history: the events of one
/// call of [`TaskWorker::next`] are valid from the old contents and lead to
/// exactly the contents that its contract ensures. The queue laws —
/// [`crate::queue::lemma_fifo`], [`crate::queue::lemma_conservation`] —
/// therefore cover any interleaving of producer pushes and worker steps.
pub proof fn lemma_step_is_valid_trace<T, W, C: QueueConsumer<T, W>>(consumer: C, q: Seq<T>)
    ensures
        trace_valid(q, step_ops::<T, W, C>(consumer, q)),
        q.len() == 0 ==> trace_apply(q, step_ops::<T, W, C>(consumer, q)) == q,
        q.len() > 0 ==> trace_apply(q, step_ops::<T, W, C>(consumer, q)) == (match consumer.outcome_spec(
            q.first(),
        ) {
            Err(WorkerExecuteError::Retryable) => q.drop_first().push(
                consumer.retry_spec(q.first()),
            ),
            _ => q.drop_first(),
        }),
{
    let ops = step_ops::<T, W, C>(consumer, q);
    if q.len() == 0 {
        assert(ops.first() == QueueOp::<T>::PopEmpty);
        assert(op_valid(q, ops.first()));
        assert(op_apply(q, ops.first()) == q);
        assert(ops.drop_first() =~= Seq::<QueueOp<T>>::empty());
        assert(trace_valid(op_apply(q, ops.first()), ops.drop_first()));
        assert(trace_valid(q, ops));
        assert(trace_apply(op_apply(q, ops.first()), ops.drop_first()) == q);
        assert(trace_apply(q, ops) == q);
    } else {
        match consumer.outcome_spec(q.first()) {
            Err(WorkerExecuteError::Retryable) => {
                let a = ops.first();
                let b = ops[1];
                let q1 = op_apply(q, a);
                assert(a == QueueOp::PopOk(q.first()));
                assert(b == QueueOp::Push(consumer.retry_spec(q.first())));
                assert(op_valid(q, a));
                assert(q1 == q.drop_first());
                assert(ops.drop_first() =~= seq![b]);
                assert(seq![b].drop_first() =~= Seq::<QueueOp<T>>::empty());
                assert(op_valid(q1, b));
                assert(trace_valid(op_apply(q1, b), Seq::<QueueOp<T>>::empty()));
                assert(trace_valid(q1, seq![b]));
                assert(trace_valid(op_apply(q, ops.first()), ops.drop_first()));
                assert(trace_valid(q, ops));
                assert(trace_apply(q, ops) == trace_apply(q1, seq![b]));
                assert(trace_apply(q1, seq![b]) == trace_apply(
                    op_apply(q1, b),
                    seq![b].drop_first(),
                ));
                assert(trace_apply(q, ops) == q.drop_first().push(consumer.retry_spec(q.first())));
            },
            _ => {
                assert(ops.first() == QueueOp::PopOk(q.first()));
                assert(op_valid(q, ops.first()));
                assert(op_apply(q, ops.first()) == q.drop_first());
                assert(ops.drop_first() =~= Seq::<QueueOp<T>>::empty());
                assert(trace_valid(op_apply(q, ops.first()), ops.drop_first()));
                assert(trace_valid(q, ops));
                assert(trace_apply(op_apply(q, ops.first()), ops.drop_first()) == q.drop_first());
                assert(trace_apply(q, ops) == q.drop_first());
            },
        }
    }
}

/// Retry re-enqueues at the tail: after a step whose head task failed
/// retryably, the queue holds the old contents minus their head, with the
/// transformed task `t` at the last position — so any run of pops that
/// empties the queue returns `t` only after every task that was already
/// queued.
pub proof fn lemma_retried_task_pops_last<T>(q: Seq<T>, t: T, popped: Seq<T>)
    requires
        q.len() > 0,
        popped.len() == q.len(),
        trace_valid(q.drop_first().push(t), pop_trace(popped)),
    ensures
        popped.last() == t,
        popped.drop_last() == q.drop_first(),
{
    lemma_pop_trace_pops_prefix(q.drop_first().push(t), popped);
    assert(popped =~= q.drop_first().push(t));
    assert(popped.drop_last() =~= q.drop_first());
}

/// Drop is terminal, and a completed task is not executed again: a step that
/// consumes the head — by completing it or by dropping it — leaves a queue
/// that no longer contains that task, provided it stood in the queue only
/// once.
pub proof fn lemma_consumed_head_is_gone<T>(q: Seq<T>)
    requires
        q.len() > 0,
        forall|i: int| 1 <= i < q.len() ==> q[i] != q.first(),
    ensures
        !q.drop_first().contains(q.first()),
{
    assert forall|j: int| 0 <= j < q.drop_first().len() implies q.drop_first()[j] != q.first() by {
        assert(q.drop_first()[j] == q[j + 1]);
    }
}

} // verus!

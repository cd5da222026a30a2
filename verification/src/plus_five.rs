//! A worked example behavior table over integer tasks.
//!
//! A task of value `n` succeeds with `n + 5` when `n >= 5`; it fails
//! retryably when `0 < n < 5`, with a retry transform that adds one; it
//! fails permanently and is dropped when `n <= 0`.

use crate::worker::{QueueConsumer, WorkerExecuteError};
use vstd::prelude::*;

verus! {

/// The example consumer. It records every delivered result and every
/// dropped task, in order, so a caller can observe that each hook fired
/// exactly once per event.
pub struct PlusFiveConsumer {
    /// Results delivered by successful executions, in delivery order.
    pub results: Vec<i64>,
    /// Tasks abandoned by non-retryable failures, in drop order.
    pub dropped: Vec<i32>,
}

impl PlusFiveConsumer {
    /// A consumer that has seen no event yet.
    pub fn new() -> (c: PlusFiveConsumer)
        ensures
            c.results@ == Seq::<i64>::empty(),
            c.dropped@ == Seq::<i32>::empty(),
    {
        PlusFiveConsumer { results: Vec::new(), dropped: Vec::new() }
    }
}

impl QueueConsumer<i32, i64> for PlusFiveConsumer {
    open spec fn outcome_spec(&self, task: i32) -> Result<i64, WorkerExecuteError> {
        if task >= 5 {
            Ok((task + 5) as i64)
        } else if task > 0 {
            Err(WorkerExecuteError::Retryable)
        } else {
            Err(WorkerExecuteError::NonRetryable)
        }
    }

    open spec fn retry_spec(&self, task: i32) -> i32 {
        if task < i32::MAX {
            (task + 1) as i32
        } else {
            task
        }
    }

    open spec fn drop_step(pre: Self, post: Self, task: i32) -> bool {
        post.results@ == pre.results@ && post.dropped@ == pre.dropped@.push(task)
    }

    open spec fn result_step(pre: Self, post: Self, result: i64) -> bool {
        post.results@ == pre.results@.push(result) && post.dropped@ == pre.dropped@
    }

    fn execute(&self, task: i32) -> (outcome: Result<i64, WorkerExecuteError>) {
        if task >= 5 {
            Ok(task as i64 + 5)
        } else if task > 0 {
            Err(WorkerExecuteError::Retryable)
        } else {
            Err(WorkerExecuteError::NonRetryable)
        }
    }

    fn retry(&self, task: i32) -> (next_task: i32) {
        if task < i32::MAX {
            task + 1
        } else {
            task
        }
    }

    fn drop(&mut self, task: i32) {
        self.dropped.push(task);
    }

    fn result(&mut self, result: i64) {
        self.results.push(result);
    }
}

} // verus!

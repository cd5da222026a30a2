//! The two request shapes that travel to a queue, and the error a `Pop`
//! request is answered with when no task is pending.

use core::marker::PhantomData;
use vstd::prelude::*;

verus! {

/// A request to append one task item at the tail of a queue.
///
/// Push is fire-and-forget: it carries the item and expects no response.
pub struct Push<T> {
    pub item: T,
}

impl<T> Push<T> {
    pub fn new(value: T) -> (msg: Push<T>)
        ensures
            msg.item == value,
    {
        Push { item: value }
    }
}

/// A request for the head item of a queue.
///
/// Pop carries no payload and expects exactly one response: the dequeued
/// item, or [`EmptyQueueError`] when the queue holds nothing.
pub struct Pop<T> {
    phantom: PhantomData<T>,
}

impl<T> Pop<T> {
    pub fn new() -> (msg: Pop<T>) {
        Pop { phantom: PhantomData }
    }
}

/// The answer to a [`Pop`] request that found the queue empty.
#[derive(Clone, Copy, Debug, PartialEq, Eq, Structural)]
pub struct EmptyQueueError;

} // verus!

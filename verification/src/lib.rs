//! A generic, per-type task queue with a worker-side retry/drop protocol.
//!
//! For a chosen task type `T` and result type `W` the library provides a FIFO
//! queue of pending task items ([`queue::TaskQueue`]), the request shapes that
//! travel to it ([`messages::Push`], [`messages::Pop`]), and a worker
//! ([`worker::TaskWorker`]) that advances one task through its lifecycle per
//! call: pop the head, execute it through an application-supplied behavior
//! table ([`worker::QueueConsumer`]), and on failure either re-enqueue a
//! transformed task at the tail or drop it for good.

pub mod messages;
pub mod plus_five;
pub mod queue;
pub mod worker;

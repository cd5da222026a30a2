//! The FIFO queue of pending task items, the [`Queueable`] contract it
//! satisfies, and a trace model of queue histories with the ordering and
//! conservation laws that hold over every valid history.

use crate::messages::EmptyQueueError;
use vstd::multiset::Multiset;
use vstd::prelude::*;

verus! {

/// Push and pop against one FIFO sequence of task items.
///
/// `contents()` is the model: the items currently queued, head first. Pushes
/// append at the tail; pops remove the head, so items leave in the order they
/// arrived.
pub trait Queueable<T>: Sized {
    /// The items currently queued, head first.
    spec fn contents(&self) -> Seq<T>;

    /// Appends `item` at the tail. Always succeeds.
    fn push(&mut self, item: T)
        ensures
            final(self).contents() == old(self).contents().push(item),
    ;

    /// Removes and returns the head item. On an empty queue it returns
    /// [`EmptyQueueError`] and leaves the contents unchanged.
    fn pop(&mut self) -> (r: Result<T, EmptyQueueError>)
        ensures
            old(self).contents().len() == 0 ==> r == Err::<T, EmptyQueueError>(EmptyQueueError)
                && final(self).contents() == old(self).contents(),
            old(self).contents().len() > 0 ==> r == Ok::<T, EmptyQueueError>(
                old(self).contents().first(),
            ) && final(self).contents() == old(self).contents().drop_first(),
    ;
}

/// The queue of pending task items for one task type.
///
/// It exclusively owns its sequence: callers mutate it only through
/// [`Queueable::push`] and [`Queueable::pop`], so every history of the queue
/// is a valid trace in the sense of [`trace_valid`].
pub struct TaskQueue<T> {
    items: Vec<T>,
}

impl<T> TaskQueue<T> {
    /// An empty queue.
    pub fn new() -> (q: TaskQueue<T>)
        ensures
            q.contents() == Seq::<T>::empty(),
    {
        TaskQueue { items: Vec::new() }
    }
}

impl<T> Default for TaskQueue<T> {
    /// An empty queue, as a queue registry constructs one on first lookup.
    fn default() -> (q: TaskQueue<T>)
        ensures
            q.contents() == Seq::<T>::empty(),
    {
        TaskQueue::new()
    }
}

impl<T> Queueable<T> for TaskQueue<T> {
    closed spec fn contents(&self) -> Seq<T> {
        self.items@
    }

    fn push(&mut self, item: T) {
        self.items.push(item);
    }

    fn pop(&mut self) -> (r: Result<T, EmptyQueueError>) {
        if self.items.len() == 0 {
            Err(EmptyQueueError)
        } else {
            let head = self.items.remove(0);
            proof {
                assert(self.items@ =~= old(self).contents().drop_first());
            }
            Ok(head)
        }
    }
}

/// One event in the history of a queue. Every push/pop call against a
/// [`Queueable`] produces exactly one such event, and the contracts of
/// [`Queueable::push`] and [`Queueable::pop`] make each event valid in the
/// sense of [`op_valid`] and move the contents by [`op_apply`].
pub enum QueueOp<T> {
    /// An item was appended at the tail.
    Push(T),
    /// A pop removed and returned the head item.
    PopOk(T),
    /// A pop found the queue empty and returned [`EmptyQueueError`].
    PopEmpty,
}

/// Whether `op` can be the next event of a queue whose contents are `q`.
pub open spec fn op_valid<T>(q: Seq<T>, op: QueueOp<T>) -> bool {
    match op {
        QueueOp::Push(_) => true,
        QueueOp::PopOk(t) => q.len() > 0 && t == q.first(),
        QueueOp::PopEmpty => q.len() == 0,
    }
}

/// The contents after `op` of a queue whose contents were `q`.
pub open spec fn op_apply<T>(q: Seq<T>, op: QueueOp<T>) -> Seq<T> {
    match op {
        QueueOp::Push(t) => q.push(t),
        QueueOp::PopOk(_) => q.drop_first(),
        QueueOp::PopEmpty => q,
    }
}

/// Whether `ops` is a possible history of a queue whose contents start as
/// `q`. Because the queue serializes all callers, any concurrent mix of
/// pushes and pops is some such linear history.
pub open spec fn trace_valid<T>(q: Seq<T>, ops: Seq<QueueOp<T>>) -> bool
    decreases ops.len(),
{
    ops.len() == 0 || (op_valid(q, ops.first()) && trace_valid(
        op_apply(q, ops.first()),
        ops.drop_first(),
    ))
}

/// The contents after the whole history `ops`, starting from `q`.
pub open spec fn trace_apply<T>(q: Seq<T>, ops: Seq<QueueOp<T>>) -> Seq<T>
    decreases ops.len(),
{
    if ops.len() == 0 {
        q
    } else {
        trace_apply(op_apply(q, ops.first()), ops.drop_first())
    }
}

/// The items pushed over the history `ops`, in push order.
pub open spec fn pushed_of<T>(ops: Seq<QueueOp<T>>) -> Seq<T>
    decreases ops.len(),
{
    if ops.len() == 0 {
        Seq::empty()
    } else {
        match ops.first() {
            QueueOp::Push(t) => seq![t] + pushed_of(ops.drop_first()),
            _ => pushed_of(ops.drop_first()),
        }
    }
}

/// The items returned by pops over the history `ops`, in pop order.
pub open spec fn popped_of<T>(ops: Seq<QueueOp<T>>) -> Seq<T>
    decreases ops.len(),
{
    if ops.len() == 0 {
        Seq::empty()
    } else {
        match ops.first() {
            QueueOp::PopOk(t) => seq![t] + popped_of(ops.drop_first()),
            _ => popped_of(ops.drop_first()),
        }
    }
}

/// The history that pushes `items` in order.
pub open spec fn push_trace<T>(items: Seq<T>) -> Seq<QueueOp<T>> {
    items.map_values(|t: T| QueueOp::Push(t))
}

/// The history whose pops return `popped` in order.
pub open spec fn pop_trace<T>(popped: Seq<T>) -> Seq<QueueOp<T>> {
    popped.map_values(|t: T| QueueOp::PopOk(t))
}

/// A valid history through `a + b` is a valid history through `a` followed
/// by a valid history through `b` from where `a` left the contents.
pub proof fn lemma_trace_valid_split<T>(q: Seq<T>, a: Seq<QueueOp<T>>, b: Seq<QueueOp<T>>)
    requires
        trace_valid(q, a + b),
    ensures
        trace_valid(q, a),
        trace_valid(trace_apply(q, a), b),
    decreases a.len(),
{
    if a.len() == 0 {
        assert(a + b =~= b);
    } else {
        assert((a + b).first() == a.first());
        assert((a + b).drop_first() =~= a.drop_first() + b);
        lemma_trace_valid_split(op_apply(q, a.first()), a.drop_first(), b);
    }
}

/// Pushing `items` in order is always valid and appends them at the tail.
pub proof fn lemma_push_trace_applies<T>(q: Seq<T>, items: Seq<T>)
    ensures
        trace_valid(q, push_trace(items)),
        trace_apply(q, push_trace(items)) == q + items,
    decreases items.len(),
{
    if items.len() == 0 {
        assert(q + items =~= q);
    } else {
        assert(push_trace(items).first() == QueueOp::Push(items.first()));
        assert(push_trace(items).drop_first() =~= push_trace(items.drop_first()));
        lemma_push_trace_applies(q.push(items.first()), items.drop_first());
        assert(q.push(items.first()) + items.drop_first() =~= q + items);
    }
}

/// A valid run of pops returns a prefix of the contents, in order, and
/// leaves the rest.
pub proof fn lemma_pop_trace_pops_prefix<T>(q: Seq<T>, popped: Seq<T>)
    requires
        trace_valid(q, pop_trace(popped)),
    ensures
        popped.len() <= q.len(),
        popped == q.take(popped.len() as int),
        trace_apply(q, pop_trace(popped)) == q.skip(popped.len() as int),
    decreases popped.len(),
{
    if popped.len() == 0 {
        assert(popped =~= q.take(0));
        assert(q.skip(0) =~= q);
    } else {
        assert(pop_trace(popped).first() == QueueOp::PopOk(popped.first()));
        assert(pop_trace(popped).drop_first() =~= pop_trace(popped.drop_first()));
        lemma_pop_trace_pops_prefix(q.drop_first(), popped.drop_first());
        assert forall|i: int| 0 <= i < popped.len() implies popped[i] == q[i] by {
            if i > 0 {
                assert(popped[i] == popped.drop_first()[i - 1]);
                assert(popped.drop_first()[i - 1] == q.drop_first().take(
                    popped.len() as int - 1,
                )[i - 1]);
            }
        }
        assert(popped =~= q.take(popped.len() as int));
        assert(q.drop_first().skip(popped.len() as int - 1) =~= q.skip(popped.len() as int));
    }
}

/// FIFO: starting from an empty queue, a history of one push per item of
/// `items`, in order, followed by one successful pop per item, returns
/// exactly `items` — pops come back in push order.
pub proof fn lemma_fifo<T>(items: Seq<T>, popped: Seq<T>)
    requires
        popped.len() == items.len(),
        trace_valid(Seq::<T>::empty(), push_trace(items) + pop_trace(popped)),
    ensures
        popped == items,
{
    lemma_trace_valid_split(Seq::<T>::empty(), push_trace(items), pop_trace(popped));
    lemma_push_trace_applies(Seq::<T>::empty(), items);
    assert(Seq::<T>::empty() + items =~= items);
    lemma_pop_trace_pops_prefix(items, popped);
    assert(items.take(items.len() as int) =~= items);
}

/// Conservation: over any valid history — any interleaving of pushes and
/// pops, since the queue serializes them into one — the items that went in
/// are exactly the items that came out plus the items that remain: equal as
/// multisets (no loss, no duplication) and therefore in count.
pub proof fn lemma_conservation<T>(q: Seq<T>, ops: Seq<QueueOp<T>>)
    requires
        trace_valid(q, ops),
    ensures
        q.len() + pushed_of(ops).len() == popped_of(ops).len() + trace_apply(q, ops).len(),
        q.to_multiset().add(pushed_of(ops).to_multiset()) =~= popped_of(ops).to_multiset().add(
            trace_apply(q, ops).to_multiset(),
        ),
    decreases ops.len(),
{
    broadcast use vstd::seq_lib::group_to_multiset_ensures;
    broadcast use vstd::multiset::group_multiset_axioms;

    if ops.len() == 0 {
        assert(pushed_of(ops).to_multiset() =~= Multiset::<T>::empty());
        assert(popped_of(ops).to_multiset() =~= Multiset::<T>::empty());
        assert(q.to_multiset().add(pushed_of(ops).to_multiset()) =~= q.to_multiset());
        assert(popped_of(ops).to_multiset().add(trace_apply(q, ops).to_multiset())
            =~= q.to_multiset());
    } else {
        let op = ops.first();
        let rest = ops.drop_first();
        let q1 = op_apply(q, op);
        let remaining = trace_apply(q, ops);
        assert(remaining == trace_apply(q1, rest));
        lemma_conservation(q1, rest);
        assert(Seq::<T>::empty().to_multiset() =~= Multiset::<T>::empty());
        match op {
            QueueOp::Push(t) => {
                assert(pushed_of(ops) == seq![t] + pushed_of(rest));
                assert(popped_of(ops) == popped_of(rest));
                vstd::seq_lib::lemma_multiset_commutative(seq![t], pushed_of(rest));
                assert(seq![t] =~= Seq::<T>::empty().push(t));
                assert(seq![t].to_multiset() =~= Multiset::<T>::empty().insert(t));
                assert(q1.to_multiset() =~= q.to_multiset().insert(t));
                assert(q.to_multiset().add(pushed_of(ops).to_multiset()) =~= popped_of(
                    ops,
                ).to_multiset().add(remaining.to_multiset())) by {
                    broadcast use vstd::multiset::group_multiset_axioms;

                    assert forall|x: T|
                        (q.to_multiset().add(pushed_of(ops).to_multiset())).count(x) == (popped_of(
                            ops,
                        ).to_multiset().add(remaining.to_multiset())).count(x) by {
                        assert((q1.to_multiset().add(pushed_of(rest).to_multiset())).count(x) == (
                        popped_of(rest).to_multiset().add(remaining.to_multiset())).count(x));
                        assert(q1.to_multiset().count(x) == q.to_multiset().insert(t).count(x));
                        assert(pushed_of(ops).to_multiset().count(x) == seq![t].to_multiset().count(
                            x,
                        ) + pushed_of(rest).to_multiset().count(x));
                        assert(seq![t].to_multiset().count(x) == Multiset::<T>::empty().insert(
                            t,
                        ).count(x));
                    }
                }
            },
            QueueOp::PopOk(t) => {
                assert(pushed_of(ops) == pushed_of(rest));
                assert(popped_of(ops) == seq![t] + popped_of(rest));
                vstd::seq_lib::lemma_multiset_commutative(seq![t], popped_of(rest));
                assert(seq![t] =~= Seq::<T>::empty().push(t));
                assert(seq![t].to_multiset() =~= Multiset::<T>::empty().insert(t));
                assert(q =~= seq![t] + q1);
                vstd::seq_lib::lemma_multiset_commutative(seq![t], q1);
                assert(q.to_multiset() =~= seq![t].to_multiset().add(q1.to_multiset()));
                assert(q.to_multiset().add(pushed_of(ops).to_multiset()) =~= popped_of(
                    ops,
                ).to_multiset().add(remaining.to_multiset())) by {
                    broadcast use vstd::multiset::group_multiset_axioms;

                    assert forall|x: T|
                        (q.to_multiset().add(pushed_of(ops).to_multiset())).count(x) == (popped_of(
                            ops,
                        ).to_multiset().add(remaining.to_multiset())).count(x) by {
                        assert((q1.to_multiset().add(pushed_of(rest).to_multiset())).count(x) == (
                        popped_of(rest).to_multiset().add(remaining.to_multiset())).count(x));
                        assert(q.to_multiset().count(x) == seq![t].to_multiset().count(x)
                            + q1.to_multiset().count(x));
                        assert(popped_of(ops).to_multiset().count(x) == seq![t].to_multiset().count(
                            x,
                        ) + popped_of(rest).to_multiset().count(x));
                    }
                }
            },
            QueueOp::PopEmpty => {
                assert(pushed_of(ops) == pushed_of(rest));
                assert(popped_of(ops) == popped_of(rest));
            },
        }
    }
}

} // verus!

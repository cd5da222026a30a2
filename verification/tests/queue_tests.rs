use task_queue::messages::{EmptyQueueError, Pop, Push};
use task_queue::queue::{Queueable, TaskQueue};

#[test]
fn push_message_carries_item() {
    let msg = Push::new(10);
    assert_eq!(msg.item, 10);
    let msg = Push::new("hello");
    assert_eq!(msg.item, "hello");
}

#[test]
fn pop_message_builds() {
    let _msg: Pop<i32> = Pop::new();
    let _msg: Pop<&'static str> = Pop::new();
}

#[test]
fn default_queue_is_empty() {
    let mut q: TaskQueue<i32> = TaskQueue::default();
    assert_eq!(q.pop(), Err(EmptyQueueError));
}

#[test]
fn fifo_order() {
    let mut q = TaskQueue::new();
    q.push(1);
    q.push(2);
    q.push(3);
    assert_eq!(q.pop(), Ok(1));
    assert_eq!(q.pop(), Ok(2));
    assert_eq!(q.pop(), Ok(3));
    assert_eq!(q.pop(), Err(EmptyQueueError));
}

#[test]
fn empty_pop_returns_error_and_leaves_queue_unchanged() {
    let mut q: TaskQueue<i32> = TaskQueue::new();
    assert_eq!(q.pop(), Err(EmptyQueueError));
    assert_eq!(q.pop(), Err(EmptyQueueError));
    q.push(4);
    assert_eq!(q.pop(), Ok(4));
    assert_eq!(q.pop(), Err(EmptyQueueError));
}

#[test]
fn conservation_under_interleaving() {
    let mut q = TaskQueue::new();
    let mut popped_items = Vec::new();
    q.push(1);
    q.push(2);
    popped_items.push(q.pop().unwrap());
    q.push(3);
    popped_items.push(q.pop().unwrap());
    q.push(4);
    popped_items.push(q.pop().unwrap());
    popped_items.push(q.pop().unwrap());
    // four pushes, four successful pops, nothing remaining, nothing lost
    // or duplicated
    assert_eq!(popped_items, vec![1, 2, 3, 4]);
    assert_eq!(q.pop(), Err(EmptyQueueError));
}

//! Bounded FIFO queue: order, capacity and refusal behaviour.

use lpwan::queue::{BoundedQueue, QUEUE_CAP};

#[test]
fn queue_fifo_order() {
    let mut q: BoundedQueue<u32> = BoundedQueue::new();
    assert!(q.is_empty());
    q.enqueue(1).unwrap();
    q.enqueue(2).unwrap();
    q.enqueue(3).unwrap();
    assert_eq!(q.len(), 3);
    assert_eq!(q.peek(), Some(&1));
    assert_eq!(q.dequeue(), Some(1));
    assert_eq!(q.dequeue(), Some(2));
    assert_eq!(q.dequeue(), Some(3));
    assert_eq!(q.dequeue(), None);
}

#[test]
fn queue_capacity_sixteen() {
    // The sixteenth entry fits; the seventeenth comes back refused and
    // the queue never grows past its capacity.
    let mut q: BoundedQueue<u32> = BoundedQueue::new();
    for i in 0..QUEUE_CAP as u32 {
        q.enqueue(i).unwrap();
    }
    assert_eq!(q.len(), 16);
    assert!(q.is_full());
    assert_eq!(q.enqueue(99), Err(99));
    assert_eq!(q.len(), 16);
    // Draining one makes room for exactly one more.
    assert_eq!(q.dequeue(), Some(0));
    q.enqueue(99).unwrap();
    assert_eq!(q.enqueue(100), Err(100));
}

#[test]
fn queue_set_head() {
    let mut q: BoundedQueue<u32> = BoundedQueue::new();
    q.enqueue(7).unwrap();
    q.enqueue(8).unwrap();
    q.set_head(70);
    assert_eq!(q.dequeue(), Some(70));
    assert_eq!(q.dequeue(), Some(8));
}

//! Fixed-capacity FIFO queues backing the MAC receive and transmit buffers;
//! no entry is ever held beyond the capacity of sixteen.

use vstd::prelude::*;

verus! {

/// Capacity of each MAC queue.
pub const QUEUE_CAP: usize = 16;

/// A bounded FIFO queue holding at most [`QUEUE_CAP`] entries.
#[derive(Debug)]
pub struct BoundedQueue<T> {
    items: Vec<T>,
}

impl<T> View for BoundedQueue<T> {
    type V = Seq<T>;

    closed spec fn view(&self) -> Seq<T> {
        self.items@
    }
}

impl<T> BoundedQueue<T> {
    /// The queue never holds more than its capacity.
    pub open spec fn wf(&self) -> bool {
        self@.len() <= QUEUE_CAP
    }

    /// Create an empty queue.
    pub fn new() -> (r: BoundedQueue<T>)
        ensures
            r@ == Seq::<T>::empty(),
            r.wf(),
    {
        BoundedQueue { items: Vec::new() }
    }

    /// Number of queued entries.
    pub fn len(&self) -> (r: usize)
        ensures
            r == self@.len(),
    {
        self.items.len()
    }

    /// Whether the queue is empty.
    pub fn is_empty(&self) -> (r: bool)
        ensures
            r == (self@.len() == 0),
    {
        self.items.len() == 0
    }

    /// Whether the queue has reached its capacity.
    pub fn is_full(&self) -> (r: bool)
        ensures
            r == (self@.len() >= QUEUE_CAP),
    {
        self.items.len() >= QUEUE_CAP
    }

    /// Append an entry at the tail; a full queue refuses it and hands the
    /// entry back.
    pub fn enqueue(&mut self, t: T) -> (r: Result<(), T>)
        requires
            old(self).wf(),
        ensures
            final(self).wf(),
            old(self)@.len() < QUEUE_CAP ==> r is Ok && final(self)@ == old(self)@.push(t),
            old(self)@.len() >= QUEUE_CAP ==> final(self)@ == old(self)@ && (r matches Err(
                back,
            ) && back == t),
    {
        if self.items.len() >= QUEUE_CAP {
            return Err(t);
        }
        self.items.push(t);
        Ok(())
    }

    /// Remove and return the head entry, if any.
    pub fn dequeue(&mut self) -> (r: Option<T>)
        requires
            old(self).wf(),
        ensures
            final(self).wf(),
            old(self)@.len() == 0 ==> r is None && *final(self) == *old(self),
            old(self)@.len() > 0 ==> final(self)@ == old(self)@.subrange(
                1,
                old(self)@.len() as int,
            ) && (r matches Some(head) && head == old(self)@[0]),
    {
        if self.items.len() == 0 {
            return Option::None;
        }
        let head = self.items.remove(0);
        Option::Some(head)
    }

    /// Borrow the head entry, if any.
    pub fn peek(&self) -> (r: Option<&T>)
        ensures
            self@.len() == 0 ==> r is None,
            self@.len() > 0 ==> (r matches Some(head) && *head == self@[0]),
    {
        if self.items.len() == 0 {
            return Option::None;
        }
        Option::Some(&self.items[0])
    }

    /// Replace the head entry; a no-op on an empty queue.
    pub fn set_head(&mut self, t: T)
        requires
            old(self).wf(),
            old(self)@.len() > 0,
        ensures
            final(self).wf(),
            final(self)@ == old(self)@.update(0, t),
    {
        self.items.set(0, t);
    }
}

/// Every well-formed queue holds at most sixteen entries; the queue
/// operations all preserve well-formedness, so no sequence of enqueues and
/// dequeues can grow a queue beyond its capacity.
pub proof fn lemma_queue_bounded<T>(q: &BoundedQueue<T>)
    requires
        q.wf(),
    ensures
        q@.len() <= 16,
{
}

} // verus!

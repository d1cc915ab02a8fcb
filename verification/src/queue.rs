//! Bounded first-in first-out queues: the model of the channel endpoints
//! that connect application code to a transport's background pump.
//!
//! Each direction of a transport has one producer and one consumer.  The
//! queue holds at most [`QUEUE_CAPACITY`] items; a producer facing a full
//! queue gets its item handed back and must wait until the consumer has
//! taken something off.  That refusal is not an error: it is how
//! backpressure travels from a slow consumer to the producer.

use vstd::prelude::*;

verus! {

/// Every queue endpoint holds at most this many items.
pub const QUEUE_CAPACITY: usize = 255;

/// Whether a queue with these contents has room for one more item.
pub open spec fn can_enqueue<T>(s: Seq<T>) -> bool {
    s.len() < QUEUE_CAPACITY
}

/// A bounded FIFO queue.  Its view is the sequence of queued items, oldest
/// first.
#[derive(Debug)]
pub struct BoundedQueue<T> {
    items: Vec<T>,
}

impl<T> View for BoundedQueue<T> {
    type V = Seq<T>;

    closed spec fn view(&self) -> Seq<T> {
        self.items@
    }
}

impl<T> BoundedQueue<T> {
    /// An empty queue.
    pub fn new() -> (q: Self)
        ensures
            q@ == Seq::<T>::empty(),
    {
        BoundedQueue { items: Vec::new() }
    }

    /// How many items are queued.
    pub fn len(&self) -> (n: usize)
        ensures
            n == self@.len(),
    {
        self.items.len()
    }

    /// Appends `x` at the tail when there is room.  A queue at capacity
    /// refuses and hands `x` back unchanged: the producer must wait.
    pub fn try_enqueue(&mut self, x: T) -> (r: Result<(), T>)
        ensures
            can_enqueue(old(self)@) ==> r is Ok && final(self)@ == old(self)@.push(x),
            !can_enqueue(old(self)@) ==> (r matches Err(y) && y == x && final(self)@ == old(
                self,
            )@),
    {
        if self.items.len() < QUEUE_CAPACITY {
            self.items.push(x);
            Ok(())
        } else {
            Err(x)
        }
    }

    /// Removes and returns the oldest item; an empty queue yields nothing
    /// and the consumer must wait.
    pub fn dequeue(&mut self) -> (r: Option<T>)
        ensures
            old(self)@.len() == 0 ==> r is None && final(self)@ == old(self)@,
            old(self)@.len() > 0 ==> (r matches Some(x) && x == old(self)@[0]
                && final(self)@ == old(self)@.drop_first()),
    {
        if self.items.len() > 0 {
            let x = self.items.remove(0);
            proof {
                assert(self@ =~= old(self)@.drop_first());
            }
            Some(x)
        } else {
            None
        }
    }
}

/// Backpressure law: a queue filled to capacity admits no further item, and
/// as soon as the consumer has removed one item it admits an item again.
pub proof fn lemma_backpressure<T>(s: Seq<T>)
    requires
        s.len() == QUEUE_CAPACITY,
    ensures
        !can_enqueue(s),
        can_enqueue(s.drop_first()),
{
}

} // verus!

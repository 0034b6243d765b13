//! The ready queue: a bounded FIFO of task identifiers awaiting a poll
//! attempt. Capacity is fixed at construction; enqueue order is preserved; an
//! enqueue at capacity fails rather than dropping work.

use vstd::prelude::*;

use crate::QueueFull;

verus! {

/// A bounded FIFO of task identifiers.
pub struct ReadyQueue {
    /// Queued task identifiers, front at index 0.
    pub items: Vec<usize>,
    /// The fixed capacity; never exceeded.
    pub capacity: usize,
}

impl ReadyQueue {
    /// The queue never holds more than its capacity.
    pub open spec fn wf(&self) -> bool {
        self.items@.len() <= self.capacity
    }

    /// An empty queue of the given fixed capacity.
    pub fn new(capacity: usize) -> (q: ReadyQueue)
        ensures
            q.items@.len() == 0,
            q.capacity == capacity,
            q.wf(),
    {
        ReadyQueue { items: Vec::new(), capacity }
    }

    pub fn len(&self) -> (n: usize)
        ensures
            n == self.items@.len(),
    {
        self.items.len()
    }

    /// Enqueue a task identifier at the back, or report that the queue is at
    /// capacity. Never blocks, never drops silently.
    pub fn try_send(&mut self, id: usize) -> (r: Result<(), QueueFull>)
        ensures
            r is Ok <==> old(self).items@.len() < old(self).capacity,
            r is Ok ==> final(self).items@ == old(self).items@.push(id),
            r is Err ==> *final(self) == *old(self),
            final(self).capacity == old(self).capacity,
            old(self).wf() ==> final(self).wf(),
    {
        if self.items.len() < self.capacity {
            self.items.push(id);
            Ok(())
        } else {
            Err(QueueFull)
        }
    }

    /// Enqueue with room guaranteed by the caller.
    pub(crate) fn send(&mut self, id: usize)
        requires
            old(self).items@.len() < old(self).capacity,
        ensures
            final(self).items@ == old(self).items@.push(id),
            final(self).capacity == old(self).capacity,
            final(self).wf(),
    {
        self.items.push(id);
    }

    /// Dequeue the front task identifier, or report the queue empty.
    pub fn recv(&mut self) -> (r: Option<usize>)
        ensures
            old(self).items@.len() == 0 ==> r is None && *final(self) == *old(self),
            old(self).items@.len() > 0 ==> r == Some(old(self).items@[0]) && final(self).items@
                == old(self).items@.drop_first(),
            final(self).capacity == old(self).capacity,
            old(self).wf() ==> final(self).wf(),
    {
        if self.items.len() == 0 {
            None
        } else {
            let id = self.items.remove(0);
            proof {
                assert(self.items@ =~= old(self).items@.drop_first());
            }
            Some(id)
        }
    }
}

} // verus!

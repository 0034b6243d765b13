//! A minimal cooperative task scheduler.
//!
//! Independently written units of deferred computation ("tasks") are
//! registered with a [`executor::Spawner`], suspended when waiting on an
//! external event, and resumed exactly when that event becomes ready, on a
//! bounded ready queue driven by a single [`executor::Executor`] loop.
//!
//! Readiness that arrives from outside the driver loop (a timer elapsing, a
//! wake handle invoked from another thread) is modelled explicitly: each such
//! occurrence is an [`Event`], and the driver consumes a tape of events at its
//! quiescent points, exactly where a threaded deployment would observe them.
//! This keeps every scheduling decision — queue discipline, the take/restore
//! discipline on a task's computation slot, timer readiness — in verified
//! code, while the threads, channels and sleeps that produce the events stay
//! at the unverified edge.

use vstd::prelude::*;

pub mod executor;
pub mod laws;
pub mod queue;
pub mod task;
pub mod timer;

verus! {

/// Outcome of one poll of a suspendable computation: either it completed, or
/// it is not yet ready and has registered interest in being polled again.
#[derive(Clone, Copy, PartialEq, Eq, Structural, Debug)]
pub enum Poll {
    Ready,
    Pending,
}

/// An opaque, cloneable handle capturing "which task, and how to reschedule
/// it". Invoking it from anywhere yields the requeue event that the driver
/// loop consumes.
#[derive(Clone, Copy, PartialEq, Eq, Structural, Debug)]
pub struct WakeHandle {
    pub task_id: usize,
}

/// What a task reports while being driven: `Started(i)` when task `i` begins
/// its work, `Done(i)` when task `i` delivers its completion. Each stands for
/// one line of output in a deployed runtime.
#[derive(Clone, Copy, PartialEq, Eq, Structural, Debug)]
pub enum Msg {
    Started(usize),
    Done(usize),
}

/// An external occurrence delivered to the driver loop between polls.
///
/// `Fire(i)`: the timer awaited by task `i` elapsed — the act of the timer's
/// background thread. `Wake(i)`: some thread invoked task `i`'s wake handle;
/// this may happen any number of times, at any point.
#[derive(Clone, Copy, PartialEq, Eq, Structural, Debug)]
pub enum Event {
    Fire(usize),
    Wake(usize),
}

/// The ready queue is at capacity. Spawning treats this as a fatal
/// capacity-planning error, never a condition to retry or swallow.
#[derive(Clone, Copy, PartialEq, Eq, Structural, Debug)]
pub struct QueueFull;

impl WakeHandle {
    /// Invoke the handle: resubmit the referenced task to its ready queue.
    /// The invocation is reified as the event the driver loop consumes, so it
    /// is safe from any thread, any number of times.
    pub fn wake_by_ref(&self) -> (e: Event)
        ensures
            e == Event::Wake(self.task_id),
    {
        Event::Wake(self.task_id)
    }
}

pub fn poll_is_ready(p: &Poll) -> (r: bool)
    ensures
        r <==> p is Ready,
{
    match p {
        Poll::Ready => true,
        Poll::Pending => false,
    }
}

} // verus!

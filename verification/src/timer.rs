//! The one-shot delay primitive: a suspendable computation whose readiness is
//! flipped exactly once by an external wake source.

use vstd::prelude::*;

use crate::Poll;
use crate::WakeHandle;

verus! {

/// State shared, in a threaded deployment, between the poller and the timer's
/// background thread. Here both sides act through verified transitions:
/// [`TimerFuture::poll`] for the poller, [`TimerFuture::fire`] for the thread
/// that observes the duration elapsing.
///
/// Invariant: once `completed` becomes true it never becomes false, and a
/// poll that observes `completed` neither consults nor mutates `waker`.
#[derive(Clone, Copy, PartialEq, Eq, Structural, Debug)]
pub struct TimerFuture {
    /// The delay this timer was constructed with, in milliseconds.
    pub duration_ms: u64,
    /// Set exactly once, by `fire`; never reset.
    pub completed: bool,
    /// The most recently registered interest; overwritten by every poll that
    /// finds the timer not yet elapsed.
    pub waker: Option<WakeHandle>,
}

/// What one poll does to a timer: observe readiness, or register interest.
pub open spec fn timer_poll_spec(t: TimerFuture, w: WakeHandle) -> (TimerFuture, Poll) {
    if t.completed {
        (t, Poll::Ready)
    } else {
        (
            TimerFuture { duration_ms: t.duration_ms, completed: false, waker: Some(w) },
            Poll::Pending,
        )
    }
}

/// What firing does to a timer: mark it elapsed and surrender the registered
/// waker, exactly once, for the caller to invoke.
pub open spec fn timer_fire_spec(t: TimerFuture) -> (TimerFuture, Option<WakeHandle>) {
    (TimerFuture { duration_ms: t.duration_ms, completed: true, waker: None }, t.waker)
}

impl TimerFuture {
    /// Construct a one-shot delay. In a threaded deployment the constructor
    /// also starts the background thread that will call [`TimerFuture::fire`]
    /// after `duration_ms`; producing that call is the unverified edge's job.
    pub fn new(duration_ms: u64) -> (t: TimerFuture)
        ensures
            t == (TimerFuture { duration_ms, completed: false, waker: None }),
    {
        TimerFuture { duration_ms, completed: false, waker: None }
    }

    /// Poll the timer. If it has elapsed, report `Ready` and leave the record
    /// untouched; otherwise store `wake` (overwriting any previous interest)
    /// and report `Pending`.
    pub fn poll(&mut self, wake: WakeHandle) -> (r: Poll)
        ensures
            (*final(self), r) == timer_poll_spec(*old(self), wake),
    {
        if self.completed {
            Poll::Ready
        } else {
            self.waker = Some(wake);
            Poll::Pending
        }
    }

    /// The wake source's single action at expiry: mark the timer elapsed and
    /// take the registered waker, if any, so the caller can invoke it exactly
    /// once. Firing twice surrenders no second waker.
    pub fn fire(&mut self) -> (w: Option<WakeHandle>)
        ensures
            (*final(self), w) == timer_fire_spec(*old(self)),
    {
        self.completed = true;
        let w = self.waker;
        self.waker = None;
        w
    }
}

/// Every poll in `wakes`, applied in order from `t`, observes readiness.
pub open spec fn polls_observe_ready(t: TimerFuture, wakes: Seq<WakeHandle>) -> bool
    decreases wakes.len(),
{
    if wakes.len() == 0 {
        true
    } else {
        timer_poll_spec(t, wakes[0]).1 is Ready && polls_observe_ready(
            timer_poll_spec(t, wakes[0]).0,
            wakes.drop_first(),
        )
    }
}

/// Timer monotonicity: once a poll of a timer observes readiness, every
/// subsequent poll of the same timer — whatever wake handles they carry —
/// also observes readiness.
pub proof fn lemma_timer_monotonic(t: TimerFuture, first: WakeHandle, wakes: Seq<WakeHandle>)
    requires
        timer_poll_spec(t, first).1 is Ready,
    ensures
        polls_observe_ready(timer_poll_spec(t, first).0, wakes),
    decreases wakes.len(),
{
    assert(t.completed);
    assert(timer_poll_spec(t, first).0 == t);
    if wakes.len() > 0 {
        lemma_timer_monotonic(t, wakes[0], wakes.drop_first());
    }
}

/// Completion is terminal: firing makes the timer ready, and neither further
/// polls nor further fires ever unset readiness.
pub proof fn lemma_fire_terminal(t: TimerFuture, w: WakeHandle)
    ensures
        timer_fire_spec(t).0.completed,
        timer_poll_spec(t, w).0.completed == t.completed,
        timer_fire_spec(timer_fire_spec(t).0).1 is None,
{
}

} // verus!

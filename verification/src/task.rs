//! Suspendable computations and the task wrapper that owns one while it is
//! scheduled.

use vstd::prelude::*;

use crate::timer::timer_fire_spec;
use crate::timer::timer_poll_spec;
use crate::timer::TimerFuture;
use crate::Msg;
use crate::Poll;
use crate::WakeHandle;

verus! {

/// The demonstration computation: report `Started`, await a one-shot timer,
/// report `Done`.
#[derive(Clone, Copy, PartialEq, Eq, Structural, Debug)]
pub struct TimerTask {
    /// Whether the first poll has run (and `Started` was reported).
    pub started: bool,
    /// Whether the computation has delivered its completion.
    pub done: bool,
    /// The awaited delay.
    pub timer: TimerFuture,
}

/// A unit of deferred work. Polling it either completes it or leaves it
/// waiting on an external event, with interest registered through the wake
/// handle it was polled with.
#[derive(Clone, Copy, PartialEq, Eq, Structural, Debug)]
pub enum Computation {
    /// Completes on its first poll, with no waiting.
    Immediate { done: bool },
    /// Awaits a timer before completing.
    AwaitTimer(TimerTask),
}

/// Whether the computation has delivered its completion.
pub open spec fn comp_complete(c: Computation) -> bool {
    match c {
        Computation::Immediate { done } => done,
        Computation::AwaitTimer(t) => t.done,
    }
}

/// Whether the next poll of the computation will observe readiness.
pub open spec fn comp_ready(c: Computation) -> bool {
    match c {
        Computation::Immediate { .. } => true,
        Computation::AwaitTimer(t) => t.timer.completed,
    }
}

/// The wake handle the computation has registered, if any.
pub open spec fn comp_waker(c: Computation) -> Option<WakeHandle> {
    match c {
        Computation::Immediate { .. } => None,
        Computation::AwaitTimer(t) => t.timer.waker,
    }
}

/// What one poll does to a computation: the new computation state, the poll
/// outcome, and the log extended by whatever the computation reported.
pub open spec fn poll_comp_spec(c: Computation, wake: WakeHandle, log: Seq<Msg>) -> (
    Computation,
    Poll,
    Seq<Msg>,
) {
    match c {
        Computation::Immediate { .. } => (
            Computation::Immediate { done: true },
            Poll::Ready,
            log.push(Msg::Done(wake.task_id)),
        ),
        Computation::AwaitTimer(t) => {
            let log1 = if !t.started {
                log.push(Msg::Started(wake.task_id))
            } else {
                log
            };
            let (tm2, p) = timer_poll_spec(t.timer, wake);
            if p is Ready {
                (
                    Computation::AwaitTimer(TimerTask { started: true, done: true, timer: tm2 }),
                    Poll::Ready,
                    log1.push(Msg::Done(wake.task_id)),
                )
            } else {
                (
                    Computation::AwaitTimer(TimerTask { started: true, done: t.done, timer: tm2 }),
                    Poll::Pending,
                    log1,
                )
            }
        },
    }
}

/// What the external readiness source does to a computation: flip the awaited
/// condition to ready and surrender the registered waker for invocation.
pub open spec fn fire_comp_spec(c: Computation) -> (Computation, Option<WakeHandle>) {
    match c {
        Computation::Immediate { done } => (Computation::Immediate { done }, None),
        Computation::AwaitTimer(t) => {
            let (tm2, w) = timer_fire_spec(t.timer);
            (Computation::AwaitTimer(TimerTask { started: t.started, done: t.done, timer: tm2 }), w)
        },
    }
}

impl Computation {
    /// A computation that awaits a `duration_ms` timer between reporting
    /// `Started` and `Done`.
    pub fn await_timer(duration_ms: u64) -> (c: Computation)
        ensures
            c == (Computation::AwaitTimer(
                TimerTask {
                    started: false,
                    done: false,
                    timer: (TimerFuture { duration_ms, completed: false, waker: None }),
                },
            )),
    {
        Computation::AwaitTimer(
            TimerTask { started: false, done: false, timer: TimerFuture::new(duration_ms) },
        )
    }

    /// A computation that completes on its first poll.
    pub fn immediate() -> (c: Computation)
        ensures
            c == (Computation::Immediate { done: false }),
    {
        Computation::Immediate { done: false }
    }

    /// Poll the computation. A `Pending` outcome is only returned with
    /// interest registered through `wake`; a `Ready` outcome means the
    /// completion has been delivered, and the caller must not poll again.
    pub fn poll(&mut self, wake: WakeHandle, log: &mut Vec<Msg>) -> (r: Poll)
        requires
            !comp_complete(*old(self)),
        ensures
            ({
                let (c2, p, l2) = poll_comp_spec(*old(self), wake, old(log)@);
                *final(self) == c2 && r == p && final(log)@ == l2
            }),
            r is Ready <==> comp_complete(*final(self)),
            r is Pending ==> comp_waker(*final(self)) == Some(wake),
    {
        match self {
            Computation::Immediate { done } => {
                *done = true;
                log.push(Msg::Done(wake.task_id));
                Poll::Ready
            },
            Computation::AwaitTimer(t) => {
                if !t.started {
                    t.started = true;
                    log.push(Msg::Started(wake.task_id));
                }
                let r = t.timer.poll(wake);
                match r {
                    Poll::Ready => {
                        t.done = true;
                        log.push(Msg::Done(wake.task_id));
                        Poll::Ready
                    },
                    Poll::Pending => Poll::Pending,
                }
            },
        }
    }

    /// The readiness source's action: make the awaited condition ready and
    /// surrender the registered waker, if any, for invocation.
    pub fn notify(&mut self) -> (w: Option<WakeHandle>)
        ensures
            (*final(self), w) == fire_comp_spec(*old(self)),
    {
        match self {
            Computation::Immediate { .. } => None,
            Computation::AwaitTimer(t) => t.timer.fire(),
        }
    }
}

/// The runtime's wrapper around one computation: the slot is taken out for
/// the duration of a poll (so no second poll can run concurrently) and put
/// back only if the computation is still incomplete.
///
/// Invariant while scheduled: the slot is empty exactly when the task is
/// mid-poll or finished, and a finished task is never polled again.
#[derive(Clone, Copy, PartialEq, Eq, Structural, Debug)]
pub struct Task {
    /// The owned computation, absent while a poll holds it or after it
    /// completed.
    pub slot: Option<Computation>,
    /// Whether the computation delivered its completion.
    pub finished: bool,
}

/// Taking the slot for a poll: the holder gets exclusive ownership of the
/// computation and the slot is left empty.
pub open spec fn begin_poll_spec(t: Task) -> (Task, Option<Computation>) {
    (Task { slot: None, finished: t.finished }, t.slot)
}

/// What the external readiness source does to a task: notify the computation
/// in its slot, if one is there.
pub open spec fn fire_task_spec(t: Task) -> (Task, Option<WakeHandle>) {
    match t.slot {
        None => (t, None),
        Some(c) => {
            let (c2, w) = fire_comp_spec(c);
            (Task { slot: Some(c2), finished: t.finished }, w)
        },
    }
}

impl Task {
    /// A freshly spawned task owning `c`.
    pub fn new(c: Computation) -> (t: Task)
        ensures
            t == (Task { slot: Some(c), finished: false }),
    {
        Task { slot: Some(c), finished: false }
    }

    /// Take exclusive ownership of the computation slot for a poll attempt.
    /// An empty slot means the task is mid-poll elsewhere or already
    /// finished; the caller then skips it.
    pub fn begin_poll(&mut self) -> (r: Option<Computation>)
        ensures
            (*final(self), r) == begin_poll_spec(*old(self)),
    {
        let r = self.slot;
        self.slot = None;
        r
    }

    /// Put the computation back after a `Pending` poll, so a future wake can
    /// resume it. Only an incomplete computation may be restored.
    pub fn restore(&mut self, c: Computation)
        requires
            old(self).slot is None,
            !old(self).finished,
            !comp_complete(c),
        ensures
            *final(self) == (Task { slot: Some(c), finished: false }),
    {
        self.slot = Some(c);
    }

    /// Record a `Ready` poll: the computation is dropped permanently and the
    /// task will never be polled again.
    pub fn retire(&mut self)
        requires
            old(self).slot is None,
        ensures
            *final(self) == (Task { slot: None, finished: true }),
    {
        self.finished = true;
    }

    /// Deliver external readiness to the computation in the slot, if any,
    /// surrendering the waker to invoke.
    pub fn notify(&mut self) -> (w: Option<WakeHandle>)
        ensures
            (*final(self), w) == fire_task_spec(*old(self)),
    {
        let slot = self.slot;
        match slot {
            None => None,
            Some(mut c) => {
                let w = c.notify();
                self.slot = Some(c);
                w
            },
        }
    }
}

/// A task in a state the runtime can ever put it in: the slot is empty
/// exactly when the task finished, and a computation still in its slot has
/// not delivered its completion.
pub open spec fn task_ok(t: Task) -> bool {
    &&& t.slot is None <==> t.finished
    &&& (t.slot matches Some(c) ==> !comp_complete(c))
}

/// At-most-one active poll: taking the computation slot leaves it empty, so
/// while one poll holds the computation, any further poll attempt on the same
/// task acquires nothing and skips.
pub proof fn lemma_at_most_one_active_poll(t: Task)
    ensures
        begin_poll_spec(t).1 is Some ==> begin_poll_spec(begin_poll_spec(t).0).1 is None,
{
}

} // verus!

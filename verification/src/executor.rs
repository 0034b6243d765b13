//! The spawner, the executor and its driver loop.
//!
//! The spawner is the write-handle of the ready queue: it accepts new
//! computations up to the fixed capacity and fails beyond it. The executor is
//! the read-handle: a single driver loop that dequeues tasks, polls each with
//! a wake handle bound to it, and parks a still-pending task until an
//! external event resubmits it. External occurrences — a timer elapsing, a
//! wake handle invoked from some thread — reach the loop as a tape of
//! [`Event`]s, consumed at the loop's quiescent points.
//!
//! The whole drive is pinned down by the functional model [`sim`]: `run`
//! computes exactly what `sim` says, step for step.

use vstd::prelude::*;

use crate::queue::ReadyQueue;
use crate::task::comp_complete;
use crate::task::fire_task_spec;
use crate::task::poll_comp_spec;
use crate::task::task_ok;
use crate::task::Computation;
use crate::task::Task;
use crate::Event;
use crate::Msg;
use crate::Poll;
use crate::QueueFull;
use crate::WakeHandle;

verus! {

/// The write-handle to the ready queue: accepts new computations and stages
/// them as tasks for the driver loop.
pub struct Spawner {
    /// The fixed capacity of the linked ready queue.
    pub capacity: usize,
    /// The computations accepted so far, in submission order.
    pub staged: Vec<Computation>,
}

/// The read-handle to the ready queue: the single-threaded driver loop that
/// dequeues tasks and polls them.
pub struct Executor {
    /// The task table; a task's identifier is its index here.
    pub tasks: Vec<Task>,
    /// Tasks awaiting a poll attempt, in arrival order.
    pub queue: ReadyQueue,
    /// Everything the driven tasks reported, in order.
    pub log: Vec<Msg>,
}

/// What one spawn does: accept the computation iff the spawner is below
/// capacity.
pub open spec fn spawn_spec(staged: Seq<Computation>, capacity: nat, c: Computation) -> (
    Seq<Computation>,
    bool,
) {
    if staged.len() < capacity {
        (staged.push(c), true)
    } else {
        (staged, false)
    }
}

impl Spawner {
    /// The spawner never holds more than the queue's capacity.
    pub open spec fn wf(&self) -> bool {
        self.staged@.len() <= self.capacity
    }

    /// Submit a computation: synchronous bounded-enqueue-or-fail. Succeeds
    /// iff the ready queue is below its fixed capacity; never blocks, never
    /// drops work silently. A caller that cannot tolerate the failure treats
    /// it as a fatal capacity-planning error.
    pub fn spawn(&mut self, c: Computation) -> (r: Result<(), QueueFull>)
        ensures
            ({
                let (staged2, accepted) = spawn_spec(
                    old(self).staged@,
                    old(self).capacity as nat,
                    c,
                );
                final(self).staged@ == staged2 && (r is Ok <==> accepted)
            }),
            final(self).capacity == old(self).capacity,
            old(self).wf() ==> final(self).wf(),
    {
        if self.staged.len() < self.capacity {
            self.staged.push(c);
            Ok(())
        } else {
            Err(QueueFull)
        }
    }
}

/// Construct a linked executor/spawner pair over a ready queue of the given
/// fixed capacity.
pub fn new_executor_and_spawner(queue_capacity: usize) -> (r: (Executor, Spawner))
    ensures
        r.0.tasks@.len() == 0,
        r.0.queue.items@.len() == 0,
        r.0.queue.capacity == queue_capacity,
        r.0.log@.len() == 0,
        r.1.capacity == queue_capacity,
        r.1.staged@.len() == 0,
        r.1.wf(),
{
    (
        Executor { tasks: Vec::new(), queue: ReadyQueue::new(queue_capacity), log: Vec::new() },
        Spawner { capacity: queue_capacity, staged: Vec::new() },
    )
}

/// The task table the driver starts from: each staged computation in its own
/// slot, nothing finished.
pub open spec fn ingest_tasks(cs: Seq<Computation>) -> Seq<Task> {
    Seq::new(cs.len(), |i: int| Task { slot: Some(cs[i]), finished: false })
}

/// The ready queue the driver starts from: every spawned task, in submission
/// order.
pub open spec fn initial_queue(n: nat) -> Seq<usize> {
    Seq::new(n, |i: int| i as usize)
}

/// The functional model of the driver loop.
///
/// While the queue holds a task: dequeue it; if its slot is empty, skip (the
/// task is finished — an expected race outcome, not an error); otherwise poll
/// the computation with a wake handle bound to the task, retiring it on
/// `Ready` and restoring the slot on `Pending`. At quiescence (empty queue),
/// consume the next external event: `Fire(i)` flips task `i`'s awaited
/// condition and invokes the surrendered waker, if one was registered;
/// `Wake(i)` resubmits task `i` unconditionally. The drive ends when queue
/// and tape are both exhausted, returning the final task table and log.
pub open spec fn sim(tasks: Seq<Task>, queue: Seq<usize>, events: Seq<Event>, log: Seq<Msg>) -> (
    Seq<Task>,
    Seq<Msg>,
)
    decreases queue.len() + 2 * events.len(),
{
    if queue.len() > 0 {
        let id = queue[0];
        let rest = queue.drop_first();
        if id < tasks.len() {
            match tasks[id as int].slot {
                None => sim(tasks, rest, events, log),
                Some(c) => {
                    let (c2, p, log2) = poll_comp_spec(c, WakeHandle { task_id: id }, log);
                    match p {
                        Poll::Ready => sim(
                            tasks.update(id as int, Task { slot: None, finished: true }),
                            rest,
                            events,
                            log2,
                        ),
                        Poll::Pending => sim(
                            tasks.update(id as int, Task { slot: Some(c2), finished: false }),
                            rest,
                            events,
                            log2,
                        ),
                    }
                },
            }
        } else {
            sim(tasks, rest, events, log)
        }
    } else if events.len() > 0 {
        let rest = events.drop_first();
        match events[0] {
            Event::Fire(id) => {
                if id < tasks.len() {
                    let (t2, w) = fire_task_spec(tasks[id as int]);
                    let queue2 = match w {
                        Some(h) => queue.push(h.task_id),
                        None => queue,
                    };
                    sim(tasks.update(id as int, t2), queue2, rest, log)
                } else {
                    sim(tasks, queue, rest, log)
                }
            },
            Event::Wake(id) => {
                if id < tasks.len() {
                    sim(tasks, queue.push(id), rest, log)
                } else {
                    sim(tasks, queue, rest, log)
                }
            },
        }
    } else {
        (tasks, log)
    }
}

impl Executor {
    /// Drive every spawned task to completion or to its last registered
    /// suspension. Consuming the spawner models the last write-handle being
    /// dropped: the drive returns only when the queue drains and the event
    /// tape — everything the outside world will ever deliver — is exhausted.
    ///
    /// The result is exactly the functional model's: the final task table and
    /// log equal [`sim`] of the ingested tasks, and the queue is drained. No
    /// resubmission can overflow the queue, because events are consumed only
    /// at quiescence and the table never exceeds the capacity the spawner
    /// enforced.
    pub fn run(&mut self, spawner: Spawner, events: &Vec<Event>)
        requires
            old(self).tasks@.len() == 0,
            old(self).queue.items@.len() == 0,
            old(self).log@.len() == 0,
            spawner.wf(),
            spawner.capacity == old(self).queue.capacity,
            forall|i: int|
                0 <= i < spawner.staged@.len() ==> !comp_complete(#[trigger] spawner.staged@[i]),
        ensures
            ({
                let r = sim(
                    ingest_tasks(spawner.staged@),
                    initial_queue(spawner.staged@.len()),
                    events@,
                    Seq::<Msg>::empty(),
                );
                final(self).tasks@ == r.0 && final(self).log@ == r.1
            }),
            final(self).queue.items@.len() == 0,
            final(self).tasks@.len() == spawner.staged@.len(),
            final(self).queue.capacity == old(self).queue.capacity,
            forall|i: int|
                0 <= i < final(self).tasks@.len() ==> task_ok(#[trigger] final(self).tasks@[i]),
    {
        let ghost init_sim = sim(
            ingest_tasks(spawner.staged@),
            initial_queue(spawner.staged@.len()),
            events@,
            Seq::<Msg>::empty(),
        );
        let n = spawner.staged.len();
        let mut i: usize = 0;
        while i < n
            invariant
                n == spawner.staged@.len(),
                i <= n,
                spawner.wf(),
                spawner.capacity == self.queue.capacity,
                self.queue.capacity == old(self).queue.capacity,
                self.tasks@.len() == i,
                self.queue.items@.len() == i,
                self.log@.len() == 0,
                forall|j: int|
                    0 <= j < i ==> self.tasks@[j] == (Task {
                        slot: Some(spawner.staged@[j]),
                        finished: false,
                    }),
                forall|j: int| 0 <= j < i ==> #[trigger] self.queue.items@[j] as int == j,
            decreases n - i,
        {
            let c = spawner.staged[i];
            self.tasks.push(Task { slot: Some(c), finished: false });
            self.queue.send(i);
            i += 1;
        }
        proof {
            assert(self.tasks@ =~= ingest_tasks(spawner.staged@));
            assert forall|j: int| 0 <= j < n implies self.queue.items@[j] == initial_queue(
                spawner.staged@.len(),
            )[j] by {
                assert(self.queue.items@[j] as int == j);
            }
            assert(self.queue.items@ =~= initial_queue(spawner.staged@.len()));
            assert(self.log@ =~= Seq::<Msg>::empty());
            assert(events@.skip(0) =~= events@);
        }
        let mut ei: usize = 0;
        loop
            invariant
                self.queue.capacity == old(self).queue.capacity,
                self.tasks@.len() == spawner.staged@.len(),
                self.tasks@.len() <= self.queue.capacity,
                self.queue.wf(),
                ei <= events@.len(),
                forall|j: int| 0 <= j < self.tasks@.len() ==> task_ok(#[trigger] self.tasks@[j]),
                sim(self.tasks@, self.queue.items@, events@.skip(ei as int), self.log@)
                    == init_sim,
            ensures
                self.queue.items@.len() == 0,
                ei == events@.len(),
            decreases self.queue.items@.len() + 2 * (events@.len() - ei),
        {
            let ghost tasks0 = self.tasks@;
            let ghost queue0 = self.queue.items@;
            let ghost log0 = self.log@;
            let ghost ev0 = events@.skip(ei as int);
            match self.queue.recv() {
                Some(id) => {
                    if id < self.tasks.len() {
                        let mut t = self.tasks[id];
                        let taken = t.begin_poll();
                        match taken {
                            None => {
                                // Spurious wake of a finished task: skip it.
                                proof {
                                    assert(sim(tasks0, queue0, ev0, log0) == sim(
                                        self.tasks@,
                                        self.queue.items@,
                                        events@.skip(ei as int),
                                        self.log@,
                                    ));
                                }
                            },
                            Some(mut c) => {
                                let ghost c0 = c;
                                let wake = WakeHandle { task_id: id };
                                let r = c.poll(wake, &mut self.log);
                                match r {
                                    Poll::Ready => t.retire(),
                                    Poll::Pending => t.restore(c),
                                }
                                self.tasks.set(id, t);
                                proof {
                                    let step = poll_comp_spec(c0, wake, log0);
                                    assert(self.log@ == step.2);
                                    assert(sim(tasks0, queue0, ev0, log0) == sim(
                                        self.tasks@,
                                        self.queue.items@,
                                        events@.skip(ei as int),
                                        self.log@,
                                    ));
                                }
                            },
                        }
                    } else {
                        proof {
                            assert(sim(tasks0, queue0, ev0, log0) == sim(
                                self.tasks@,
                                self.queue.items@,
                                events@.skip(ei as int),
                                self.log@,
                            ));
                        }
                    }
                },
                None => {
                    if ei < events.len() {
                        let ghost ei0 = ei as int;
                        let ev = events[ei];
                        match ev {
                            Event::Fire(id) => {
                                if id < self.tasks.len() {
                                    let mut t = self.tasks[id];
                                    let w = t.notify();
                                    self.tasks.set(id, t);
                                    match w {
                                        Some(h) => {
                                            self.queue.send(h.task_id);
                                        },
                                        None => {},
                                    }
                                }
                            },
                            Event::Wake(id) => {
                                if id < self.tasks.len() {
                                    self.queue.send(id);
                                }
                            },
                        }
                        ei += 1;
                        proof {
                            assert(ev0[0] == events@[ei0]);
                            assert(ev0.drop_first() =~= events@.skip(ei0 + 1));
                            assert(sim(tasks0, queue0, ev0, log0) == sim(
                                self.tasks@,
                                self.queue.items@,
                                events@.skip(ei as int),
                                self.log@,
                            ));
                        }
                    } else {
                        break;
                    }
                },
            }
        }
        proof {
            assert(events@.skip(ei as int) =~= Seq::<Event>::empty());
            assert(sim(self.tasks@, self.queue.items@, events@.skip(ei as int), self.log@) == (
                self.tasks@,
                self.log@,
            ));
        }
    }
}

} // verus!

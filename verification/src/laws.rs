//! The scheduler's guarantees, stated and proved over the functional model
//! [`sim`] that [`crate::executor::Executor::run`] computes exactly.

use vstd::prelude::*;

use crate::executor::ingest_tasks;
use crate::executor::initial_queue;
use crate::executor::sim;
use crate::executor::spawn_spec;
use crate::task::comp_complete;
use crate::task::comp_ready;
use crate::task::comp_waker;
use crate::task::fire_comp_spec;
use crate::task::fire_task_spec;
use crate::task::poll_comp_spec;
use crate::task::task_ok;
use crate::task::Computation;
use crate::task::Task;
use crate::Event;
use crate::Msg;
use crate::Poll;
use crate::WakeHandle;

verus! {

/// How many times the log reports task `id` as done.
pub open spec fn count_done(log: Seq<Msg>, id: usize) -> nat
    decreases log.len(),
{
    if log.len() == 0 {
        0
    } else {
        count_done(log.drop_last(), id) + (if log.last() == Msg::Done(id) {
            1nat
        } else {
            0nat
        })
    }
}

proof fn lemma_count_done_push(log: Seq<Msg>, m: Msg, id: usize)
    ensures
        count_done(log.push(m), id) == count_done(log, id) + (if m == Msg::Done(id) {
            1nat
        } else {
            0nat
        }),
{
    assert(log.push(m).drop_last() =~= log);
}

/// One poll extends the log by exactly one `Done` report — the polled task's
/// own — when it returns `Ready`, and by no `Done` report otherwise.
proof fn lemma_poll_log_counts(c: Computation, w: WakeHandle, log: Seq<Msg>, x: usize)
    ensures
        ({
            let (c2, p, log2) = poll_comp_spec(c, w, log);
            count_done(log2, x) == count_done(log, x) + (if p is Ready && x == w.task_id {
                1nat
            } else {
                0nat
            })
        }),
{
    match c {
        Computation::Immediate { .. } => {
            lemma_count_done_push(log, Msg::Done(w.task_id), x);
        },
        Computation::AwaitTimer(t) => {
            let log1 = if !t.started {
                log.push(Msg::Started(w.task_id))
            } else {
                log
            };
            if !t.started {
                lemma_count_done_push(log, Msg::Started(w.task_id), x);
            }
            if t.timer.completed {
                lemma_count_done_push(log1, Msg::Done(w.task_id), x);
            }
        },
    }
}

/// The table/log relation every reachable drive state satisfies: the log
/// reports done exactly the finished tasks, once each, and no task outside
/// the table.
pub open spec fn counts_ok(tasks: Seq<Task>, log: Seq<Msg>) -> bool {
    forall|id: usize|
        #[trigger] count_done(log, id) == if id < tasks.len() && tasks[id as int].finished {
            1nat
        } else {
            0nat
        }
}

proof fn lemma_sim_counts(tasks: Seq<Task>, queue: Seq<usize>, events: Seq<Event>, log: Seq<Msg>)
    requires
        forall|j: int| 0 <= j < tasks.len() ==> task_ok(#[trigger] tasks[j]),
        counts_ok(tasks, log),
    ensures
        ({
            let (t2, l2) = sim(tasks, queue, events, log);
            t2.len() == tasks.len() && counts_ok(t2, l2)
        }),
    decreases queue.len() + 2 * events.len(),
{
    if queue.len() > 0 {
        let id = queue[0];
        let rest = queue.drop_first();
        if id < tasks.len() {
            match tasks[id as int].slot {
                None => {
                    lemma_sim_counts(tasks, rest, events, log);
                },
                Some(c) => {
                    let w = WakeHandle { task_id: id };
                    let (c2, p, log2) = poll_comp_spec(c, w, log);
                    assert forall|x: usize| #[trigger]
                        count_done(log2, x) == count_done(log, x) + (if p is Ready && x == id {
                            1nat
                        } else {
                            0nat
                        }) by {
                        lemma_poll_log_counts(c, w, log, x);
                    }
                    match p {
                        Poll::Ready => {
                            let tasks2 = tasks.update(
                                id as int,
                                Task { slot: None, finished: true },
                            );
                            assert(counts_ok(tasks2, log2));
                            lemma_sim_counts(tasks2, rest, events, log2);
                        },
                        Poll::Pending => {
                            let tasks2 = tasks.update(
                                id as int,
                                Task { slot: Some(c2), finished: false },
                            );
                            assert(counts_ok(tasks2, log2));
                            lemma_sim_counts(tasks2, rest, events, log2);
                        },
                    }
                },
            }
        } else {
            lemma_sim_counts(tasks, rest, events, log);
        }
    } else if events.len() > 0 {
        let rest = events.drop_first();
        match events[0] {
            Event::Fire(id) => {
                if id < tasks.len() {
                    let (t2, w) = fire_task_spec(tasks[id as int]);
                    let queue2 = match w {
                        Some(h) => queue.push(h.task_id),
                        None => queue,
                    };
                    lemma_sim_counts(tasks.update(id as int, t2), queue2, rest, log);
                } else {
                    lemma_sim_counts(tasks, queue, rest, log);
                }
            },
            Event::Wake(id) => {
                if id < tasks.len() {
                    lemma_sim_counts(tasks, queue.push(id), rest, log);
                } else {
                    lemma_sim_counts(tasks, queue, rest, log);
                }
            },
        }
    }
}

/// Wake idempotence: however many redundant wake or fire events the tape
/// holds — a task resubmitted while already queued, a timer fired after its
/// task finished — a drive delivers each task's completion at most once.
pub proof fn lemma_wake_idempotence(staged: Seq<Computation>, events: Seq<Event>)
    requires
        forall|i: int| 0 <= i < staged.len() ==> !comp_complete(#[trigger] staged[i]),
    ensures
        ({
            let (t2, l2) = sim(
                ingest_tasks(staged),
                initial_queue(staged.len()),
                events,
                Seq::<Msg>::empty(),
            );
            forall|id: usize| #[trigger] count_done(l2, id) <= 1 && (count_done(l2, id) == 1 <==> id
                < t2.len() && t2[id as int].finished)
        }),
{
    let tasks = ingest_tasks(staged);
    assert forall|j: int| 0 <= j < tasks.len() implies task_ok(#[trigger] tasks[j]) by {
        assert(tasks[j] == (Task { slot: Some(staged[j]), finished: false }));
    }
    assert forall|id: usize| #[trigger]
        count_done(Seq::<Msg>::empty(), id) == if id < tasks.len() && tasks[id as int].finished {
            1nat
        } else {
            0nat
        } by {
        if id < tasks.len() {
            assert(tasks[id as int] == (Task { slot: Some(staged[id as int]), finished: false }));
        }
    }
    lemma_sim_counts(tasks, initial_queue(staged.len()), events, Seq::<Msg>::empty());
}

/// The wake handle a task has registered, if any.
pub open spec fn task_waker(t: Task) -> Option<WakeHandle> {
    match t.slot {
        None => None,
        Some(c) => comp_waker(c),
    }
}

/// The tape still carries a fire event for task `id`.
pub open spec fn has_fire(events: Seq<Event>, id: usize) -> bool {
    exists|k: int| 0 <= k < events.len() && events[k] == Event::Fire(id)
}

/// The per-task progress condition a drive maintains: an unfinished task is
/// queued, or has interest registered under its own identifier; interest is
/// only ever registered in a not-yet-ready condition; and a task whose
/// awaited condition is not yet ready still has its fire event ahead on the
/// tape.
pub open spec fn live_task_ok(
    tasks: Seq<Task>,
    queue: Seq<usize>,
    events: Seq<Event>,
    i: int,
) -> bool {
    let t = tasks[i];
    &&& task_ok(t)
    &&& (!t.finished ==> queue.contains(i as usize) || (task_waker(t) matches Some(w)
        && w.task_id as int == i))
    &&& (t.slot matches Some(c) ==> (comp_waker(c) is Some ==> !comp_ready(c)))
    &&& (t.slot matches Some(c) && !comp_ready(c) ==> has_fire(events, i as usize))
}

pub open spec fn live_ok(tasks: Seq<Task>, queue: Seq<usize>, events: Seq<Event>) -> bool {
    forall|i: int| 0 <= i < tasks.len() ==> #[trigger] live_task_ok(tasks, queue, events, i)
}

proof fn lemma_drop_first_keeps(queue: Seq<usize>, j: usize)
    requires
        queue.len() > 0,
        queue.contains(j),
        queue[0] != j,
    ensures
        queue.drop_first().contains(j),
{
    let k = choose|k: int| 0 <= k < queue.len() && queue[k] == j;
    assert(queue.drop_first()[k - 1] == j);
}

proof fn lemma_fire_shift(events: Seq<Event>, j: usize)
    requires
        events.len() > 0,
        has_fire(events, j),
        events[0] != Event::Fire(j),
    ensures
        has_fire(events.drop_first(), j),
{
    let k = choose|k: int| 0 <= k < events.len() && events[k] == Event::Fire(j);
    assert(events.drop_first()[k - 1] == Event::Fire(j));
}

proof fn lemma_sim_live(tasks: Seq<Task>, queue: Seq<usize>, events: Seq<Event>, log: Seq<Msg>)
    requires
        tasks.len() <= usize::MAX,
        live_ok(tasks, queue, events),
    ensures
        ({
            let (t2, l2) = sim(tasks, queue, events, log);
            t2.len() == tasks.len() && forall|i: int|
                0 <= i < t2.len() ==> (#[trigger] t2[i]).finished
        }),
    decreases queue.len() + 2 * events.len(),
{
    if queue.len() > 0 {
        let id = queue[0];
        let rest = queue.drop_first();
        if id < tasks.len() {
            assert(live_task_ok(tasks, queue, events, id as int));
            match tasks[id as int].slot {
                None => {
                    assert forall|i: int| 0 <= i < tasks.len() implies live_task_ok(
                        tasks,
                        rest,
                        events,
                        i,
                    ) by {
                        assert(live_task_ok(tasks, queue, events, i));
                        if !tasks[i].finished && queue.contains(i as usize) && i as usize != id {
                            lemma_drop_first_keeps(queue, i as usize);
                        }
                    }
                    lemma_sim_live(tasks, rest, events, log);
                },
                Some(c) => {
                    let w = WakeHandle { task_id: id };
                    let (c2, p, log2) = poll_comp_spec(c, w, log);
                    let t2 = match p {
                        Poll::Ready => Task { slot: None, finished: true },
                        Poll::Pending => Task { slot: Some(c2), finished: false },
                    };
                    let tasks2 = tasks.update(id as int, t2);
                    assert forall|i: int| 0 <= i < tasks2.len() implies live_task_ok(
                        tasks2,
                        rest,
                        events,
                        i,
                    ) by {
                        assert(live_task_ok(tasks, queue, events, i));
                        if i == id as int {
                            assert(live_task_ok(tasks2, rest, events, i));
                        } else {
                            if !tasks[i].finished && queue.contains(i as usize) {
                                lemma_drop_first_keeps(queue, i as usize);
                            }
                        }
                    }
                    lemma_sim_live(tasks2, rest, events, log2);
                },
            }
        } else {
            assert forall|i: int| 0 <= i < tasks.len() implies live_task_ok(
                tasks,
                rest,
                events,
                i,
            ) by {
                assert(live_task_ok(tasks, queue, events, i));
                if !tasks[i].finished && queue.contains(i as usize) {
                    lemma_drop_first_keeps(queue, i as usize);
                }
            }
            lemma_sim_live(tasks, rest, events, log);
        }
    } else if events.len() > 0 {
        let rest = events.drop_first();
        match events[0] {
            Event::Fire(id) => {
                if id < tasks.len() {
                    assert(live_task_ok(tasks, queue, events, id as int));
                    let (t2, w) = fire_task_spec(tasks[id as int]);
                    match tasks[id as int].slot {
                        None => {
                            assert forall|i: int| 0 <= i < tasks.len() implies live_task_ok(
                                tasks.update(id as int, t2),
                                queue,
                                rest,
                                i,
                            ) by {
                                assert(live_task_ok(tasks, queue, events, i));
                                assert(tasks.update(id as int, t2)[i] == tasks[i]);
                                if tasks[i].slot matches Some(ci) && !comp_ready(ci) {
                                    lemma_fire_shift(events, i as usize);
                                }
                            }
                            lemma_sim_live(tasks.update(id as int, t2), queue, rest, log);
                        },
                        Some(c) => {
                            // The queue is empty, so an unfinished task must
                            // have registered interest, under its own
                            // identifier.
                            assert(!tasks[id as int].finished);
                            assert(comp_waker(c) matches Some(h) && h.task_id == id);
                            let queue2 = queue.push(id);
                            assert(queue2[0] == id);
                            assert(queue2.contains(id));
                            let tasks2 = tasks.update(id as int, t2);
                            assert forall|i: int| 0 <= i < tasks2.len() implies live_task_ok(
                                tasks2,
                                queue2,
                                rest,
                                i,
                            ) by {
                                assert(live_task_ok(tasks, queue, events, i));
                                if i == id as int {
                                    assert(comp_ready(fire_comp_spec(c).0));
                                    assert(comp_waker(fire_comp_spec(c).0) is None);
                                    assert(live_task_ok(tasks2, queue2, rest, i));
                                } else {
                                    if tasks[i].slot matches Some(ci) && !comp_ready(ci) {
                                        lemma_fire_shift(events, i as usize);
                                    }
                                }
                            }
                            lemma_sim_live(tasks2, queue2, rest, log);
                        },
                    }
                } else {
                    assert forall|i: int| 0 <= i < tasks.len() implies live_task_ok(
                        tasks,
                        queue,
                        rest,
                        i,
                    ) by {
                        assert(live_task_ok(tasks, queue, events, i));
                        if tasks[i].slot matches Some(ci) && !comp_ready(ci) {
                            lemma_fire_shift(events, i as usize);
                        }
                    }
                    lemma_sim_live(tasks, queue, rest, log);
                }
            },
            Event::Wake(id) => {
                let queue2 = if id < tasks.len() {
                    queue.push(id)
                } else {
                    queue
                };
                assert forall|i: int| 0 <= i < tasks.len() implies live_task_ok(
                    tasks,
                    queue2,
                    rest,
                    i,
                ) by {
                    assert(live_task_ok(tasks, queue, events, i));
                    if !tasks[i].finished && queue.contains(i as usize) {
                        let k = choose|k: int| 0 <= k < queue.len() && queue[k] == i as usize;
                        assert(queue2[k] == i as usize);
                        assert(queue2.contains(i as usize));
                    }
                    if tasks[i].slot matches Some(ci) && !comp_ready(ci) {
                        lemma_fire_shift(events, i as usize);
                    }
                }
                if id < tasks.len() {
                    lemma_sim_live(tasks, queue2, rest, log);
                } else {
                    lemma_sim_live(tasks, queue, rest, log);
                }
            },
        }
    } else {
        assert forall|i: int| 0 <= i < tasks.len() implies (#[trigger] tasks[i]).finished by {
            assert(live_task_ok(tasks, queue, events, i));
            if !tasks[i].finished {
                assert(!queue.contains(i as usize));
                assert(task_waker(tasks[i]) matches Some(w) && w.task_id as int == i);
                assert(!has_fire(events, i as usize));
                assert(false);
            }
        }
    }
}

/// Completion: with a correctly wired wake path — a fire event somewhere on
/// the tape for every spawned computation that must await its readiness
/// source — the drive finishes every spawned task and then drains.
pub proof fn lemma_run_completion(staged: Seq<Computation>, events: Seq<Event>)
    requires
        staged.len() <= usize::MAX,
        forall|i: int|
            0 <= i < staged.len() ==> !comp_complete(#[trigger] staged[i]) && comp_waker(staged[i])
                is None,
        forall|i: int|
            0 <= i < staged.len() && !comp_ready(#[trigger] staged[i]) ==> has_fire(
                events,
                i as usize,
            ),
    ensures
        ({
            let (t2, l2) = sim(
                ingest_tasks(staged),
                initial_queue(staged.len()),
                events,
                Seq::<Msg>::empty(),
            );
            t2.len() == staged.len() && forall|i: int|
                0 <= i < t2.len() ==> (#[trigger] t2[i]).finished
        }),
{
    let tasks = ingest_tasks(staged);
    let queue = initial_queue(staged.len());
    assert forall|i: int| 0 <= i < tasks.len() implies live_task_ok(tasks, queue, events, i) by {
        assert(tasks[i] == (Task { slot: Some(staged[i]), finished: false }));
        assert(queue[i] == i as usize);
        assert(queue.contains(i as usize));
    }
    lemma_sim_live(tasks, queue, events, Seq::<Msg>::empty());
}

/// One completion report per queued task, in queue order.
pub open spec fn done_msgs(queue: Seq<usize>) -> Seq<Msg> {
    queue.map_values(|id: usize| Msg::Done(id))
}

/// FIFO: enqueue order is the poll order, so when every queued task holds a
/// computation that completes on its first poll, completions are delivered
/// exactly in enqueue order.
pub proof fn lemma_fifo_completion_order(tasks: Seq<Task>, queue: Seq<usize>, log: Seq<Msg>)
    requires
        queue.no_duplicates(),
        forall|k: int|
            0 <= k < queue.len() ==> #[trigger] queue[k] < tasks.len()
                && tasks[queue[k] as int].slot == Some(Computation::Immediate { done: false }),
    ensures
        sim(tasks, queue, Seq::<Event>::empty(), log).1 == log + done_msgs(queue),
    decreases queue.len(),
{
    if queue.len() == 0 {
        assert(log + done_msgs(queue) =~= log);
    } else {
        let id = queue[0];
        let rest = queue.drop_first();
        let log2 = log.push(Msg::Done(id));
        let tasks2 = tasks.update(id as int, Task { slot: None, finished: true });
        assert forall|i: int, j: int| 0 <= i < j < rest.len() implies rest[i] != rest[j] by {
            assert(queue[i + 1] != queue[j + 1]);
        }
        assert forall|k: int| 0 <= k < rest.len() implies #[trigger] rest[k] < tasks2.len()
            && tasks2[rest[k] as int].slot == Some(Computation::Immediate { done: false }) by {
            assert(rest[k] == queue[k + 1]);
            assert(queue[k + 1] != queue[0]);
        }
        lemma_fifo_completion_order(tasks2, rest, log2);
        assert(log2 + done_msgs(rest) =~= log + done_msgs(queue));
    }
}

/// Repeated spawning, in submission order; accepted in full or not.
pub open spec fn spawn_all(staged: Seq<Computation>, capacity: nat, cs: Seq<Computation>) -> (
    Seq<Computation>,
    bool,
)
    decreases cs.len(),
{
    if cs.len() == 0 {
        (staged, true)
    } else {
        let (s2, ok) = spawn_spec(staged, capacity, cs[0]);
        let (s3, rest_ok) = spawn_all(s2, capacity, cs.drop_first());
        (s3, ok && rest_ok)
    }
}

/// Queue capacity enforcement: a batch of spawns is accepted in full exactly
/// when it fits the room the capacity leaves — so spawning exactly the
/// capacity from a fresh spawner succeeds, and spawning beyond it fails
/// deterministically.
pub proof fn lemma_spawn_capacity(staged: Seq<Computation>, capacity: nat, cs: Seq<Computation>)
    requires
        staged.len() <= capacity,
    ensures
        spawn_all(staged, capacity, cs).1 <==> staged.len() + cs.len() <= capacity,
        spawn_all(staged, capacity, cs).1 ==> spawn_all(staged, capacity, cs).0 == staged + cs,
    decreases cs.len(),
{
    if cs.len() == 0 {
        assert(staged + cs =~= staged);
    } else {
        let (s2, ok) = spawn_spec(staged, capacity, cs[0]);
        lemma_spawn_capacity(s2, capacity, cs.drop_first());
        if staged.len() < capacity {
            if spawn_all(staged, capacity, cs).1 {
                assert(staged.push(cs[0]) + cs.drop_first() =~= staged + cs);
            }
        }
    }
}

} // verus!

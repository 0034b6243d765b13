use async_runtime::queue::ReadyQueue;
use async_runtime::task::Computation;
use async_runtime::task::Task;
use async_runtime::Event;
use async_runtime::Poll;
use async_runtime::QueueFull;
use async_runtime::WakeHandle;

#[test]
fn queue_preserves_fifo_order() {
    let mut q = ReadyQueue::new(4);
    assert_eq!(q.try_send(2), Ok(()));
    assert_eq!(q.try_send(0), Ok(()));
    assert_eq!(q.try_send(1), Ok(()));
    assert_eq!(q.recv(), Some(2));
    assert_eq!(q.recv(), Some(0));
    assert_eq!(q.recv(), Some(1));
    assert_eq!(q.recv(), None);
}

#[test]
fn queue_rejects_enqueue_at_capacity() {
    let mut q = ReadyQueue::new(2);
    assert_eq!(q.try_send(0), Ok(()));
    assert_eq!(q.try_send(1), Ok(()));
    assert_eq!(q.try_send(2), Err(QueueFull));
    assert_eq!(q.len(), 2);
    // Draining one slot makes room again.
    assert_eq!(q.recv(), Some(0));
    assert_eq!(q.try_send(2), Ok(()));
}

#[test]
fn queue_of_capacity_zero_rejects_everything() {
    let mut q = ReadyQueue::new(0);
    assert_eq!(q.try_send(0), Err(QueueFull));
    assert_eq!(q.recv(), None);
}

#[test]
fn slot_is_held_by_at_most_one_poll() {
    // An instrumented poll attempt: whoever takes the slot owns the
    // computation exclusively; a second attempt acquires nothing and skips.
    let mut t = Task::new(Computation::immediate());
    let first = t.begin_poll();
    assert!(first.is_some());
    let second = t.begin_poll();
    assert!(second.is_none());
}

#[test]
fn restore_makes_the_task_pollable_again() {
    let mut t = Task::new(Computation::await_timer(10));
    let c = t.begin_poll().unwrap();
    t.restore(c);
    assert!(t.slot.is_some());
    assert!(!t.finished);
}

#[test]
fn retire_drops_the_computation_for_good() {
    let mut t = Task::new(Computation::immediate());
    let _ = t.begin_poll().unwrap();
    t.retire();
    assert!(t.finished);
    assert!(t.slot.is_none());
    assert!(t.begin_poll().is_none());
}

#[test]
fn wake_handle_invocation_is_the_requeue_event() {
    let w = WakeHandle { task_id: 7 };
    assert_eq!(w.wake_by_ref(), Event::Wake(7));
    // Invoking it again from anywhere yields the same harmless resubmission.
    assert_eq!(w.wake_by_ref(), Event::Wake(7));
}

#[test]
fn immediate_computation_completes_on_first_poll() {
    let mut c = Computation::immediate();
    let mut log = Vec::new();
    let r = c.poll(WakeHandle { task_id: 0 }, &mut log);
    assert_eq!(r, Poll::Ready);
    assert!(async_runtime::poll_is_ready(&r));
}

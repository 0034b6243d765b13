use async_runtime::timer::TimerFuture;
use async_runtime::Poll;
use async_runtime::WakeHandle;

#[test]
fn new_timer_is_not_completed() {
    let t = TimerFuture::new(250);
    assert_eq!(t.duration_ms, 250);
    assert!(!t.completed);
    assert!(t.waker.is_none());
}

#[test]
fn poll_before_fire_is_pending_and_registers_interest() {
    let mut t = TimerFuture::new(10);
    let r = t.poll(WakeHandle { task_id: 3 });
    assert_eq!(r, Poll::Pending);
    assert_eq!(t.waker, Some(WakeHandle { task_id: 3 }));
    assert!(!t.completed);
}

#[test]
fn poll_overwrites_previous_interest() {
    let mut t = TimerFuture::new(10);
    assert_eq!(t.poll(WakeHandle { task_id: 1 }), Poll::Pending);
    assert_eq!(t.poll(WakeHandle { task_id: 2 }), Poll::Pending);
    assert_eq!(t.waker, Some(WakeHandle { task_id: 2 }));
}

#[test]
fn fire_surrenders_the_registered_waker_once() {
    let mut t = TimerFuture::new(10);
    assert_eq!(t.poll(WakeHandle { task_id: 7 }), Poll::Pending);
    let w = t.fire();
    assert_eq!(w, Some(WakeHandle { task_id: 7 }));
    assert!(t.completed);
    // A second fire finds no waker to invoke and keeps the timer completed.
    assert_eq!(t.fire(), None);
    assert!(t.completed);
}

#[test]
fn fire_without_registered_interest_wakes_nobody() {
    let mut t = TimerFuture::new(0);
    assert_eq!(t.fire(), None);
    assert!(t.completed);
}

#[test]
fn polls_after_readiness_all_observe_readiness() {
    // Timer monotonicity on concrete values: once one poll sees Ready, every
    // later poll does too, and the waker is never touched again.
    let mut t = TimerFuture::new(5);
    assert_eq!(t.poll(WakeHandle { task_id: 0 }), Poll::Pending);
    t.fire();
    assert_eq!(t.poll(WakeHandle { task_id: 1 }), Poll::Ready);
    assert_eq!(t.poll(WakeHandle { task_id: 2 }), Poll::Ready);
    assert_eq!(t.poll(WakeHandle { task_id: 3 }), Poll::Ready);
    assert_eq!(t.waker, None);
}

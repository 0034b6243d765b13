use async_runtime::executor::new_executor_and_spawner;
use async_runtime::task::Computation;
use async_runtime::Event;
use async_runtime::Msg;
use async_runtime::QueueFull;

fn done_count(log: &[Msg], id: usize) -> usize {
    log.iter().filter(|m| **m == Msg::Done(id)).count()
}

#[test]
fn spawning_exactly_capacity_succeeds_and_one_more_fails() {
    let (_executor, mut spawner) = new_executor_and_spawner(3);
    assert_eq!(spawner.spawn(Computation::immediate()), Ok(()));
    assert_eq!(spawner.spawn(Computation::immediate()), Ok(()));
    assert_eq!(spawner.spawn(Computation::immediate()), Ok(()));
    assert_eq!(spawner.spawn(Computation::immediate()), Err(QueueFull));
    // The rejected computation was not kept.
    assert_eq!(spawner.staged.len(), 3);
}

#[test]
fn spawning_on_capacity_zero_fails_deterministically() {
    let (_executor, mut spawner) = new_executor_and_spawner(0);
    assert_eq!(spawner.spawn(Computation::immediate()), Err(QueueFull));
    assert_eq!(spawner.spawn(Computation::await_timer(1)), Err(QueueFull));
}

#[test]
fn run_completes_an_immediate_computation_without_events() {
    let (mut executor, mut spawner) = new_executor_and_spawner(4);
    spawner.spawn(Computation::immediate()).unwrap();
    executor.run(spawner, &Vec::new());
    assert_eq!(executor.tasks.len(), 1);
    assert!(executor.tasks[0].finished);
    assert!(executor.tasks[0].slot.is_none());
    assert_eq!(executor.queue.items.len(), 0);
    assert_eq!(executor.log, vec![Msg::Done(0)]);
}

#[test]
fn run_reports_start_then_done_exactly_once() {
    // Spawn a computation that reports its start, awaits a 0-duration timer,
    // and reports completion; after the drive both reports occurred, in that
    // order, exactly once.
    let (mut executor, mut spawner) = new_executor_and_spawner(8);
    spawner.spawn(Computation::await_timer(0)).unwrap();
    executor.run(spawner, &vec![Event::Fire(0)]);
    assert!(executor.tasks[0].finished);
    assert_eq!(executor.log, vec![Msg::Started(0), Msg::Done(0)]);
    assert_eq!(executor.queue.items.len(), 0);
}

#[test]
fn redundant_wakes_cause_no_duplicate_completion() {
    // The task is woken well beyond what its completion needs: once queued or
    // finished, further wakes at most cause a redundant poll that observes no
    // new work. Exactly one completion is delivered.
    let (mut executor, mut spawner) = new_executor_and_spawner(8);
    spawner.spawn(Computation::await_timer(5)).unwrap();
    let events = vec![
        Event::Wake(0),
        Event::Fire(0),
        Event::Wake(0),
        Event::Wake(0),
    ];
    executor.run(spawner, &events);
    assert!(executor.tasks[0].finished);
    assert_eq!(done_count(&executor.log, 0), 1);
    assert_eq!(
        executor.log.iter().filter(|m| **m == Msg::Started(0)).count(),
        1
    );
}

#[test]
fn firing_a_finished_task_again_is_harmless() {
    let (mut executor, mut spawner) = new_executor_and_spawner(4);
    spawner.spawn(Computation::await_timer(1)).unwrap();
    executor.run(spawner, &vec![Event::Fire(0), Event::Fire(0), Event::Wake(0)]);
    assert!(executor.tasks[0].finished);
    assert_eq!(done_count(&executor.log, 0), 1);
}

#[test]
fn wake_without_readiness_only_causes_a_redundant_poll() {
    // A wake with nothing ready re-polls the task, which parks itself again;
    // the later fire still completes it.
    let (mut executor, mut spawner) = new_executor_and_spawner(4);
    spawner.spawn(Computation::await_timer(9)).unwrap();
    executor.run(spawner, &vec![Event::Wake(0), Event::Wake(0), Event::Fire(0)]);
    assert!(executor.tasks[0].finished);
    assert_eq!(executor.log, vec![Msg::Started(0), Msg::Done(0)]);
}

#[test]
fn a_task_whose_timer_never_fires_stays_parked() {
    let (mut executor, mut spawner) = new_executor_and_spawner(4);
    spawner.spawn(Computation::await_timer(1000)).unwrap();
    executor.run(spawner, &Vec::new());
    assert!(!executor.tasks[0].finished);
    assert!(executor.tasks[0].slot.is_some());
    assert_eq!(done_count(&executor.log, 0), 0);
    // The drive still drained the queue and returned.
    assert_eq!(executor.queue.items.len(), 0);
}

#[test]
fn events_naming_no_spawned_task_are_ignored() {
    let (mut executor, mut spawner) = new_executor_and_spawner(4);
    spawner.spawn(Computation::immediate()).unwrap();
    executor.run(spawner, &vec![Event::Fire(9), Event::Wake(9)]);
    assert!(executor.tasks[0].finished);
    assert_eq!(executor.log, vec![Msg::Done(0)]);
}

#[test]
fn distinct_durations_all_complete_whatever_the_wake_order() {
    // Wake arrival order, not duration, drives requeue order: fire the
    // longest timer first. The only guarantee asserted is that every task
    // completes.
    let (mut executor, mut spawner) = new_executor_and_spawner(16);
    spawner.spawn(Computation::await_timer(10)).unwrap();
    spawner.spawn(Computation::await_timer(20)).unwrap();
    spawner.spawn(Computation::await_timer(30)).unwrap();
    spawner.spawn(Computation::await_timer(40)).unwrap();
    let events = vec![
        Event::Fire(3),
        Event::Fire(1),
        Event::Fire(2),
        Event::Fire(0),
    ];
    executor.run(spawner, &events);
    for id in 0..4 {
        assert!(executor.tasks[id].finished);
        assert_eq!(done_count(&executor.log, id), 1);
    }
    assert_eq!(executor.queue.items.len(), 0);
}

#[test]
fn a_full_batch_of_spawns_is_driven_to_completion() {
    // Exactly capacity many tasks before any are drained: all accepted, all
    // completed.
    let capacity = 5;
    let (mut executor, mut spawner) = new_executor_and_spawner(capacity);
    for _ in 0..capacity {
        assert_eq!(spawner.spawn(Computation::immediate()), Ok(()));
    }
    executor.run(spawner, &Vec::new());
    for id in 0..capacity {
        assert!(executor.tasks[id].finished);
        assert_eq!(done_count(&executor.log, id), 1);
    }
    // Enqueue order is poll order: completions arrive in spawn order.
    let expected: Vec<Msg> = (0..capacity).map(Msg::Done).collect();
    assert_eq!(executor.log, expected);
}

#[test]
fn mixed_computations_complete_independently() {
    let (mut executor, mut spawner) = new_executor_and_spawner(8);
    spawner.spawn(Computation::immediate()).unwrap();
    spawner.spawn(Computation::await_timer(7)).unwrap();
    spawner.spawn(Computation::immediate()).unwrap();
    executor.run(spawner, &vec![Event::Fire(1)]);
    assert!(executor.tasks[0].finished);
    assert!(executor.tasks[1].finished);
    assert!(executor.tasks[2].finished);
    assert_eq!(done_count(&executor.log, 0), 1);
    assert_eq!(done_count(&executor.log, 1), 1);
    assert_eq!(done_count(&executor.log, 2), 1);
}

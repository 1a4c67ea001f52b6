use std::cell::Cell;
use std::collections::hash_map::DefaultHasher;
use std::hash::Hash;
use std::hash::Hasher;
use std::rc::Rc;

use pros_core::Builder;
use pros_core::task::ENOMEM;
use pros_core::SimScheduler;
use pros_core::SpawnError;
use pros_core::TaskPriority;
use pros_core::TaskStackDepth;
use pros_core::TaskState;
use pros_core::current;
use pros_core::get_notification;
use pros_core::spawn;

#[test]
fn spawned_closure_runs_exactly_once_when_joined() {
    // A closure that increments a shared counter: after join the counter is
    // incremented by exactly one.
    let counter = Rc::new(Cell::new(0u32));
    let shared = counter.clone();
    let mut sched = SimScheduler::new();
    let handle = spawn(
        move || {
            shared.set(shared.get() + 1);
        },
        &mut sched,
    );
    assert_eq!(counter.get(), 0);
    handle.join(&mut sched);
    assert_eq!(counter.get(), 1);
    // joining reclaimed the record: only the main task is left
    assert_eq!(sched.task_count(), 1);
}

#[test]
fn failed_spawn_returns_tcb_not_created_and_never_runs_the_closure() {
    // Under simulated allocation failure, spawn fails with TCBNotCreated,
    // the closure never runs, and its captures are reclaimed (no leak).
    let counter = Rc::new(Cell::new(0u32));
    let shared = counter.clone();
    let mut sched = SimScheduler::new();
    sched.set_create_failure(Some(ENOMEM));
    let spawned = Builder::new().spawn(
        move || {
            shared.set(shared.get() + 1);
        },
        &mut sched,
    );
    assert_eq!(spawned.unwrap_err(), SpawnError::TCBNotCreated);
    assert_eq!(counter.get(), 0);
    assert_eq!(sched.task_count(), 1);
    // the closure's capture was dropped, not leaked
    assert_eq!(Rc::strong_count(&counter), 1);
}

#[test]
fn handles_to_the_same_task_compare_equal_and_hash_identically() {
    let mut sched = SimScheduler::new();
    let first = spawn(|| {}, &mut sched);
    let second = first.clone();
    assert_eq!(first, second);
    let mut h1 = DefaultHasher::new();
    first.hash(&mut h1);
    let mut h2 = DefaultHasher::new();
    second.hash(&mut h2);
    assert_eq!(h1.finish(), h2.finish());
    // two handles obtained independently for the same underlying task
    let c1 = current(&sched);
    let c2 = current(&sched);
    assert_eq!(c1, c2);
    assert_ne!(c1, first);
}

#[test]
fn freshly_spawned_task_is_ready_or_running() {
    // priority Low, stack Default, name "worker": immediately after
    // creation, state() is Ready or Running, never Deleted or Invalid.
    let mut sched = SimScheduler::new();
    let handle = Builder::new()
        .name("worker")
        .priority(TaskPriority::Low)
        .stack_depth(TaskStackDepth::Default)
        .spawn(|| {}, &mut sched)
        .unwrap();
    let state = handle.state(&sched);
    assert!(matches!(state, TaskState::Ready | TaskState::Running));
    assert!(!matches!(state, TaskState::Deleted | TaskState::Invalid));
    assert_eq!(handle.name(&sched).unwrap(), "worker");
}

#[test]
fn builder_defaults_apply() {
    let mut sched = SimScheduler::new();
    let handle = Builder::new().spawn(|| {}, &mut sched).unwrap();
    assert_eq!(handle.name(&sched).unwrap(), "<unnamed>");
    assert_eq!(handle.state(&sched), TaskState::Ready);
}

#[test]
fn pause_and_unpause_move_the_task_between_states() {
    let mut sched = SimScheduler::new();
    let handle = spawn(|| {}, &mut sched);
    handle.pause(&mut sched);
    assert_eq!(handle.state(&sched), TaskState::Suspended);
    handle.unpause(&mut sched);
    assert_eq!(handle.state(&sched), TaskState::Ready);
    // unpausing a task that is not suspended leaves it alone
    handle.unpause(&mut sched);
    assert_eq!(handle.state(&sched), TaskState::Ready);
}

#[test]
fn abort_deletes_the_task_without_running_it() {
    let counter = Rc::new(Cell::new(0u32));
    let shared = counter.clone();
    let mut sched = SimScheduler::new();
    let handle = spawn(
        move || {
            shared.set(shared.get() + 1);
        },
        &mut sched,
    );
    let stale = handle.clone();
    handle.abort(&mut sched);
    // the work never ran and was discarded, not leaked
    assert_eq!(counter.get(), 0);
    assert_eq!(Rc::strong_count(&counter), 1);
    // any state goes to Deleted via abort; aliasing handles observe it
    assert_eq!(stale.state(&sched), TaskState::Deleted);
    assert_eq!(stale.name(&sched).unwrap(), "<unnamed>");
}

#[test]
fn stale_handle_after_join_reads_the_invalid_catch_all() {
    let mut sched = SimScheduler::new();
    let handle = spawn(|| {}, &mut sched);
    let stale = handle.clone();
    handle.join(&mut sched);
    // join reclaimed the record: an unrecognized identifier reads Invalid
    assert_eq!(stale.state(&sched), TaskState::Invalid);
    assert!(stale.name(&sched).is_none());
}

#[test]
fn failed_spawn_with_an_unmapped_code_returns_the_opaque_fallback() {
    // any native failure other than resource exhaustion passes through as
    // the opaque variant carrying the raw code
    let mut sched = SimScheduler::<fn()>::new();
    sched.set_create_failure(Some(5));
    let noop: fn() = || {};
    let spawned = Builder::new().spawn(noop, &mut sched);
    assert_eq!(spawned.unwrap_err(), SpawnError::Errno(5));
    assert_eq!(sched.task_count(), 1);
    // creation succeeds again once the failure is cleared
    sched.set_create_failure(None);
    assert!(Builder::new().spawn(noop, &mut sched).is_ok());
}

#[test]
fn notify_delivers_a_wake_signal() {
    let mut sched = SimScheduler::<fn()>::new();
    let me = current(&sched);
    me.notify(&mut sched);
    me.notify(&mut sched);
    assert_eq!(get_notification(&mut sched), 2);
    assert_eq!(get_notification(&mut sched), 1);
}

#[test]
fn priorities_map_to_their_scheduler_weights() {
    assert_eq!(TaskPriority::High.weight(), 16);
    assert_eq!(TaskPriority::Default.weight(), 8);
    assert_eq!(TaskPriority::Low.weight(), 1);
    assert_eq!(TaskPriority::default(), TaskPriority::Default);
    assert_eq!(TaskStackDepth::Default.words(), 8192);
    assert_eq!(TaskStackDepth::Low.words(), 512);
    assert_eq!(TaskStackDepth::default(), TaskStackDepth::Default);
}

#[test]
fn native_state_codes_decode_with_invalid_catch_all() {
    assert_eq!(TaskState::from(0), TaskState::Running);
    assert_eq!(TaskState::from(1), TaskState::Ready);
    assert_eq!(TaskState::from(2), TaskState::Blocked);
    assert_eq!(TaskState::from(3), TaskState::Suspended);
    assert_eq!(TaskState::from(4), TaskState::Deleted);
    assert_eq!(TaskState::from(5), TaskState::Invalid);
    assert_eq!(TaskState::from(99), TaskState::Invalid);
}

#[test]
fn the_main_task_is_current_and_running() {
    let sched = SimScheduler::<fn()>::new();
    let me = current(&sched);
    assert_eq!(me.state(&sched), TaskState::Running);
    assert_eq!(me.name(&sched).unwrap(), "main");
}

#[test]
fn set_priority_updates_the_weight_only() {
    let mut sched = SimScheduler::new();
    let handle = spawn(|| {}, &mut sched);
    handle.set_priority(&mut sched, TaskPriority::High);
    assert_eq!(handle.state(&sched), TaskState::Ready);
    assert_eq!(handle.name(&sched).unwrap(), "<unnamed>");
}

use pros_core::CoopFuture;
use pros_core::Executor;
use pros_core::Reactor;
use pros_core::ReadyFuture;
use pros_core::SimClock;
use pros_core::block_on;
use pros_core::sleep;

#[test]
fn sleep_is_pending_until_the_deadline_then_ready() {
    // sleep(duration) polled before now >= start + duration never returns
    // ready; at the deadline, the next poll returns ready.
    let clock = SimClock::new(0);
    let fut = sleep(&clock, 50);
    let mut reactor = Reactor::new();
    for t in 0..50u32 {
        assert!(fut.poll(t, &mut reactor, 1).is_none());
    }
    assert!(fut.poll(50, &mut reactor, 1).is_some());
    assert!(fut.poll(51, &mut reactor, 1).is_some());
}

#[test]
fn sleep_registers_its_target_and_wakes_at_it() {
    // sleep(50) at simulated time 0: poll at t=10 is pending and the reactor
    // holds deadline 50; advancing to 50 and sweeping fires the callback;
    // the next poll is ready.
    let mut clock = SimClock::new(0);
    let fut = sleep(&clock, 50);
    assert_eq!(fut.target_millis, 50);
    let mut reactor = Reactor::new();
    clock.advance_to(10);
    assert!(fut.poll(clock.now(), &mut reactor, 9).is_none());
    assert_eq!(reactor.len(), 1);
    assert_eq!(reactor.next_deadline(), Some(50));
    clock.advance_to(50);
    let fired = reactor.sweep(clock.now());
    assert_eq!(fired.len(), 1);
    assert_eq!(fired[0].deadline, 50);
    assert_eq!(fired[0].waker, 9);
    assert!(fut.poll(clock.now(), &mut reactor, 9).is_some());
    assert_eq!(reactor.len(), 0);
}

#[test]
fn ready_at_creation_completes_without_touching_the_reactor() {
    let clock = SimClock::new(100);
    let fut = sleep(&clock, 0);
    let mut reactor = Reactor::new();
    assert!(fut.poll(clock.now(), &mut reactor, 1).is_some());
    assert_eq!(reactor.len(), 0);
}

#[test]
fn block_on_ready_future_never_registers_a_sleeper() {
    // A future that is ready on its first poll returns at once, the clock
    // does not move, and no sleeper is ever registered.
    let mut exec = Executor::new(5);
    let out = exec.block_on(&ReadyFuture { value: 42i32 });
    assert_eq!(out, 42);
    assert_eq!(exec.now(), 5);
    assert_eq!(exec.sleepers(), 0);
}

#[test]
fn block_on_drives_a_sleep_to_completion() {
    let mut exec = Executor::new(10);
    let fut = sleep(exec.clock(), 40);
    exec.block_on(&fut);
    assert_eq!(exec.now(), 50);
    assert_eq!(exec.sleepers(), 0);
}

#[test]
fn block_on_leaves_the_clock_alone_for_past_deadlines() {
    let mut exec = Executor::new(80);
    let fut = sleep(exec.clock(), 0);
    exec.block_on(&fut);
    assert_eq!(exec.now(), 80);
    assert_eq!(exec.sleepers(), 0);
}

#[test]
fn block_on_entry_point_returns_the_output() {
    let out = block_on(&ReadyFuture { value: 7u8 });
    assert_eq!(out, 7);
}

#[test]
fn block_on_all_interleaves_a_fleet_of_sleeps() {
    let mut exec = Executor::new(0);
    let fleet = vec![
        sleep(exec.clock(), 30),
        sleep(exec.clock(), 10),
        sleep(exec.clock(), 20),
    ];
    let outputs = exec.block_on_all(&fleet);
    assert_eq!(outputs.len(), 3);
    // the fleet completes at its latest deadline, with no sleeper left
    assert_eq!(exec.now(), 30);
    assert_eq!(exec.sleepers(), 0);
}

#[test]
fn block_on_all_of_nothing_returns_at_once() {
    let mut exec = Executor::new(15);
    let fleet: Vec<pros_core::SleepFuture> = vec![];
    let outputs = exec.block_on_all(&fleet);
    assert!(outputs.is_empty());
    assert_eq!(exec.now(), 15);
}

#[test]
fn block_on_all_with_every_deadline_past_leaves_the_clock_alone() {
    let mut exec = Executor::new(90);
    let fleet = vec![sleep(exec.clock(), 0), sleep(exec.clock(), 0)];
    let outputs = exec.block_on_all(&fleet);
    assert_eq!(outputs.len(), 2);
    assert_eq!(exec.now(), 90);
    assert_eq!(exec.sleepers(), 0);
}

#[test]
fn block_on_runs_sleeps_back_to_back() {
    let mut exec = Executor::new(0);
    let first = sleep(exec.clock(), 30);
    exec.block_on(&first);
    assert_eq!(exec.now(), 30);
    let second = sleep(exec.clock(), 25);
    exec.block_on(&second);
    assert_eq!(exec.now(), 55);
    assert_eq!(exec.sleepers(), 0);
}

use pros_core::Interval;
use pros_core::SimClock;
use pros_core::delay;

#[test]
fn delay_advances_the_clock_by_the_duration() {
    let mut clock = SimClock::new(100);
    delay(&mut clock, 250);
    assert_eq!(clock.now(), 350);
}

#[test]
fn interval_starts_at_the_current_instant() {
    let clock = SimClock::new(123);
    let interval = Interval::start(&clock);
    assert_eq!(interval.last_unblock(), 123);
}

#[test]
fn interval_waits_until_the_next_grid_point() {
    let mut clock = SimClock::new(0);
    let mut interval = Interval::start(&clock);
    interval.delay(20, &mut clock);
    assert_eq!(clock.now(), 20);
    assert_eq!(interval.last_unblock(), 20);
    // an iteration that overruns its slot: the next delay does not wait the
    // full delta again
    clock.advance_to(33);
    interval.delay(20, &mut clock);
    assert_eq!(clock.now(), 40);
    assert_eq!(interval.last_unblock(), 40);
}

#[test]
fn interval_keeps_the_average_period_under_random_overruns() {
    // Repeated delays under per-iteration overruns: the unblock instants stay
    // on the fixed grid, so the long-run average period is exactly the delta.
    let mut clock = SimClock::new(100);
    let mut interval = Interval::start(&clock);
    let delta: u32 = 20;
    let overruns: [u32; 12] = [3, 0, 7, 1, 25, 0, 2, 19, 4, 0, 11, 6];
    let mut n: u32 = 0;
    for overrun in overruns {
        interval.delay(delta, &mut clock);
        n += 1;
        assert_eq!(interval.last_unblock(), 100 + n * delta);
        // simulated work that runs late
        let t = clock.now();
        clock.advance_to(t + overrun);
    }
    let elapsed = interval.last_unblock() - 100;
    assert_eq!(elapsed, n * delta);
    assert_eq!(elapsed / n, delta);
}

#[test]
fn interval_overrun_longer_than_a_period_does_not_wait() {
    let mut clock = SimClock::new(0);
    let mut interval = Interval::start(&clock);
    interval.delay(10, &mut clock);
    // the iteration overruns two full periods
    clock.advance_to(45);
    interval.delay(10, &mut clock);
    // the grid point 20 is already past: no wait, the clock stays at 45
    assert_eq!(clock.now(), 45);
    assert_eq!(interval.last_unblock(), 20);
}

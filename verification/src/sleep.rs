//! The suspension point: a future that completes once a deadline passes.

use vstd::prelude::*;

use crate::clock::SimClock;
use crate::future::CoopFuture;
use crate::reactor::Reactor;
use crate::reactor::Sleeper;

verus! {

/// A future that completes once the clock reaches its target instant.
///
/// Polled at or after the target it is ready immediately, without touching
/// the reactor. Polled before the target it registers (waker, target) with
/// the reactor and suspends, yielding control so other cooperative futures
/// and other units of execution can run. Because the registration is removed
/// from the reactor before its callback fires, dropping the future before
/// completion leaves at worst a registration whose token no longer names a
/// polled future — it is inert, never invoked against freed state.
pub struct SleepFuture {
    /// The instant at which the future completes.
    pub target_millis: u32,
}

impl CoopFuture for SleepFuture {
    type Output = ();

    open spec fn deadline(&self) -> u32 {
        self.target_millis
    }

    open spec fn output(&self) -> () {
        ()
    }

    /// Beyond the trait's contract: a pending poll registers exactly one
    /// sleeper, and it carries exactly (waker, target).
    fn poll(&self, now: u32, reactor: &mut Reactor, waker: u64) -> (ready: Option<()>)
        ensures
            now < self.target_millis ==> final(reactor)@ == old(reactor)@.push(
                (Sleeper { deadline: self.target_millis, waker }),
            ),
    {
        if now >= self.target_millis {
            Some(())
        } else {
            reactor.push(waker, self.target_millis);
            None
        }
    }
}

/// A future that completes `duration_ms` milliseconds from now: its target
/// deadline is the clock's current instant plus the duration.
pub fn sleep(clock: &SimClock, duration_ms: u32) -> (fut: SleepFuture)
    requires
        clock@ + duration_ms <= u32::MAX,
    ensures
        fut.target_millis == clock@ + duration_ms,
{
    SleepFuture { target_millis: clock.now() + duration_ms }
}

} // verus!

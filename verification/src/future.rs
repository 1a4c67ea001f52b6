//! The cooperative future abstraction the executor drives.
//!
//! A cooperative future is a suspendable computation whose completion is tied
//! to the monotonic clock: it completes the first time it is polled at or
//! after its deadline. While it is not complete, a poll registers at least
//! one sleeper with the reactor — carrying the waker the executor handed it —
//! so the executor knows when to poll again and never has to busy-poll.

use vstd::prelude::*;

use crate::reactor::Reactor;

verus! {

/// A suspendable computation driven by polling.
///
/// Polling never blocks: a future that cannot progress registers a
/// wake-callback with the reactor and returns `None` (pending), yielding
/// control to the executor. A future that is ready returns its output
/// without touching the reactor at all.
pub trait CoopFuture {
    /// What the future completes with.
    type Output;

    /// The instant at which the future completes: polled at or after this
    /// instant it is ready, before it is pending.
    spec fn deadline(&self) -> u32;

    /// The value the future completes with.
    spec fn output(&self) -> Self::Output;

    /// Poll the future at instant `now`.
    ///
    /// Ready (`Some`) exactly when `now` has reached the deadline, and then
    /// the reactor is left untouched. Pending (`None`) registers at least
    /// one sleeper, every one carrying the given `waker` and a deadline in
    /// the future but no later than the future's own.
    fn poll(&self, now: u32, reactor: &mut Reactor, waker: u64) -> (ready: Option<Self::Output>)
        ensures
            ready is Some <==> now >= self.deadline(),
            now >= self.deadline() ==> ready == Some(self.output()) && final(reactor)@ == old(reactor)@,
            now < self.deadline() ==> {
                &&& old(reactor)@.len() < final(reactor)@.len()
                &&& (forall|i: int|
                    0 <= i < old(reactor)@.len() ==> #[trigger] final(reactor)@[i] == old(reactor)@[i])
                &&& (forall|i: int|
                    old(reactor)@.len() <= i < final(reactor)@.len() ==> {
                        &&& (#[trigger] final(reactor)@[i]).waker == waker
                        &&& now < final(reactor)@[i].deadline
                        &&& final(reactor)@[i].deadline <= self.deadline()
                    })
            },
    ;
}

/// A future that is already complete: every poll, at any instant, returns
/// its value at once and never registers a sleeper.
pub struct ReadyFuture<T> {
    /// The value the future completes with.
    pub value: T,
}

impl<T: Copy> CoopFuture for ReadyFuture<T> {
    type Output = T;

    open spec fn deadline(&self) -> u32 {
        0
    }

    open spec fn output(&self) -> T {
        self.value
    }

    fn poll(&self, now: u32, reactor: &mut Reactor, waker: u64) -> (ready: Option<T>) {
        Some(self.value)
    }
}

} // verus!

//! The executor: owns the reactor and the clock, and drives cooperative
//! futures to completion.
//!
//! `block_on` is the synchronous entry point: poll the future; while it is
//! pending, wait until the nearest registered deadline (the clock advances
//! exactly there, never busy-polling), sweep the expired sleepers — each
//! callback fires exactly once, earliest deadline first — and poll again.
//! A future is re-polled only after a wake-callback registered on its behalf
//! has fired, and a future that is ready on its first poll returns at once,
//! leaving the executor untouched. `block_on_all` drives a whole fleet the
//! same way, interleaved on the one executor, using the wake tokens to
//! re-poll exactly the futures whose callbacks fired. Polling is never
//! reentrant and never simultaneous: the executor holds each future by
//! reference and polls it from one place.

use vstd::prelude::*;
use vstd::pervasive::VecAdditionalExecFns;

use crate::clock::SimClock;
use crate::future::CoopFuture;
use crate::reactor::Reactor;
use crate::reactor::Sleeper;

verus! {

/// A single-threaded cooperative executor: one reactor, one clock.
pub struct Executor {
    clock: SimClock,
    reactor: Reactor,
}

impl Executor {
    /// The executor's current instant, in milliseconds.
    pub closed spec fn now_spec(&self) -> u32 {
        self.clock@
    }

    /// How many sleepers the executor's reactor holds.
    pub closed spec fn sleeper_count(&self) -> nat {
        self.reactor@.len()
    }

    /// The pending sleepers, as the reactor holds them.
    pub closed spec fn pending_spec(&self) -> Seq<Sleeper> {
        self.reactor@
    }

    /// Idle: no sleeper is registered. Holds between `block_on` calls.
    pub open spec fn idle(&self) -> bool {
        self.sleeper_count() == 0
    }

    /// A fresh executor: clock at `start_ms`, no sleepers.
    pub fn new(start_ms: u32) -> (exec: Executor)
        ensures
            exec.now_spec() == start_ms,
            exec.idle(),
    {
        Executor { clock: SimClock::new(start_ms), reactor: Reactor::new() }
    }

    /// The current instant, in milliseconds.
    pub fn now(&self) -> (t: u32)
        ensures
            t == self.now_spec(),
    {
        self.clock.now()
    }

    /// A view of the executor's clock, for building futures against it.
    pub fn clock(&self) -> (clock: &SimClock)
        ensures
            clock@ == self.now_spec(),
    {
        &self.clock
    }

    /// How many sleepers are currently registered.
    pub fn sleepers(&self) -> (n: usize)
        ensures
            n == self.sleeper_count(),
    {
        self.reactor.len()
    }

    /// Drive `fut` to completion and return its output.
    ///
    /// The clock ends exactly at the future's deadline (or does not move at
    /// all if the deadline has already passed), and no sleeper is left
    /// behind. A future that is ready on its first poll returns immediately,
    /// never registering a sleeper: the whole executor is left untouched.
    pub fn block_on<F: CoopFuture>(&mut self, fut: &F) -> (output: F::Output)
        requires
            old(self).idle(),
        ensures
            output == fut.output(),
            final(self).idle(),
            final(self).now_spec() == if old(self).now_spec() >= fut.deadline() {
                old(self).now_spec()
            } else {
                fut.deadline()
            },
            old(self).now_spec() >= fut.deadline() ==> final(self).now_spec() == old(self).now_spec()
                && final(self).pending_spec() == old(self).pending_spec(),
    {
        let root_waker: u64 = 0;
        loop
            invariant
                old(self).idle(),
                self.now_spec() >= old(self).now_spec(),
                old(self).now_spec() >= fut.deadline() ==> self.now_spec() == old(self).now_spec()
                    && self.reactor@ == old(self).reactor@,
                old(self).now_spec() < fut.deadline() ==> self.now_spec() <= fut.deadline(),
                forall|i: int|
                    0 <= i < self.reactor@.len() ==> {
                        &&& (#[trigger] self.reactor@[i]).waker == root_waker
                        &&& self.now_spec() < self.reactor@[i].deadline
                        &&& self.reactor@[i].deadline <= fut.deadline()
                    },
            decreases fut.deadline() - self.now_spec(),
        {
            let now = self.clock.now();
            let ghost top = self.reactor@;
            match fut.poll(now, &mut self.reactor, root_waker) {
                Some(output) => {
                    proof {
                        // Ready means the deadline has passed, yet every
                        // pending sleeper's deadline lies strictly beyond
                        // the clock and at most at the future's deadline:
                        // none can be pending.
                        if self.reactor@.len() > 0 {
                            assert(self.reactor@[0].deadline <= fut.deadline());
                        }
                    }
                    return output;
                },
                None => {
                    proof {
                        // Every pending deadline, kept or freshly
                        // registered, lies strictly beyond the clock and at
                        // most at the future's own, and carries the root
                        // waker.
                        assert forall|i: int| 0 <= i < self.reactor@.len() implies {
                            &&& (#[trigger] self.reactor@[i]).waker == root_waker
                            &&& now < self.reactor@[i].deadline
                            &&& self.reactor@[i].deadline <= fut.deadline()
                        } by {
                            if i < top.len() {
                                assert(self.reactor@[i] == top[i]);
                            }
                        }
                    }
                    let next = self.reactor.next_deadline();
                    match next {
                        Some(d) => {
                            let ghost pre = self.reactor@;
                            proof {
                                // Waiting for the nearest deadline makes
                                // strict progress: it lies beyond the clock.
                                let i = choose|i: int| 0 <= i < pre.len() && pre[i].deadline == d;
                                assert(now < pre[i].deadline);
                            }
                            self.clock.advance_to(d);
                            let fired = self.reactor.sweep(self.clock.now());
                            proof {
                                broadcast use vstd::seq_lib::group_to_multiset_ensures;

                                // The sleepers still pending after the sweep
                                // were all pending before it, so they keep
                                // the root waker and the deadline bound.
                                assert forall|i: int| 0 <= i < self.reactor@.len() implies {
                                    &&& (#[trigger] self.reactor@[i]).waker == root_waker
                                    &&& self.reactor@[i].deadline <= fut.deadline()
                                } by {
                                    let e = self.reactor@[i];
                                    assert(self.reactor@.contains(e));
                                    assert(self.reactor@.to_multiset().count(e) > 0);
                                    assert(self.reactor@.to_multiset().add(fired@.to_multiset()).count(e)
                                        == pre.to_multiset().count(e));
                                    assert(pre.to_multiset().count(e) > 0);
                                    assert(pre.contains(e));
                                }
                                // At least the sleeper holding the earliest
                                // deadline fired: the future is re-polled
                                // only because a wake-callback registered
                                // for it ran.
                                let i = choose|i: int| 0 <= i < pre.len() && pre[i].deadline == d;
                                let s = pre[i];
                                assert(pre.contains(s));
                                assert(pre.to_multiset().count(s) > 0);
                                if !fired@.contains(s) {
                                    assert(fired@.to_multiset().count(s) == 0);
                                    assert(self.reactor@.to_multiset().add(fired@.to_multiset()).count(s)
                                        == pre.to_multiset().count(s));
                                    assert(self.reactor@.to_multiset().count(s) > 0);
                                    assert(self.reactor@.contains(s));
                                    let k = choose|k: int|
                                        0 <= k < self.reactor@.len() && self.reactor@[k] == s;
                                    assert(self.reactor@[k].deadline > d);
                                }
                                assert(fired@.contains(s));
                            }
                        },
                        None => {
                            // A pending poll always registers a sleeper.
                            proof {
                                assert(false);
                            }
                        },
                    }
                },
            }
        }
    }

    /// Drive every future of a fleet to completion, interleaved on this one
    /// executor, and return their outputs in the fleet's order.
    ///
    /// Each future is polled once when submitted; after that it is polled
    /// only when a wake-callback it registered fires — the wake token names
    /// the future it wakes, and each callback fires exactly once. Polling is
    /// interleaved, never simultaneous. The clock ends at the latest
    /// deadline (or does not move when every future is complete on
    /// submission), and no sleeper is left behind.
    pub fn block_on_all<F: CoopFuture>(&mut self, futs: &Vec<F>) -> (outputs: Vec<F::Output>)
        requires
            old(self).idle(),
        ensures
            final(self).idle(),
            outputs@.len() == futs@.len(),
            forall|j: int| 0 <= j < futs@.len() ==> outputs@[j] == futs@[j].output(),
            final(self).now_spec() == if old(self).now_spec() >= fleet_deadline(futs@) {
                old(self).now_spec() as int
            } else {
                fleet_deadline(futs@)
            },
    {
        let n = futs.len();
        let mut slots: Vec<Option<F::Output>> = Vec::new();
        // Submission: poll every future once, at the instant it comes in.
        let mut k: usize = 0;
        while k < n
            invariant
                n == futs@.len(),
                slots@.len() == k,
                k <= n,
                old(self).idle(),
                self.now_spec() == old(self).now_spec(),
                forall|j: int|
                    0 <= j < k ==> ((#[trigger] slots@[j]) matches Some(v) ==> v == futs@[j].output()),
                forall|j: int|
                    0 <= j < k ==> ((#[trigger] slots@[j]) is Some ==> futs@[j].deadline()
                        <= self.now_spec()),
                forall|j: int|
                    0 <= j < k && (#[trigger] slots@[j]) is None ==> (exists|s: int|
                        0 <= s < self.reactor@.len() && (#[trigger] self.reactor@[s]).waker == j),
                forall|s: int|
                    0 <= s < self.reactor@.len() ==> {
                        &&& (#[trigger] self.reactor@[s]).waker < k
                        &&& self.now_spec() < self.reactor@[s].deadline
                        &&& self.reactor@[s].deadline <= futs@[self.reactor@[s].waker as int].deadline()
                    },
            decreases n - k,
        {
            let now = self.clock.now();
            let ghost top = self.reactor@;
            match futs[k].poll(now, &mut self.reactor, k as u64) {
                Some(v) => {
                    slots.push(Some(v));
                    proof {
                        assert forall|j: int|
                            0 <= j < k + 1 && (#[trigger] slots@[j]) is None implies (exists|s: int|
                            0 <= s < self.reactor@.len() && (#[trigger] self.reactor@[s]).waker
                                == j) by {
                            let s = choose|s: int|
                                0 <= s < top.len() && (#[trigger] top[s]).waker == j;
                            assert(self.reactor@ == top);
                            assert(self.reactor@[s].waker == j);
                        }
                    }
                },
                None => {
                    slots.push(None);
                    proof {
                        assert forall|j: int|
                            0 <= j < k + 1 && (#[trigger] slots@[j]) is None implies (exists|s: int|
                            0 <= s < self.reactor@.len() && (#[trigger] self.reactor@[s]).waker
                                == j) by {
                            if j < k {
                                let s = choose|s: int|
                                    0 <= s < top.len() && (#[trigger] top[s]).waker == j;
                                assert(self.reactor@[s].waker == j);
                            } else {
                                assert(self.reactor@[top.len() as int].waker == k);
                            }
                        }
                    }
                },
            }
            k = k + 1;
        }
        let ghost max_now = if old(self).now_spec() >= fleet_deadline(futs@) {
            old(self).now_spec() as int
        } else {
            fleet_deadline(futs@)
        };
        // Drive: wait for the nearest deadline, fire the expired callbacks,
        // and re-poll exactly the futures they wake, until none is pending.
        loop
            invariant
                n == futs@.len(),
                slots@.len() == n,
                old(self).idle(),
                self.now_spec() >= old(self).now_spec(),
                self.now_spec() <= max_now,
                max_now == if old(self).now_spec() >= fleet_deadline(futs@) {
                    old(self).now_spec() as int
                } else {
                    fleet_deadline(futs@)
                },
                forall|j: int|
                    0 <= j < n ==> ((#[trigger] slots@[j]) matches Some(v) ==> v == futs@[j].output()),
                forall|j: int|
                    0 <= j < n ==> ((#[trigger] slots@[j]) is Some ==> futs@[j].deadline()
                        <= self.now_spec()),
                forall|j: int|
                    0 <= j < n && (#[trigger] slots@[j]) is None ==> (exists|s: int|
                        0 <= s < self.reactor@.len() && (#[trigger] self.reactor@[s]).waker == j),
                forall|s: int|
                    0 <= s < self.reactor@.len() ==> {
                        &&& (#[trigger] self.reactor@[s]).waker < n
                        &&& self.now_spec() < self.reactor@[s].deadline
                        &&& self.reactor@[s].deadline <= futs@[self.reactor@[s].waker as int].deadline()
                    },
            ensures
                forall|j: int| 0 <= j < n ==> (#[trigger] slots@[j]) is Some,
                forall|j: int|
                    0 <= j < n ==> ((#[trigger] slots@[j]) matches Some(v) ==> v == futs@[j].output()),
                forall|j: int|
                    0 <= j < n ==> ((#[trigger] slots@[j]) is Some ==> futs@[j].deadline()
                        <= self.now_spec()),
                forall|s: int|
                    0 <= s < self.reactor@.len() ==> {
                        &&& self.now_spec() < (#[trigger] self.reactor@[s]).deadline
                        &&& self.reactor@[s].waker < n
                        &&& self.reactor@[s].deadline <= futs@[self.reactor@[s].waker as int].deadline()
                    },
                self.now_spec() >= old(self).now_spec(),
                self.now_spec() <= max_now,
            decreases max_now - self.now_spec(),
        {
            // Is anything still pending?
            let mut has_pending = false;
            let mut scan: usize = 0;
            while scan < n
                invariant
                    n == slots@.len(),
                    scan <= n,
                    !has_pending ==> (forall|j: int| 0 <= j < scan ==> (#[trigger] slots@[j]) is Some),
                    has_pending ==> (exists|j: int| 0 <= j < n && (#[trigger] slots@[j]) is None),
                decreases n - scan,
            {
                if slots[scan].is_none() {
                    has_pending = true;
                }
                scan = scan + 1;
            }
            if !has_pending {
                break ;
            }
            let next = self.reactor.next_deadline();
            match next {
                Some(d) => {
                    let ghost pre = self.reactor@;
                    proof {
                        // The nearest deadline lies strictly beyond the
                        // clock and within the fleet's own.
                        let i = choose|i: int| 0 <= i < pre.len() && pre[i].deadline == d;
                        assert(self.now_spec() < pre[i].deadline);
                        lemma_fleet_deadline_bounds(futs@, pre[i].waker as int);
                    }
                    self.clock.advance_to(d);
                    let now = self.clock.now();
                    let fired = self.reactor.sweep(now);
                    proof {
                        broadcast use vstd::seq_lib::group_to_multiset_ensures;

                        crate::reactor::lemma_sweep_sources(pre, self.reactor@, fired@);
                        // Kept and fired sleepers were all registered before
                        // the sweep, so they keep their owners and bounds.
                        assert forall|s: int| 0 <= s < self.reactor@.len() implies {
                            &&& (#[trigger] self.reactor@[s]).waker < n
                            &&& self.reactor@[s].deadline <= futs@[self.reactor@[s].waker as int].deadline()
                        } by {
                            let e = self.reactor@[s];
                            let t = choose|t: int| 0 <= t < pre.len() && pre[t] == e;
                            assert(pre[t].waker < n);
                        }
                        assert forall|m: int| 0 <= m < fired@.len() implies {
                            &&& (#[trigger] fired@[m]).waker < n
                            &&& fired@[m].deadline <= futs@[fired@[m].waker as int].deadline()
                        } by {
                            let e = fired@[m];
                            let t = choose|t: int| 0 <= t < pre.len() && pre[t] == e;
                            assert(pre[t].waker < n);
                        }
                        // Every pending future still has a sleeper, or one
                        // of the fired callbacks is about to wake it.
                        assert forall|j: int|
                            0 <= j < n && (#[trigger] slots@[j]) is None implies ((exists|s: int|
                            0 <= s < self.reactor@.len() && (#[trigger] self.reactor@[s]).waker
                                == j) || (exists|m: int|
                            0 <= m < fired@.len() && (#[trigger] fired@[m]).waker == j)) by {
                            let s = choose|s: int| 0 <= s < pre.len() && (#[trigger] pre[s]).waker == j;
                            let e = pre[s];
                            assert(pre.to_multiset().count(e) > 0);
                            assert(self.reactor@.to_multiset().add(fired@.to_multiset()).count(e)
                                == pre.to_multiset().count(e));
                            if fired@.to_multiset().count(e) > 0 {
                                assert(fired@.contains(e));
                                let m = choose|m: int| 0 <= m < fired@.len() && fired@[m] == e;
                                assert(fired@[m].waker == j);
                            } else {
                                assert(self.reactor@.to_multiset().count(e) > 0);
                                assert(self.reactor@.contains(e));
                                let t = choose|t: int|
                                    0 <= t < self.reactor@.len() && self.reactor@[t] == e;
                                assert(self.reactor@[t].waker == j);
                            }
                        }
                    }
                    // Re-poll exactly the futures the fired callbacks wake.
                    let mut m: usize = 0;
                    while m < fired.len()
                        invariant
                            n == futs@.len(),
                            slots@.len() == n,
                            m <= fired@.len(),
                            self.now_spec() == now,
                            forall|t: int| 0 <= t < fired@.len() ==> (#[trigger] fired@[t]).waker < n,
                            forall|j: int|
                                0 <= j < n ==> ((#[trigger] slots@[j]) matches Some(v) ==> v
                                    == futs@[j].output()),
                            forall|j: int|
                                0 <= j < n ==> ((#[trigger] slots@[j]) is Some ==> futs@[j].deadline() <= now),
                            forall|j: int|
                                0 <= j < n && (#[trigger] slots@[j]) is None ==> ((exists|s: int|
                                    0 <= s < self.reactor@.len() && (#[trigger] self.reactor@[s]).waker
                                        == j) || (exists|t: int|
                                    m <= t < fired@.len() && (#[trigger] fired@[t]).waker == j)),
                            forall|s: int|
                                0 <= s < self.reactor@.len() ==> {
                                    &&& (#[trigger] self.reactor@[s]).waker < n
                                    &&& now < self.reactor@[s].deadline
                                    &&& self.reactor@[s].deadline <= futs@[self.reactor@[s].waker as int].deadline()
                                },
                        decreases fired@.len() - m,
                    {
                        let w = fired[m].waker;
                        proof {
                            assert(fired@[m as int].waker < n);
                        }
                        let idx = w as usize;
                        proof {
                            assert(idx as int == w as int);
                        }
                        if slots[idx].is_none() {
                            let ghost top = self.reactor@;
                            let ghost old_slots = slots@;
                            match futs[idx].poll(now, &mut self.reactor, w) {
                                Some(v) => {
                                    slots.set(idx, Some(v));
                                    proof {
                                        assert forall|j: int|
                                            0 <= j < n && (#[trigger] slots@[j]) is None implies ((
                                        exists|s: int|
                                            0 <= s < self.reactor@.len() && (
                                            #[trigger] self.reactor@[s]).waker == j) || (exists|
                                        t: int|
                                            m + 1 <= t < fired@.len() && (#[trigger] fired@[t]).waker
                                                == j)) by {
                                            assert(j != idx as int);
                                            assert(old_slots[j] is None);
                                            if exists|s: int|
                                                0 <= s < top.len() && (#[trigger] top[s]).waker
                                                    == j {
                                                let s = choose|s: int|
                                                    0 <= s < top.len() && (#[trigger] top[s]).waker
                                                        == j;
                                                assert(self.reactor@[s] == top[s]);
                                                assert(self.reactor@[s].waker == j);
                                            } else {
                                                let t = choose|t: int|
                                                    m <= t < fired@.len() && (#[trigger] fired@[t]).waker
                                                        == j;
                                                if t == m {
                                                    assert(j == w as int);
                                                    assert(false);
                                                }
                                            }
                                        }
                                    }
                                },
                                None => {
                                    proof {
                                        assert forall|j: int|
                                            0 <= j < n && (#[trigger] slots@[j]) is None implies ((
                                        exists|s: int|
                                            0 <= s < self.reactor@.len() && (
                                            #[trigger] self.reactor@[s]).waker == j) || (exists|
                                        t: int|
                                            m + 1 <= t < fired@.len() && (#[trigger] fired@[t]).waker
                                                == j)) by {
                                            if j == idx as int {
                                                assert(self.reactor@[top.len() as int].waker == w);
                                            } else if exists|s: int|
                                                0 <= s < top.len() && (#[trigger] top[s]).waker
                                                    == j {
                                                let s = choose|s: int|
                                                    0 <= s < top.len() && (#[trigger] top[s]).waker
                                                        == j;
                                                assert(self.reactor@[s] == top[s]);
                                            } else {
                                                let t = choose|t: int|
                                                    m <= t < fired@.len() && (#[trigger] fired@[t]).waker
                                                        == j;
                                                if t == m {
                                                    assert(j == w as int);
                                                    assert(false);
                                                }
                                            }
                                        }
                                    }
                                },
                            }
                        } else {
                            proof {
                                assert forall|j: int|
                                    0 <= j < n && (#[trigger] slots@[j]) is None implies ((exists|
                                s: int|
                                    0 <= s < self.reactor@.len() && (#[trigger] self.reactor@[s]).waker
                                        == j) || (exists|t: int|
                                    m + 1 <= t < fired@.len() && (#[trigger] fired@[t]).waker
                                        == j)) by {
                                    assert(j != idx as int);
                                    if !(exists|s: int|
                                        0 <= s < self.reactor@.len() && (
                                        #[trigger] self.reactor@[s]).waker == j) {
                                        let t = choose|t: int|
                                            m <= t < fired@.len() && (#[trigger] fired@[t]).waker
                                                == j;
                                        if t == m {
                                            assert(j == w as int);
                                            assert(false);
                                        }
                                    }
                                }
                            }
                        }
                        m = m + 1;
                    }
                },
                None => {
                    // A pending future always has a registered sleeper.
                    proof {
                        let j = choose|j: int| 0 <= j < n && (#[trigger] slots@[j]) is None;
                        assert(exists|s: int|
                            0 <= s < self.reactor@.len() && (#[trigger] self.reactor@[s]).waker
                                == j);
                        assert(false);
                    }
                },
            }
        }
        proof {
            // Nothing is pending and every sleeper's deadline would lie
            // beyond its completed owner's: none can remain.
            if self.reactor@.len() > 0 {
                let s = self.reactor@[0];
                assert(slots@[s.waker as int] is Some);
                assert(futs@[s.waker as int].deadline() <= self.now_spec());
                assert(false);
            }
            // The last deadline has been reached exactly.
            if n > 0 {
                lemma_fleet_deadline_witness(futs@);
                let j = choose|j: int|
                    0 <= j < futs@.len() && futs@[j].deadline() == fleet_deadline(futs@);
                assert(slots@[j] is Some);
            }
        }
        // Hand the outputs out in the fleet's order.
        let mut outputs: Vec<F::Output> = Vec::new();
        while slots.len() > 0
            invariant
                outputs@.len() + slots@.len() == n,
                n == futs@.len(),
                forall|j: int| 0 <= j < outputs@.len() ==> outputs@[j] == futs@[j].output(),
                forall|t: int|
                    0 <= t < slots@.len() ==> (#[trigger] slots@[t]) == Some(
                        futs@[outputs@.len() + t].output(),
                    ),
            decreases slots@.len(),
        {
            match slots.remove(0) {
                Some(v) => {
                    outputs.push(v);
                },
                None => {
                    proof {
                        assert(false);
                    }
                },
            }
        }
        outputs
    }
}

/// The latest completion instant across a fleet of futures, and zero when
/// there are none.
pub open spec fn fleet_deadline<F: CoopFuture>(futs: Seq<F>) -> int
    decreases futs.len(),
{
    if futs.len() == 0 {
        0
    } else {
        let rest = fleet_deadline(futs.drop_last());
        if futs.last().deadline() > rest {
            futs.last().deadline() as int
        } else {
            rest
        }
    }
}

/// No future in a fleet completes after the fleet's deadline.
pub proof fn lemma_fleet_deadline_bounds<F: CoopFuture>(futs: Seq<F>, j: int)
    requires
        0 <= j < futs.len(),
    ensures
        futs[j].deadline() <= fleet_deadline(futs),
    decreases futs.len(),
{
    if j < futs.len() - 1 {
        lemma_fleet_deadline_bounds(futs.drop_last(), j);
        assert(futs.drop_last()[j] == futs[j]);
    }
}

/// A nonempty fleet's deadline is one of its futures' deadlines.
pub proof fn lemma_fleet_deadline_witness<F: CoopFuture>(futs: Seq<F>)
    requires
        futs.len() > 0,
    ensures
        exists|j: int| 0 <= j < futs.len() && futs[j].deadline() == fleet_deadline(futs),
    decreases futs.len(),
{
    let rest = fleet_deadline(futs.drop_last());
    if futs.last().deadline() > rest {
        assert(futs[futs.len() - 1].deadline() == fleet_deadline(futs));
    } else if futs.len() == 1 {
        assert(futs[0].deadline() == fleet_deadline(futs));
    } else {
        lemma_fleet_deadline_witness(futs.drop_last());
        let j = choose|j: int|
            0 <= j < futs.drop_last().len() && futs.drop_last()[j].deadline() == rest;
        assert(futs[j].deadline() == fleet_deadline(futs));
    }
}

/// Drive one future to completion on a fresh executor whose clock starts at
/// the future's epoch, instant zero.
pub fn block_on<F: CoopFuture>(fut: &F) -> (output: F::Output)
    ensures
        output == fut.output(),
{
    let mut exec = Executor::new(0);
    exec.block_on(fut)
}

} // verus!

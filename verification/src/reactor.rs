//! The sleeper registry: pending (deadline, wake-callback) registrations.
//!
//! A wake-callback is modelled as a one-shot token carrying the identity of
//! the suspended future it will mark ready. A sweep removes a sleeper from
//! the registry before its token is handed out, so a callback can never fire
//! twice and a stale registration can never fire at all.

use vstd::prelude::*;

verus! {

broadcast use vstd::seq_lib::group_to_multiset_ensures;

/// A pending registration: a wake-callback (the `waker` token) that becomes
/// eligible to fire once the clock reaches `deadline`.
#[derive(Clone, Copy, PartialEq, Eq, Structural, Debug)]
pub struct Sleeper {
    /// The monotonic millisecond instant at which the callback may fire.
    pub deadline: u32,
    /// The one-shot wake token: it identifies the suspended future that the
    /// callback, once fired, marks ready for re-poll.
    pub waker: u64,
}

/// The registered sleepers fire earliest-deadline-first: within a sweep's
/// result, deadlines never decrease.
pub open spec fn sorted_by_deadline(s: Seq<Sleeper>) -> bool {
    forall|i: int, j: int| 0 <= i < j < s.len() ==> s[i].deadline <= s[j].deadline
}

/// The wake registry: holds every pending sleeper, supports insertion,
/// earliest-deadline lookup, and removal of expired sleepers in
/// earliest-deadline-first order.
pub struct Reactor {
    sleepers: Vec<Sleeper>,
}

impl View for Reactor {
    type V = Seq<Sleeper>;

    closed spec fn view(&self) -> Seq<Sleeper> {
        self.sleepers@
    }
}

impl Reactor {
    /// An empty registry.
    pub fn new() -> (reactor: Reactor)
        ensures
            reactor@ == Seq::<Sleeper>::empty(),
    {
        Reactor { sleepers: Vec::new() }
    }

    /// How many sleepers are pending.
    pub fn len(&self) -> (n: usize)
        ensures
            n == self@.len(),
    {
        self.sleepers.len()
    }

    /// Register a sleeper: `waker` becomes eligible to fire once the clock
    /// reaches `deadline`.
    pub fn push(&mut self, waker: u64, deadline: u32)
        ensures
            final(self)@ == old(self)@.push(Sleeper { deadline, waker }),
    {
        self.sleepers.push(Sleeper { deadline, waker });
    }

    /// The index of a sleeper with the earliest deadline.
    fn min_index(&self) -> (best: usize)
        requires
            self@.len() > 0,
        ensures
            best < self@.len(),
            forall|j: int| 0 <= j < self@.len() ==> self@[best as int].deadline <= #[trigger] self@[j].deadline,
    {
        let mut best: usize = 0;
        let mut k: usize = 1;
        while k < self.sleepers.len()
            invariant
                self@.len() > 0,
                best < k,
                k <= self@.len(),
                forall|j: int| 0 <= j < k ==> self@[best as int].deadline <= #[trigger] self@[j].deadline,
            decreases self@.len() - k,
        {
            if self.sleepers[k].deadline < self.sleepers[best].deadline {
                best = k;
            }
            k = k + 1;
        }
        best
    }

    /// The earliest pending deadline, if any: the instant at which the next
    /// wake event can possibly occur, so an idle caller can wait exactly
    /// that long instead of busy-polling.
    pub fn next_deadline(&self) -> (next: Option<u32>)
        ensures
            match next {
                None => self@.len() == 0,
                Some(d) => {
                    &&& (exists|i: int| 0 <= i < self@.len() && #[trigger] self@[i].deadline == d)
                    &&& (forall|i: int| 0 <= i < self@.len() ==> d <= #[trigger] self@[i].deadline)
                },
            },
    {
        if self.sleepers.len() == 0 {
            None
        } else {
            let i = self.min_index();
            Some(self.sleepers[i].deadline)
        }
    }

    /// Remove and return an expired sleeper with the earliest deadline, or
    /// `None` when no sleeper has expired. The sleeper is removed before its
    /// wake token is handed out, so it can fire at most once.
    pub fn pop_expired(&mut self, now: u32) -> (fired: Option<Sleeper>)
        ensures
            match fired {
                None => {
                    &&& final(self)@ == old(self)@
                    &&& (forall|i: int| 0 <= i < old(self)@.len() ==> #[trigger] old(self)@[i].deadline > now)
                },
                Some(s) => {
                    &&& s.deadline <= now
                    &&& (forall|i: int| 0 <= i < old(self)@.len() ==> s.deadline <= #[trigger] old(self)@[i].deadline)
                    &&& (exists|i: int|
                        0 <= i < old(self)@.len() && old(self)@[i] == s && final(self)@ == old(self)@.remove(i))
                },
            },
    {
        if self.sleepers.len() == 0 {
            None
        } else {
            let i = self.min_index();
            if self.sleepers[i].deadline <= now {
                let s = self.sleepers.remove(i);
                Some(s)
            } else {
                None
            }
        }
    }

    /// Remove every expired sleeper and return them in the order their
    /// callbacks fire: earliest deadline first. No sleeper is lost or
    /// duplicated, and none that fires is still pending afterwards.
    pub fn sweep(&mut self, now: u32) -> (fired: Vec<Sleeper>)
        ensures
            sorted_by_deadline(fired@),
            forall|i: int| 0 <= i < fired@.len() ==> #[trigger] fired@[i].deadline <= now,
            forall|i: int| 0 <= i < final(self)@.len() ==> #[trigger] final(self)@[i].deadline > now,
            final(self)@.to_multiset().add(fired@.to_multiset()) == old(self)@.to_multiset(),
    {
        let mut fired: Vec<Sleeper> = Vec::new();
        loop
            invariant
                sorted_by_deadline(fired@),
                forall|i: int| 0 <= i < fired@.len() ==> #[trigger] fired@[i].deadline <= now,
                forall|i: int, j: int|
                    0 <= i < fired@.len() && 0 <= j < self@.len() ==> #[trigger] fired@[i].deadline
                        <= #[trigger] self@[j].deadline,
                self@.to_multiset().add(fired@.to_multiset()) == old(self)@.to_multiset(),
            ensures
                forall|i: int| 0 <= i < self@.len() ==> #[trigger] self@[i].deadline > now,
            decreases self@.len(),
        {
            let ghost pre = self@;
            let ghost pre_fired = fired@;
            match self.pop_expired(now) {
                Some(s) => {
                    fired.push(s);
                    proof {
                        let i = choose|i: int|
                            0 <= i < pre.len() && pre[i] == s && self@ == pre.remove(i);
                        assert(self@.to_multiset() =~= pre.to_multiset().remove(s));
                        assert(fired@.to_multiset() =~= pre_fired.to_multiset().insert(s));
                        assert(self@.to_multiset().add(fired@.to_multiset()) =~= pre.to_multiset().add(
                            pre_fired.to_multiset(),
                        ));
                        assert forall|a: int, b: int|
                            0 <= a < fired@.len() && 0 <= b < self@.len() implies #[trigger] fired@[a].deadline
                            <= #[trigger] self@[b].deadline by {
                            assert(self@[b] == pre.remove(i)[b]);
                            if b < i {
                                assert(pre.remove(i)[b] == pre[b]);
                            } else {
                                assert(pre.remove(i)[b] == pre[b + 1]);
                            }
                        }
                    }
                },
                None => {
                    break ;
                },
            }
        }
        fired
    }
}

/// A sweep conserves sleepers: everything it keeps and everything it fires
/// was registered before it — nothing appears from nowhere.
pub proof fn lemma_sweep_sources(pre: Seq<Sleeper>, kept: Seq<Sleeper>, fired: Seq<Sleeper>)
    requires
        kept.to_multiset().add(fired.to_multiset()) == pre.to_multiset(),
    ensures
        forall|i: int| 0 <= i < kept.len() ==> pre.contains(#[trigger] kept[i]),
        forall|i: int| 0 <= i < fired.len() ==> pre.contains(#[trigger] fired[i]),
{
    assert forall|i: int| 0 <= i < kept.len() implies pre.contains(#[trigger] kept[i]) by {
        assert(kept.to_multiset().count(kept[i]) > 0);
        assert(pre.to_multiset().count(kept[i]) > 0);
    }
    assert forall|i: int| 0 <= i < fired.len() implies pre.contains(#[trigger] fired[i]) by {
        assert(fired.to_multiset().count(fired[i]) > 0);
        assert(pre.to_multiset().count(fired[i]) > 0);
    }
}

/// Law: expired sleepers fire earliest-deadline-first. Among the callbacks a
/// sweep fires, one with a strictly earlier deadline fires strictly before
/// one with a later deadline — so once the clock reaches the later of two
/// deadlines, the earlier one's callback has already fired, or fires no
/// later, whatever the insertion order was.
pub proof fn lemma_earlier_deadline_fires_first(fired: Seq<Sleeper>, i: int, j: int)
    requires
        sorted_by_deadline(fired),
        0 <= i < fired.len(),
        0 <= j < fired.len(),
        fired[i].deadline < fired[j].deadline,
    ensures
        i < j,
{
    if j < i {
        assert(fired[j].deadline <= fired[i].deadline);
    }
}

} // verus!

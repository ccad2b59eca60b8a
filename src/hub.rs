//! The subscriber registry of the broadcast hub: who an event goes to, and
//! who is dropped when a delivery fails.
use vstd::prelude::*;

verus! {

/// The registry of live subscribers, each known by a handle that is never
/// handed out twice.
pub struct Hub {
    subscribers: Vec<u64>,
    next_handle: u64,
}

impl View for Hub {
    type V = Seq<u64>;

    closed spec fn view(&self) -> Seq<u64> {
        self.subscribers@
    }
}

impl Hub {
    /// The handles not yet handed out start at this one.
    pub closed spec fn next(&self) -> u64 {
        self.next_handle
    }

    pub open spec fn wf(&self) -> bool {
        &&& self@.no_duplicates()
        &&& forall|i: int| 0 <= i < self@.len() ==> #[trigger] self@[i] < self.next()
    }

    /// A hub with no subscriber.
    pub fn new() -> (r: Hub)
        ensures
            r.wf(),
            r@ == Seq::<u64>::empty(),
            r.next() == 0,
    {
        Hub { subscribers: Vec::new(), next_handle: 0 }
    }

    /// The number of live subscribers.
    pub fn len(&self) -> (r: usize)
        ensures
            r == self@.len(),
    {
        self.subscribers.len()
    }

    /// Registers a new subscriber and returns its handle; `None` once every
    /// handle has been handed out.
    pub fn subscribe(&mut self) -> (r: Option<u64>)
        requires
            old(self).wf(),
        ensures
            final(self).wf(),
            old(self).next() < u64::MAX ==> r == Some(old(self).next()) && final(self)@ == old(
                self,
            )@.push(old(self).next()) && final(self).next() == old(self).next() + 1,
            old(self).next() == u64::MAX ==> r.is_none() && final(self)@ == old(self)@
                && final(self).next() == old(self).next(),
    {
        if self.next_handle == u64::MAX {
            return None;
        }
        let h = self.next_handle;
        self.subscribers.push(h);
        self.next_handle = h + 1;
        Some(h)
    }

    /// Removes the subscriber with this handle; returns whether it was
    /// registered.
    pub fn unsubscribe(&mut self, handle: u64) -> (r: bool)
        requires
            old(self).wf(),
        ensures
            final(self).wf(),
            final(self).next() == old(self).next(),
            r == old(self)@.contains(handle),
            forall|h: u64| #[trigger]
                final(self)@.contains(h) == (old(self)@.contains(h) && h != handle),
            r ==> final(self)@.len() == old(self)@.len() - 1,
            !r ==> final(self)@ == old(self)@,
    {
        let n = self.subscribers.len();
        let mut i: usize = 0;
        while i < n
            invariant
                n == self.subscribers.len(),
                i <= n,
                self@ == old(self)@,
                self.next() == old(self).next(),
                self.wf(),
                forall|j: int| 0 <= j < i ==> self@[j] != handle,
            decreases n - i,
        {
            if self.subscribers[i] == handle {
                self.subscribers.remove(i);
                proof {
                    lemma_remove_at(old(self)@, i as int, self@, old(self).next());
                }
                return true;
            }
            i = i + 1;
        }
        false
    }

    /// The handles an event goes to: every live subscriber, each once.
    pub fn publish_targets(&self) -> (r: Vec<u64>)
        ensures
            r@ == self@,
    {
        self.subscribers.clone()
    }

    /// Drops the subscribers whose delivery failed. Nothing is reported to
    /// the publisher: the others stay registered.
    pub fn prune(&mut self, failed: &Vec<u64>)
        requires
            old(self).wf(),
        ensures
            final(self).wf(),
            final(self).next() == old(self).next(),
            forall|h: u64| #[trigger]
                final(self)@.contains(h) == (old(self)@.contains(h) && !failed@.contains(h)),
    {
        let n = failed.len();
        let mut i: usize = 0;
        while i < n
            invariant
                n == failed@.len(),
                i <= n,
                self.wf(),
                self.next() == old(self).next(),
                forall|h: u64| #[trigger]
                    self@.contains(h) == (old(self)@.contains(h) && !failed@.subrange(
                        0,
                        i as int,
                    ).contains(h)),
            decreases n - i,
        {
            let ghost before = self@;
            self.unsubscribe(failed[i]);
            assert forall|h: u64| #[trigger]
                self@.contains(h) == (old(self)@.contains(h) && !failed@.subrange(
                    0,
                    i + 1,
                ).contains(h)) by {
                assert(failed@.subrange(0, i + 1) == failed@.subrange(0, i as int).push(
                    failed@[i as int],
                ));
                vstd::seq_lib::lemma_seq_contains_after_push(
                    failed@.subrange(0, i as int),
                    failed@[i as int],
                    h,
                );
                assert(before.contains(h) == (old(self)@.contains(h) && !failed@.subrange(
                    0,
                    i as int,
                ).contains(h)));
            }
            i = i + 1;
        }
        assert(failed@.subrange(0, n as int) == failed@);
    }
}

proof fn lemma_remove_at(start: Seq<u64>, i: int, after: Seq<u64>, bound: u64)
    requires
        0 <= i < start.len(),
        start.no_duplicates(),
        forall|j: int| 0 <= j < start.len() ==> #[trigger] start[j] < bound,
        after == start.remove(i),
    ensures
        after.no_duplicates(),
        forall|j: int| 0 <= j < after.len() ==> #[trigger] after[j] < bound,
        after.len() == start.len() - 1,
        forall|h: u64| #[trigger] after.contains(h) == (start.contains(h) && h != start[i]),
{
    assert forall|j: int| 0 <= j < after.len() implies after[j] == if j < i {
        start[j]
    } else {
        start[j + 1]
    } by {}
    assert forall|h: u64| #[trigger] after.contains(h) == (start.contains(h) && h != start[i]) by {
        if start.contains(h) && h != start[i] {
            let k = choose|k: int| 0 <= k < start.len() && start[k] == h;
            if k < i {
                assert(after[k] == h);
            } else {
                assert(after[k - 1] == h);
            }
        }
        if after.contains(h) {
            let k = choose|k: int| 0 <= k < after.len() && after[k] == h;
            if k < i {
                assert(start[k] == h);
            } else {
                assert(start[k + 1] == h);
            }
        }
    }
}

} // verus!

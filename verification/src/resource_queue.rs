//! Resources that wait for their assets to load.
//!
//! Asset handles are queued; each pass over the queue moves the handles whose
//! assets have finished loading to the finished list, in queue order, and
//! puts the others back in the order they had. Handles are plain ids here;
//! whether an asset has loaded is asked of the asset server by the caller.
use vstd::prelude::*;
use std::collections::VecDeque;

verus! {

/// The handles still waiting in `w`, given which of them have loaded.
pub open spec fn still_waiting(w: Seq<u64>, loaded: Seq<bool>) -> Seq<u64>
    decreases w.len(),
{
    if w.len() == 0 {
        Seq::empty()
    } else {
        let prev = still_waiting(w.drop_last(), loaded.take(w.len() - 1));
        if loaded[w.len() - 1] {
            prev
        } else {
            prev.push(w.last())
        }
    }
}

/// The handles of `w` that have loaded, in order.
pub open spec fn now_ready(w: Seq<u64>, loaded: Seq<bool>) -> Seq<u64>
    decreases w.len(),
{
    if w.len() == 0 {
        Seq::empty()
    } else {
        let prev = now_ready(w.drop_last(), loaded.take(w.len() - 1));
        if loaded[w.len() - 1] {
            prev.push(w.last())
        } else {
            prev
        }
    }
}

/// The handles queued for loading and those already turned into resources.
pub struct ResourceHandles {
    pub waiting: VecDeque<u64>,
    pub finished: Vec<u64>,
}

impl ResourceHandles {
    /// An empty queue.
    pub fn new() -> (r: ResourceHandles)
        ensures
            r.waiting@.len() == 0,
            r.finished@.len() == 0,
    {
        ResourceHandles { waiting: VecDeque::new(), finished: Vec::new() }
    }

    /// Whether every queued handle has become a resource.
    pub fn is_all_done(&self) -> (done: bool)
        ensures
            done == (self.waiting@.len() == 0),
    {
        self.waiting.len() == 0
    }

    /// Queues a handle.
    pub fn push_waiting(&mut self, handle: u64)
        ensures
            final(self).waiting@ == old(self).waiting@.push(handle),
            final(self).finished@ == old(self).finished@,
    {
        self.waiting.push_back(handle);
    }

    /// One pass over the queue: `loaded[i]` tells whether the asset of the
    /// `i`-th waiting handle has loaded. Returns the handles that became
    /// ready, in queue order; the caller turns them into resources.
    pub fn process_pass(&mut self, loaded: &Vec<bool>) -> (ready: Vec<u64>)
        requires
            loaded@.len() == old(self).waiting@.len(),
            old(self).finished@.len() + old(self).waiting@.len() <= usize::MAX,
        ensures
            final(self).waiting@ == still_waiting(old(self).waiting@, loaded@),
            ready@ == now_ready(old(self).waiting@, loaded@),
            final(self).finished@ == old(self).finished@ + ready@,
    {
        let ghost w0 = self.waiting@;
        let ghost f0 = self.finished@;
        let n = self.waiting.len();
        let mut ready: Vec<u64> = Vec::new();
        let mut i: usize = 0;
        proof {
            assert(w0.skip(0) =~= w0);
            assert(w0.take(0) =~= Seq::<u64>::empty());
            assert(self.waiting@ =~= w0.skip(0) + still_waiting(w0.take(0), loaded@.take(0)));
            assert(self.finished@ =~= f0 + now_ready(w0.take(0), loaded@.take(0)));
        }
        while i < n
            invariant
                n == w0.len(),
                loaded@.len() == n,
                i <= n,
                f0.len() + n <= usize::MAX,
                self.waiting@ == w0.skip(i as int) + still_waiting(w0.take(i as int), loaded@.take(i as int)),
                ready@ == now_ready(w0.take(i as int), loaded@.take(i as int)),
                self.finished@ == f0 + ready@,
                ready@.len() <= i,
            decreases n - i,
        {
            let ghost before = self.waiting@;
            let h = match self.waiting.pop_front() {
                Some(h) => h,
                None => {
                    proof {
                        assert(w0.skip(i as int).len() > 0);
                    }
                    return ready;
                },
            };
            proof {
                assert(h == w0[i as int]);
                assert(w0.take(i + 1).drop_last() =~= w0.take(i as int));
                assert(loaded@.take(i + 1).take(i as int) =~= loaded@.take(i as int));
                assert(w0.take(i + 1).last() == h);
                assert(w0.skip(i as int).subrange(1, w0.skip(i as int).len() as int) =~= w0.skip(i + 1));
            }
            if loaded[i] {
                self.finished.push(h);
                ready.push(h);
                proof {
                    assert(self.waiting@ =~= w0.skip(i + 1) + still_waiting(w0.take(i + 1), loaded@.take(i + 1)));
                    assert(self.finished@ =~= f0 + ready@);
                }
            } else {
                self.waiting.push_back(h);
                proof {
                    assert(self.waiting@ =~= w0.skip(i + 1) + still_waiting(w0.take(i + 1), loaded@.take(i + 1)));
                }
            }
            i = i + 1;
        }
        proof {
            assert(w0.take(n as int) =~= w0);
            assert(loaded@.take(n as int) =~= loaded@);
            assert(w0.skip(n as int) =~= Seq::<u64>::empty());
            assert(self.waiting@ =~= still_waiting(w0, loaded@));
        }
        ready
    }
}

/// A pass loses no handle and invents none: every waiting handle either
/// stays waiting or becomes ready.
pub proof fn lemma_pass_conserves_handles(w: Seq<u64>, loaded: Seq<bool>)
    requires
        loaded.len() == w.len(),
    ensures
        still_waiting(w, loaded).to_multiset().add(now_ready(w, loaded).to_multiset()) == w.to_multiset(),
        still_waiting(w, loaded).len() + now_ready(w, loaded).len() == w.len(),
    decreases w.len(),
{
    broadcast use vstd::seq_lib::group_to_multiset_ensures;
    if w.len() > 0 {
        let l1 = loaded.take(w.len() - 1);
        lemma_pass_conserves_handles(w.drop_last(), l1);
        assert(w.drop_last().push(w.last()) =~= w);
        assert(w.to_multiset() =~= w.drop_last().to_multiset().insert(w.last()));
    } else {
        assert(w.to_multiset() =~= vstd::multiset::Multiset::empty());
    }
}

/// After a pass, the queue is done exactly when every waiting asset had loaded.
pub proof fn lemma_pass_done_iff_all_loaded(w: Seq<u64>, loaded: Seq<bool>)
    requires
        loaded.len() == w.len(),
    ensures
        (still_waiting(w, loaded).len() == 0) == (forall|i: int| 0 <= i < w.len() ==> loaded[i]),
    decreases w.len(),
{
    if w.len() > 0 {
        let l1 = loaded.take(w.len() - 1);
        lemma_pass_done_iff_all_loaded(w.drop_last(), l1);
        if forall|i: int| 0 <= i < w.len() ==> loaded[i] {
            assert forall|i: int| 0 <= i < w.len() - 1 implies l1[i] by {
                assert(loaded[i]);
            }
        }
        if still_waiting(w, loaded).len() == 0 {
            assert(loaded[w.len() - 1]);
            assert forall|i: int| 0 <= i < w.len() implies loaded[i] by {
                if i < w.len() - 1 {
                    assert(l1[i]);
                }
            }
        }
    }
}

} // verus!

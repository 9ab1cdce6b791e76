//! The resource cache's bookkeeping: one slot per seed, built at most once.
//!
//! The expensive per-seed resource itself is opaque to this crate; the cache
//! records which seeds have a slot and hands out slot numbers. A seed gets a
//! fresh slot exactly on its first appearance, so whoever keeps the built
//! resources — one per slot, in order — builds each at most once. The
//! surrounding process serializes calls with a single lock and never evicts,
//! which is this cache's intended, process-lifetime retention.

use vstd::prelude::*;
use crate::bytes::bytes_eq;

verus! {

/// Seeds that own a slot, in the order their slots were assigned.
pub struct SeedCache {
    seeds: Vec<Vec<u8>>,
}

impl View for SeedCache {
    type V = Seq<Seq<u8>>;

    closed spec fn view(&self) -> Seq<Seq<u8>> {
        Seq::new(self.seeds@.len(), |i: int| self.seeds@[i]@)
    }
}

impl SeedCache {
    /// No seed owns two slots.
    pub open spec fn wf(&self) -> bool {
        forall|i: int, j: int| 0 <= i < j < self@.len() ==> self@[i] != self@[j]
    }

    /// The seed already owns a slot.
    pub open spec fn has_seed(&self, seed: Seq<u8>) -> bool {
        exists|i: int| 0 <= i < self@.len() && self@[i] == seed
    }

    /// An empty cache: no seed owns a slot yet.
    pub fn new() -> (c: SeedCache)
        ensures
            c@ =~= Seq::<Seq<u8>>::empty(),
            c.wf(),
    {
        SeedCache { seeds: Vec::new() }
    }

    /// How many slots exist — equally, how many resources were ever built.
    pub fn builds(&self) -> (n: usize)
        ensures
            n == self@.len(),
    {
        self.seeds.len()
    }

    /// Returns the seed's slot, assigning the next fresh one on its first
    /// appearance; the second component says whether the slot is fresh and a
    /// resource must be built for it. A seed already present changes
    /// nothing, so each seed's resource is built at most once.
    pub fn get_or_build(&mut self, seed: &Vec<u8>) -> (r: (usize, bool))
        requires
            old(self).wf(),
        ensures
            final(self).wf(),
            r.0 < final(self)@.len(),
            final(self)@[r.0 as int] == seed@,
            r.1 == !old(self).has_seed(seed@),
            !r.1 ==> final(self)@ == old(self)@,
            r.1 ==> final(self)@ == old(self)@.push(seed@) && r.0 == old(self)@.len(),
    {
        let ghost prior = self@;
        let mut i: usize = 0;
        while i < self.seeds.len()
            invariant
                i <= self@.len(),
                self@ == prior,
                self.wf(),
                forall|j: int| 0 <= j < i ==> self@[j] != seed@,
            decreases self@.len() - i,
        {
            if bytes_eq(self.seeds[i].as_slice(), seed.as_slice()) {
                assert(self@[i as int] == seed@);
                return (i, false);
            }
            i += 1;
        }
        let slot = self.seeds.len();
        let mut copy: Vec<u8> = Vec::new();
        let mut k: usize = 0;
        while k < seed.len()
            invariant
                k <= seed@.len(),
                copy@ == seed@.take(k as int),
            decreases seed@.len() - k,
        {
            proof {
                assert(seed@.take(k as int).push(seed@[k as int]) =~= seed@.take(k as int + 1));
            }
            copy.push(seed[k]);
            k += 1;
        }
        proof {
            assert(copy@ =~= seed@);
        }
        self.seeds.push(copy);
        proof {
            assert(self@ =~= prior.push(seed@));
        }
        (slot, true)
    }

    /// Law: in a well-formed cache a seed owns at most one slot — two slots
    /// holding the same seed are the same slot.
    pub proof fn lemma_one_slot_per_seed(&self, i: int, j: int)
        requires
            self.wf(),
            0 <= i < self@.len(),
            0 <= j < self@.len(),
            self@[i] == self@[j],
        ensures
            i == j,
    {
    }
}

} // verus!

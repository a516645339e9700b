use vstd::prelude::*;
use std::collections::HashMap;

verus! {

broadcast use vstd::std_specs::hash::group_hash_axioms;

/// Acknowledgement numbering of the reliable packets sent to one address: the last
/// number given out, and for each number the index of the packet it was given to.
pub struct AckState {
    ack: u32,
    acks: HashMap<u32, usize>,
}

impl AckState {
    /// The last number given out (or the starting number).
    pub closed spec fn last(&self) -> u32 {
        self.ack
    }

    /// The packet index of each number given out.
    pub closed spec fn numbered(&self) -> Map<u32, usize> {
        self.acks@
    }

    /// No number above the last one has been given out.
    pub open spec fn wf(&self) -> bool {
        forall|n: u32| #[trigger] self.numbered().contains_key(n) ==> n <= self.last()
    }

    /// A state whose numbering continues after `ack`, with no packet numbered yet.
    pub fn from_ack(ack: u32) -> (s: AckState)
        ensures
            s.last() == ack,
            s.numbered() == Map::<u32, usize>::empty(),
            s.wf(),
    {
        AckState { ack, acks: HashMap::new() }
    }

    /// Gives the next number to the packet at `index` and returns the number, which no
    /// packet had before.
    pub fn add_ack(&mut self, index: usize) -> (n: u32)
        requires
            old(self).last() < u32::MAX,
        ensures
            n == old(self).last() + 1,
            final(self).last() == n,
            final(self).numbered() == old(self).numbered().insert(n, index),
            old(self).wf() ==> final(self).wf() && !old(self).numbered().contains_key(n),
    {
        self.ack = self.ack + 1;
        self.acks.insert(self.ack, index);
        assert forall|k: u32| #[trigger] self.numbered().contains_key(k) && old(self).wf() implies k <= self.last() by {
            if k != self.ack {
                assert(old(self).numbered().contains_key(k));
            }
        }
        self.ack
    }
}

} // verus!

//! The registry of the floods a node has passed on.
use crate::network::NodeId;
use std::collections::HashSet;
use vstd::prelude::*;

verus! {

/// The one number that stands for a flood in the registry.
pub open spec fn flood_key(flood: (u64, NodeId)) -> u128 {
    (flood.0 * 256 + flood.1) as u128
}

/// Different floods have different keys.
pub proof fn lemma_flood_key_injective(a: (u64, NodeId), b: (u64, NodeId))
    ensures
        flood_key(a) == flood_key(b) <==> a == b,
{
}

/// The floods a node has passed on, each known by its identifier and its
/// initiator. Floods are added and never taken out.
#[derive(Debug)]
pub struct SeenFloods {
    keys: HashSet<u128>,
}

impl View for SeenFloods {
    type V = Set<(u64, NodeId)>;

    closed spec fn view(&self) -> Set<(u64, NodeId)> {
        Set::new(|flood: (u64, NodeId)| self.keys@.contains(flood_key(flood)))
    }
}

impl SeenFloods {
    /// The registry that holds no flood.
    pub fn new() -> (res: Self)
        ensures
            res@ == Set::<(u64, NodeId)>::empty(),
    {
        let res = SeenFloods { keys: HashSet::new() };
        proof {
            assert(res@ =~= Set::<(u64, NodeId)>::empty());
        }
        res
    }

    /// Whether the flood `flood_id` of `initiator_id` is in the registry.
    pub fn contains(&self, flood_id: u64, initiator_id: NodeId) -> (res: bool)
        ensures
            res == self@.contains((flood_id, initiator_id)),
    {
        broadcast use vstd::std_specs::hash::group_hash_axioms;

        let key: u128 = flood_id as u128 * 256 + initiator_id as u128;
        self.keys.contains(&key)
    }

    /// Puts the flood `flood_id` of `initiator_id` into the registry.
    pub fn insert(&mut self, flood_id: u64, initiator_id: NodeId)
        ensures
            final(self)@ == old(self)@.insert((flood_id, initiator_id)),
    {
        broadcast use vstd::std_specs::hash::group_hash_axioms;

        let key: u128 = flood_id as u128 * 256 + initiator_id as u128;
        self.keys.insert(key);
        proof {
            assert forall|flood: (u64, NodeId)|
                self@.contains(flood) <==> old(self)@.insert((flood_id, initiator_id)).contains(
                    flood,
                ) by {
                lemma_flood_key_injective(flood, (flood_id, initiator_id));
            }
            assert(self@ =~= old(self)@.insert((flood_id, initiator_id)));
        }
    }
}

} // verus!

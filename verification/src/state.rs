//! The three containers of a node: the seen-set, the neighbour list and the
//! map of unacknowledged deliveries.

use std::collections::{HashMap, HashSet};
use vstd::prelude::*;
use vstd::seq_lib::seq_to_set_is_finite;
use vstd::std_specs::hash::*;
use vstd::std_specs::iter::IteratorSpec;
use crate::model::NodeModel;
use crate::peers::{clone_peers, peer_ids};

verus! {

broadcast use vstd::std_specs::hash::group_hash_axioms;

/// The mutable state of a node. The peers that a message is owed to are kept
/// as a list in which no peer occurs twice.
pub struct NodeState {
    seen: HashSet<u64>,
    neighbours: Vec<String>,
    unacked: HashMap<u64, Vec<String>>,
}

impl View for NodeState {
    type V = NodeModel;

    closed spec fn view(&self) -> NodeModel {
        NodeModel {
            seen: self.seen@,
            neighbours: peer_ids(self.neighbours@),
            unacked: Map::new(
                |m: u64| self.unacked@.contains_key(m),
                |m: u64| peer_ids(self.unacked@[m]@).to_set(),
            ),
        }
    }
}

impl NodeState {
    /// Only accepted messages are tracked, and no peer is listed twice for a
    /// message.
    #[verifier::type_invariant]
    spec fn well_formed(&self) -> bool {
        &&& forall|m: u64| self.unacked@.contains_key(m) ==> self.seen@.contains(m)
        &&& forall|m: u64|
            self.unacked@.contains_key(m) ==> peer_ids(
                (#[trigger] self.unacked@[m])@,
            ).no_duplicates()
    }

    /// A well-formed state stands for a valid one.
    proof fn lemma_view_valid(&self)
        requires
            self.well_formed(),
        ensures
            self@.valid(),
    {
        let unacked = self@.unacked;
        assert forall|m: u64| unacked.contains_key(m) implies (#[trigger] unacked[m]).finite() by {
            seq_to_set_is_finite(peer_ids(self.unacked@[m]@));
        }
    }

    /// A state that has accepted nothing and fans out to `neighbours`.
    pub fn new(neighbours: Vec<String>) -> (state: Self)
        ensures
            state@ == NodeModel::fresh(peer_ids(neighbours@)),
    {
        let state = NodeState { seen: HashSet::new(), neighbours, unacked: HashMap::new() };
        assert(state@.unacked =~= Map::empty());
        state
    }

    /// Establishes for the caller that the state is valid, as every state is.
    /// Does nothing when run.
    pub(crate) fn confirm_valid(&self)
        ensures
            self@.valid(),
    {
        proof {
            use_type_invariant(self);
            self.lemma_view_valid();
        }
    }

    /// Moves the state out, leaving an empty one behind.
    fn take(&mut self) -> (taken: NodeState)
        ensures
            taken == *old(self),
    {
        let mut taken = NodeState::new(Vec::new());
        std::mem::swap(self, &mut taken);
        taken
    }

    /// The deduplication gate: records `message` and tells whether it was new.
    pub fn observe(&mut self, message: u64) -> (fresh: bool)
        ensures
            fresh == !old(self)@.seen.contains(message),
            final(self)@ == old(self)@.observe(message),
            final(self)@.valid(),
    {
        let taken = self.take();
        proof {
            use_type_invariant(&taken);
        }
        let NodeState { mut seen, neighbours, unacked } = taken;
        let fresh = seen.insert(message);
        *self = NodeState { seen, neighbours, unacked };
        proof {
            assert(self@.unacked =~= old(self)@.unacked);
            self.lemma_view_valid();
        }
        fresh
    }

    /// A copy of the seen-set: every accepted message value once, in no
    /// particular order.
    pub fn snapshot(&self) -> (messages: Vec<u64>)
        ensures
            messages@.no_duplicates(),
            messages@.to_set() == self@.seen,
            self@.valid(),
    {
        proof {
            use_type_invariant(self);
            self.lemma_view_valid();
        }
        let ghost keys = spec_hash_keys_iter(&self.seen).remaining();
        let mut messages: Vec<u64> = Vec::new();
        for value in it: self.seen.iter()
            invariant
                it.seq() == keys,
                messages@ == keys.take(it.index()).unref(),
        {
            messages.push(*value);
        }
        assert(keys.take(keys.len() as int) == keys);
        messages
    }

    /// Overwrites the neighbour list.
    pub fn replace_neighbours(&mut self, neighbours: Vec<String>)
        ensures
            final(self)@ == old(self)@.replace_neighbours(peer_ids(neighbours@)),
            final(self)@.valid(),
    {
        let taken = self.take();
        proof {
            use_type_invariant(&taken);
        }
        let NodeState { seen, neighbours: _, unacked } = taken;
        *self = NodeState { seen, neighbours, unacked };
        proof {
            assert(self@.unacked =~= old(self)@.unacked);
            self.lemma_view_valid();
        }
    }

    /// A copy of the neighbour list.
    pub fn neighbours(&self) -> (list: Vec<String>)
        ensures
            peer_ids(list@) == self@.neighbours,
    {
        clone_peers(&self.neighbours)
    }

    /// Starts tracking `message` as owed to `targets`, in place of what it was
    /// owed to before.
    pub(crate) fn arm(&mut self, message: u64, targets: Vec<String>)
        requires
            old(self)@.seen.contains(message),
            peer_ids(targets@).no_duplicates(),
        ensures
            final(self)@ == old(self)@.arm(message, peer_ids(targets@).to_set()),
            final(self)@.valid(),
    {
        let taken = self.take();
        proof {
            use_type_invariant(&taken);
        }
        let NodeState { seen, neighbours, mut unacked } = taken;
        unacked.insert(message, targets);
        *self = NodeState { seen, neighbours, unacked };
        proof {
            assert(self@.unacked =~= old(self)@.unacked.insert(
                message,
                peer_ids(targets@).to_set(),
            ));
            self.lemma_view_valid();
        }
    }

    /// Whether `message` is tracked as unacknowledged, be it owed to nobody.
    pub fn is_armed(&self, message: u64) -> (armed: bool)
        ensures
            armed == self@.unacked.contains_key(message),
    {
        self.unacked.contains_key(&message)
    }

    /// A copy of the peers that `message` is still owed to, each once; empty
    /// if the message is not tracked.
    pub fn pending(&self, message: u64) -> (peers: Vec<String>)
        ensures
            peer_ids(peers@).no_duplicates(),
            peer_ids(peers@).to_set() == self@.pending(message),
            self@.valid(),
    {
        proof {
            use_type_invariant(self);
            self.lemma_view_valid();
        }
        match self.unacked.get(&message) {
            Some(list) => clone_peers(list),
            None => {
                let peers: Vec<String> = Vec::new();
                assert(peer_ids(peers@).to_set() =~= Set::empty());
                peers
            },
        }
    }

    /// Stops tracking `message`.
    pub fn clear(&mut self, message: u64)
        ensures
            final(self)@ == old(self)@.clear(message),
            final(self)@.valid(),
    {
        let taken = self.take();
        proof {
            use_type_invariant(&taken);
        }
        let NodeState { seen, neighbours, mut unacked } = taken;
        unacked.remove(&message);
        *self = NodeState { seen, neighbours, unacked };
        proof {
            assert(self@.unacked =~= old(self)@.unacked.remove(message));
            self.lemma_view_valid();
        }
    }
}

impl Default for NodeState {
    /// A state that has accepted nothing and has no neighbours.
    fn default() -> (state: Self)
        ensures
            state@ == NodeModel::fresh(Seq::empty()),
    {
        let state = NodeState::new(Vec::new());
        assert(state@.neighbours =~= Seq::empty());
        state
    }
}

} // verus!

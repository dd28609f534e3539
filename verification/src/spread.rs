//! A simulated spread of one rumour over a set of nodes, round by round, for
//! display: which nodes a round reaches, and which nodes have been reached.

use vstd::prelude::*;
use vstd::string::StringExecFns;
use crate::peers::{clone_peers, contains_peer, lemma_push_contains, peer_ids, PeerId};

verus! {

/// The number of nodes that one round reaches at most.
pub const ROUND_SIZE: usize = 3;

/// How many nodes a round reaches when `waiting` nodes are left.
pub open spec fn round_size(waiting: nat) -> nat {
    if waiting <= ROUND_SIZE {
        waiting
    } else {
        ROUND_SIZE as nat
    }
}

/// The name of the node that shows as reached from the start.
pub open spec fn origin_name() -> PeerId {
    "A"@
}

/// The nodes that the next round reaches: the last of `waiting`, the very last
/// first, `ROUND_SIZE` of them or all if they are fewer. They leave `waiting`.
pub fn next_round(waiting: &mut Vec<String>) -> (reached: Vec<String>)
    ensures
        reached@.len() == round_size(old(waiting)@.len()),
        final(waiting)@ == old(waiting)@.take(old(waiting)@.len() - reached@.len()),
        forall|i: int|
            0 <= i < reached@.len() ==> reached@[i] == old(waiting)@[old(waiting)@.len() - 1 - i],
{
    let mut reached: Vec<String> = Vec::new();
    let mut round: usize = 0;
    while round < ROUND_SIZE && waiting.len() > 0
        invariant
            round <= ROUND_SIZE,
            reached@.len() == round,
            round <= old(waiting)@.len(),
            waiting@ == old(waiting)@.take(old(waiting)@.len() - round),
            forall|i: int|
                0 <= i < round ==> reached@[i] == old(waiting)@[old(waiting)@.len() - 1 - i],
        decreases ROUND_SIZE - round,
    {
        let name = waiting.pop().unwrap();
        reached.push(name);
        round += 1;
        assert(waiting@ == old(waiting)@.take(old(waiting)@.len() - round));
    }
    reached
}

/// What the display knows of the spread.
pub struct SpreadModel {
    /// The nodes on display, in order.
    pub nodes: Seq<PeerId>,
    /// The nodes that the rumour has reached.
    pub infected: Set<PeerId>,
}

/// The nodes on display and those among them that the rumour has reached. The
/// reached nodes are kept as a list in which no node occurs twice.
pub struct Spread {
    nodes: Vec<String>,
    infected: Vec<String>,
}

impl View for Spread {
    type V = SpreadModel;

    closed spec fn view(&self) -> SpreadModel {
        SpreadModel { nodes: peer_ids(self.nodes@), infected: peer_ids(self.infected@).to_set() }
    }
}

impl Spread {
    #[verifier::type_invariant]
    spec fn well_formed(&self) -> bool {
        peer_ids(self.infected@).no_duplicates()
    }

    /// The spread at its start: only the first node has the rumour.
    pub fn new(nodes: Vec<String>) -> (spread: Self)
        requires
            nodes@.len() > 0,
        ensures
            spread@.nodes == peer_ids(nodes@),
            spread@.infected == set![peer_ids(nodes@)[0]],
    {
        let mut infected: Vec<String> = Vec::new();
        infected.push(nodes[0].clone());
        assert(peer_ids(infected@) =~= seq![peer_ids(nodes@)[0]]);
        assert(peer_ids(infected@).to_set() =~= set![peer_ids(nodes@)[0]]) by {
            assert(peer_ids(infected@)[0] == peer_ids(nodes@)[0]);
        }
        Spread { nodes, infected }
    }

    /// Records that the rumour has reached `node`.
    pub fn infect(&mut self, node: String)
        ensures
            final(self)@.nodes == old(self)@.nodes,
            final(self)@.infected == old(self)@.infected.insert(node@),
    {
        let mut taken = Spread { nodes: Vec::new(), infected: Vec::new() };
        std::mem::swap(self, &mut taken);
        proof {
            use_type_invariant(&taken);
        }
        let Spread { nodes, mut infected } = taken;
        let ghost before = peer_ids(infected@);
        if !contains_peer(&infected, &node) {
            infected.push(node);
            assert(peer_ids(infected@) == before.push(node@));
        }
        assert(peer_ids(infected@).to_set() =~= before.to_set().insert(node@)) by {
            assert forall|p: PeerId|
                peer_ids(infected@).contains(p) <==> (before.contains(p) || p == node@) by {
                lemma_push_contains(before, node@, p);
            }
        }
        *self = Spread { nodes, infected };
    }

    /// Whether the rumour has reached `node`.
    pub fn is_infected(&self, node: &String) -> (reached: bool)
        ensures
            reached == self@.infected.contains(node@),
    {
        contains_peer(&self.infected, node)
    }

    /// Whether `node` shows as reached: it is, or it is the origin.
    pub fn shows_reached(&self, node: &String) -> (lit: bool)
        ensures
            lit == (self@.infected.contains(node@) || node@ == origin_name()),
    {
        let origin = String::from_str("A");
        self.is_infected(node) || *node == origin
    }

    /// How many nodes the rumour has reached.
    pub fn infected_count(&self) -> (count: usize)
        ensures
            count == self@.infected.len(),
    {
        proof {
            use_type_invariant(self);
            peer_ids(self.infected@).unique_seq_to_set();
        }
        self.infected.len()
    }

    /// How many nodes are on display.
    pub fn node_count(&self) -> (count: usize)
        ensures
            count == self@.nodes.len(),
    {
        self.nodes.len()
    }

    /// A copy of the names of the nodes on display, in order.
    pub fn nodes(&self) -> (names: Vec<String>)
        ensures
            peer_ids(names@) == self@.nodes,
    {
        clone_peers(&self.nodes)
    }
}

} // verus!

//! The requests and replies that a node exchanges, and the topology table that
//! a `topology` request carries.

use vstd::prelude::*;
use crate::peers::{clone_peers, peer_ids, PeerId};

verus! {

/// One body of the wire protocol. On the wire each variant is told apart by its
/// `type` tag: `init`, `read`, `read_ok`, `broadcast` and `topology`.
#[derive(Clone, Debug, PartialEq, Eq)]
pub enum Request {
    /// Start-up notice; the runtime consumes it.
    Init {  },
    /// Asks for every message value the node has accepted.
    Read {  },
    /// The answer to `Read`.
    ReadOk { messages: Vec<u64> },
    /// Hands the node one message value, from a client or from a peer.
    Broadcast { message: u64 },
    /// Assigns neighbours: one entry per node, a later entry for the same node
    /// replacing an earlier one.
    Topology { topology: Vec<(String, Vec<String>)> },
}

/// What a [`Request`] says, independent of how it is stored.
pub enum RequestView {
    Init,
    Read,
    ReadOk { messages: Seq<u64> },
    Broadcast { message: u64 },
    Topology { topology: Map<PeerId, Seq<PeerId>> },
}

/// The mapping from node to neighbour list that topology entries describe.
pub open spec fn topology_of(entries: Seq<(String, Vec<String>)>) -> Map<PeerId, Seq<PeerId>>
    decreases entries.len(),
{
    if entries.len() == 0 {
        Map::empty()
    } else {
        topology_of(entries.drop_last()).insert(
            entries.last().0@,
            peer_ids(entries.last().1@),
        )
    }
}

impl View for Request {
    type V = RequestView;

    open spec fn view(&self) -> RequestView {
        match self {
            Request::Init {  } => RequestView::Init,
            Request::Read {  } => RequestView::Read,
            Request::ReadOk { messages } => RequestView::ReadOk { messages: messages@ },
            Request::Broadcast { message } => RequestView::Broadcast { message: *message },
            Request::Topology { topology } => RequestView::Topology {
                topology: topology_of(topology@),
            },
        }
    }
}

/// The tag that tells a body's variant apart on the wire.
pub open spec fn tag_of(request: RequestView) -> Seq<char> {
    match request {
        RequestView::Init => "init"@,
        RequestView::Read => "read"@,
        RequestView::ReadOk { .. } => "read_ok"@,
        RequestView::Broadcast { .. } => "broadcast"@,
        RequestView::Topology { .. } => "topology"@,
    }
}

impl Request {
    /// The value of the `type` field of this body on the wire.
    pub fn tag(&self) -> (tag: &'static str)
        ensures
            tag@ == tag_of(self@),
    {
        match self {
            Request::Init {  } => "init",
            Request::Read {  } => "read",
            Request::ReadOk { .. } => "read_ok",
            Request::Broadcast { .. } => "broadcast",
            Request::Topology { .. } => "topology",
        }
    }
}

/// A node that no entry names has no place in the mapping.
pub proof fn lemma_topology_absent(entries: Seq<(String, Vec<String>)>, peer: PeerId)
    requires
        forall|j: int| 0 <= j < entries.len() ==> entries[j].0@ != peer,
    ensures
        !topology_of(entries).contains_key(peer),
    decreases entries.len(),
{
    if entries.len() > 0 {
        lemma_topology_absent(entries.drop_last(), peer);
    }
}

/// The last entry that names a node decides its neighbour list.
pub proof fn lemma_topology_last_entry(entries: Seq<(String, Vec<String>)>, k: int, peer: PeerId)
    requires
        0 <= k < entries.len(),
        entries[k].0@ == peer,
        forall|j: int| k < j < entries.len() ==> entries[j].0@ != peer,
    ensures
        topology_of(entries).contains_key(peer),
        topology_of(entries)[peer] == peer_ids(entries[k].1@),
    decreases entries.len(),
{
    if k < entries.len() - 1 {
        lemma_topology_last_entry(entries.drop_last(), k, peer);
    }
}

/// The neighbour list that `topology` assigns to `peer`, if it names `peer`.
pub fn neighbours_of(topology: &Vec<(String, Vec<String>)>, peer: &String) -> (found: Option<
    Vec<String>,
>)
    ensures
        found is Some <==> topology_of(topology@).contains_key(peer@),
        found matches Some(list) ==> peer_ids(list@) == topology_of(topology@)[peer@],
{
    let mut i: usize = topology.len();
    while i > 0
        invariant
            i <= topology.len(),
            forall|j: int| i <= j < topology.len() ==> topology@[j].0@ != peer@,
        decreases i,
    {
        i -= 1;
        if topology[i].0 == *peer {
            proof {
                lemma_topology_last_entry(topology@, i as int, peer@);
            }
            return Some(clone_peers(&topology[i].1));
        }
    }
    proof {
        lemma_topology_absent(topology@, peer@);
    }
    None
}

} // verus!

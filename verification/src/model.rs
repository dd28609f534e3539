//! The mathematical state of a node and the transitions that requests and
//! retry attempts cause.

use vstd::prelude::*;
use crate::peers::{fanout, PeerId};
use crate::request::RequestView;

verus! {

/// Why a request got no reply.
#[derive(Clone, Copy, Debug, PartialEq, Eq, Structural)]
pub enum Fault {
    /// The body could not be decoded into a request.
    ParseError,
    /// The body is a request that a node does not answer.
    Unsupported,
    /// A topology that does not name this node.
    UnknownTopologyEntry,
}

/// What the handler answers to one request.
pub enum Answer {
    /// `read_ok` with these message values, in any order.
    ReadOk { messages: Set<u64> },
    /// The empty OK. `retry` names the message that was newly accepted, for
    /// which a retry task is to start.
    EmptyOk { retry: Option<u64> },
    /// No reply; the request goes to the terminate path.
    Terminate { fault: Fault },
}

/// Something that happens at a node.
pub enum Event {
    /// The handler runs on a request from `sender`; `request` is `None` where
    /// the body could not be decoded.
    Delivery { sender: PeerId, request: Option<RequestView> },
    /// The retry task of `message` makes one attempt.
    Attempt { message: u64 },
}

impl Event {
    /// Whether this event is a delivery of `broadcast` with `message`.
    pub open spec fn delivers(self, message: u64) -> bool {
        self matches Event::Delivery { request, .. } && request == Some(
            RequestView::Broadcast { message },
        )
    }
}

/// The state of a node.
pub struct NodeModel {
    /// Every message value accepted so far.
    pub seen: Set<u64>,
    /// The peers that new messages are fanned out to.
    pub neighbours: Seq<PeerId>,
    /// For each message still being retried, the peers that are yet to get it.
    pub unacked: Map<u64, Set<PeerId>>,
}

impl NodeModel {
    /// A node that has accepted nothing.
    pub open spec fn fresh(neighbours: Seq<PeerId>) -> NodeModel {
        NodeModel { seen: Set::empty(), neighbours, unacked: Map::empty() }
    }

    /// Only accepted messages are retried, and each is owed to finitely many
    /// peers.
    pub open spec fn valid(self) -> bool {
        &&& forall|m: u64| self.unacked.contains_key(m) ==> self.seen.contains(m)
        &&& forall|m: u64| self.unacked.contains_key(m) ==> (#[trigger] self.unacked[m]).finite()
    }

    /// No message is owed to `peer`.
    pub open spec fn excludes(self, peer: PeerId) -> bool {
        forall|m: u64| self.unacked.contains_key(m) ==> !(#[trigger] self.unacked[m]).contains(peer)
    }

    /// The peers that `message` is still owed to; none if it is not retried.
    pub open spec fn pending(self, message: u64) -> Set<PeerId> {
        if self.unacked.contains_key(message) {
            self.unacked[message]
        } else {
            Set::empty()
        }
    }

    /// The state after `message` went through the deduplication gate.
    pub open spec fn observe(self, message: u64) -> NodeModel {
        NodeModel { seen: self.seen.insert(message), ..self }
    }

    /// The state after the neighbour list was overwritten.
    pub open spec fn replace_neighbours(self, neighbours: Seq<PeerId>) -> NodeModel {
        NodeModel { neighbours, ..self }
    }

    /// The state after `message` began to be tracked as owed to `targets`.
    pub open spec fn arm(self, message: u64, targets: Set<PeerId>) -> NodeModel {
        NodeModel { unacked: self.unacked.insert(message, targets), ..self }
    }

    /// The state after `message` stopped being tracked.
    pub open spec fn clear(self, message: u64) -> NodeModel {
        NodeModel { unacked: self.unacked.remove(message), ..self }
    }

    /// The state after `sender` delivered `message` to the node `identity`: a
    /// message seen before changes nothing; a new one is recorded and owed to
    /// the fan-out set.
    pub open spec fn accept(self, identity: PeerId, sender: PeerId, message: u64) -> NodeModel {
        if self.seen.contains(message) {
            self
        } else {
            self.observe(message).arm(message, fanout(self.neighbours, sender, identity))
        }
    }

    /// The state after the node `identity` handled `request` from `sender`;
    /// `None` stands for a body that could not be decoded.
    pub open spec fn handle(
        self,
        identity: PeerId,
        sender: PeerId,
        request: Option<RequestView>,
    ) -> NodeModel {
        match request {
            Some(RequestView::Broadcast { message }) => self.accept(identity, sender, message),
            Some(RequestView::Topology { topology }) => if topology.contains_key(identity) {
                self.replace_neighbours(topology[identity])
            } else {
                self
            },
            _ => self,
        }
    }

    /// The answer of the node `identity` to `request`.
    pub open spec fn answer(self, identity: PeerId, request: Option<RequestView>) -> Answer {
        match request {
            None => Answer::Terminate { fault: Fault::ParseError },
            Some(RequestView::Read) => Answer::ReadOk { messages: self.seen },
            Some(RequestView::Broadcast { message }) => Answer::EmptyOk {
                retry: if self.seen.contains(message) {
                    None
                } else {
                    Some(message)
                },
            },
            Some(RequestView::Topology { topology }) => if topology.contains_key(identity) {
                Answer::EmptyOk { retry: None }
            } else {
                Answer::Terminate { fault: Fault::UnknownTopologyEntry }
            },
            Some(_) => Answer::Terminate { fault: Fault::Unsupported },
        }
    }

    /// Whether the retry task of `message` has nothing left to send.
    pub open spec fn drained(self, message: u64) -> bool {
        self.pending(message) =~= Set::empty()
    }

    /// The state after one attempt of the retry task of `message`: once
    /// nothing is owed the message stops being tracked; until then an attempt
    /// changes nothing.
    pub open spec fn attempt(self, message: u64) -> NodeModel {
        if self.drained(message) {
            self.clear(message)
        } else {
            self
        }
    }

    /// The state after one event at the node `identity`.
    pub open spec fn step(self, identity: PeerId, event: Event) -> NodeModel {
        match event {
            Event::Delivery { sender, request } => self.handle(identity, sender, request),
            Event::Attempt { message } => self.attempt(message),
        }
    }

    /// Whether `event` makes the node `identity` accept `message`, that is,
    /// start the retry task of `message`.
    pub open spec fn accepts(self, identity: PeerId, event: Event, message: u64) -> bool {
        event matches Event::Delivery { request, .. } && self.answer(identity, request)
            == (Answer::EmptyOk { retry: Some(message) })
    }

    /// The state after `events` happened in order at the node `identity`.
    pub open spec fn run(self, identity: PeerId, events: Seq<Event>) -> NodeModel
        decreases events.len(),
    {
        if events.len() == 0 {
            self
        } else {
            self.run(identity, events.drop_last()).step(identity, events.last())
        }
    }

    /// How often the retry task of `message` is started while `events` happen
    /// in order at the node `identity`.
    pub open spec fn launches(self, identity: PeerId, events: Seq<Event>, message: u64) -> nat
        decreases events.len(),
    {
        if events.len() == 0 {
            0
        } else {
            let earlier = self.launches(identity, events.drop_last(), message);
            if self.run(identity, events.drop_last()).accepts(identity, events.last(), message) {
                earlier + 1
            } else {
                earlier
            }
        }
    }
}

} // verus!

//! The node: what it answers to each request, and what each attempt of a
//! retry task does.

use vstd::prelude::*;
use crate::model::{Answer, Fault, NodeModel};
use crate::peers::{fanout_targets, peer_ids};
use crate::request::{neighbours_of, Request, RequestView};
use crate::shuffle::{attempt_size, draw_targets, lemma_drawn_distinct};
use crate::state::NodeState;

verus! {

/// What the runtime is to do after the handler has run.
#[derive(Debug, PartialEq, Eq)]
pub enum Outcome {
    /// Reply `read_ok` with these message values.
    ReadOk { messages: Vec<u64> },
    /// Reply with the empty OK; where `retry` names a message, start the retry
    /// task of that message, without waiting for it.
    EmptyOk { retry: Option<u64> },
    /// Send no reply and hand the request to the terminate path.
    Terminate { fault: Fault },
}

impl View for Outcome {
    type V = Answer;

    open spec fn view(&self) -> Answer {
        match self {
            Outcome::ReadOk { messages } => Answer::ReadOk { messages: messages@.to_set() },
            Outcome::EmptyOk { retry } => Answer::EmptyOk { retry: *retry },
            Outcome::Terminate { fault } => Answer::Terminate { fault: *fault },
        }
    }
}

/// What one attempt of a retry task does.
#[derive(Debug, PartialEq, Eq)]
pub enum RetryStep {
    /// Send the message to each of these peers, wait one retry period, then
    /// attempt again.
    Send { targets: Vec<String> },
    /// Nothing is owed any more: the task ends.
    Drained,
}

/// What a decoded body says; `None` where decoding failed.
pub open spec fn decoded(request: Option<Request>) -> Option<RequestView> {
    match request {
        Some(request) => Some(request@),
        None => None,
    }
}

/// A gossip node.
pub struct GossipNode {
    pub state: NodeState,
}

impl View for GossipNode {
    type V = NodeModel;

    open spec fn view(&self) -> NodeModel {
        self.state@
    }
}

impl GossipNode {
    /// A node that has accepted nothing and fans out to `neighbours`.
    pub fn new(neighbours: Vec<String>) -> (node: Self)
        ensures
            node@ == NodeModel::fresh(peer_ids(neighbours@)),
    {
        GossipNode { state: NodeState::new(neighbours) }
    }

    /// Every accepted message value once, in no particular order.
    pub fn snapshot(&self) -> (messages: Vec<u64>)
        ensures
            messages@.no_duplicates(),
            messages@.to_set() == self@.seen,
            self@.valid(),
    {
        self.state.snapshot()
    }

    /// Records `value` as accepted and tells whether it was new.
    pub fn try_add(&mut self, value: u64) -> (fresh: bool)
        ensures
            fresh == !old(self)@.seen.contains(value),
            final(self)@ == old(self)@.observe(value),
            final(self)@.valid(),
    {
        self.state.observe(value)
    }

    /// Handles one request that `sender` sent to this node, whose own name is
    /// `identity`; `request` is `None` where the body could not be decoded.
    pub fn process(
        &mut self,
        identity: &String,
        sender: &String,
        request: Option<Request>,
    ) -> (outcome: Outcome)
        ensures
            outcome@ == old(self)@.answer(identity@, decoded(request)),
            outcome matches Outcome::ReadOk { messages } ==> messages@.no_duplicates(),
            final(self)@ == old(self)@.handle(identity@, sender@, decoded(request)),
            final(self)@.valid(),
    {
        self.state.confirm_valid();
        match request {
            None => Outcome::Terminate { fault: Fault::ParseError },
            Some(Request::Read {  }) => Outcome::ReadOk { messages: self.snapshot() },
            Some(Request::Broadcast { message }) => {
                if self.try_add(message) {
                    let neighbours = self.state.neighbours();
                    let targets = fanout_targets(&neighbours, sender, identity);
                    self.state.arm(message, targets);
                    Outcome::EmptyOk { retry: Some(message) }
                } else {
                    assert(old(self)@.seen.insert(message) =~= old(self)@.seen);
                    Outcome::EmptyOk { retry: None }
                }
            },
            Some(Request::Topology { topology }) => {
                match neighbours_of(&topology, identity) {
                    Some(neighbours) => {
                        self.state.replace_neighbours(neighbours);
                        Outcome::EmptyOk { retry: None }
                    },
                    None => Outcome::Terminate { fault: Fault::UnknownTopologyEntry },
                }
            },
            Some(_) => Outcome::Terminate { fault: Fault::Unsupported },
        }
    }

    /// One attempt of the retry task of `message`. Where nothing is owed, the
    /// message stops being tracked and the task ends; else the attempt sends
    /// to distinct peers drawn at random among those owed, as many as an
    /// attempt takes, and the state stays.
    pub fn retry(&mut self, message: u64) -> (step: RetryStep)
        ensures
            final(self)@ == old(self)@.attempt(message),
            final(self)@.valid(),
            step is Drained <==> old(self)@.drained(message),
            step matches RetryStep::Send { targets } ==> {
                &&& peer_ids(targets@).no_duplicates()
                &&& peer_ids(targets@).to_set().subset_of(old(self)@.pending(message))
                &&& targets@.len() == attempt_size(old(self)@.pending(message).len())
            },
    {
        let pending = self.state.pending(message);
        if pending.len() == 0 {
            self.state.clear(message);
            assert(peer_ids(pending@).to_set() =~= Set::empty());
            RetryStep::Drained
        } else {
            assert(peer_ids(pending@).to_set().contains(peer_ids(pending@)[0]));
            let targets = draw_targets(pending);
            proof {
                lemma_drawn_distinct(peer_ids(targets@), peer_ids(pending@));
                peer_ids(pending@).unique_seq_to_set();
            }
            RetryStep::Send { targets }
        }
    }
}

impl Default for GossipNode {
    /// A node that has accepted nothing and has no neighbours yet.
    fn default() -> (node: Self)
        ensures
            node@ == NodeModel::fresh(Seq::empty()),
    {
        GossipNode { state: NodeState::default() }
    }
}

} // verus!

//! A single node of a broadcast-gossip cluster: the deduplication set, the
//! neighbour table, the tracker of unacknowledged deliveries and the decisions
//! of the request handler and of the per-message retry task.
//!
//! The node decides and the caller acts: [`node::GossipNode::process`] says
//! what to reply to a request and whether a retry task is to start, and
//! [`node::GossipNode::retry`] says what one attempt of such a task sends. All
//! of it is stated over the mathematical state in [`model`], of which [`laws`]
//! proves what holds whatever happens at a node.

pub mod peers;
pub mod request;
pub mod model;
pub mod state;
pub mod shuffle;
pub mod node;
pub mod laws;
pub mod spread;

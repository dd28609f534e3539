//! What holds of a node whatever requests and retry attempts it goes through.

use vstd::prelude::*;
use vstd::seq_lib::seq_to_set_is_finite;
use crate::model::{Answer, Event, NodeModel};
use crate::peers::{fanout, PeerId};
use crate::request::RequestView;
use crate::shuffle::attempt_size;

verus! {

/// The fan-out set is finite and holds neither the sender nor the node itself.
pub proof fn lemma_fanout_excludes(neighbours: Seq<PeerId>, sender: PeerId, identity: PeerId)
    ensures
        fanout(neighbours, sender, identity).finite(),
        !fanout(neighbours, sender, identity).contains(sender),
        !fanout(neighbours, sender, identity).contains(identity),
        fanout(neighbours, sender, identity).subset_of(neighbours.to_set()),
{
    seq_to_set_is_finite(neighbours);
}

/// Where the node is not among its own neighbours, the fan-out set is the
/// neighbours without the sender.
pub proof fn lemma_fanout_without_self(neighbours: Seq<PeerId>, sender: PeerId, identity: PeerId)
    requires
        !neighbours.contains(identity),
    ensures
        fanout(neighbours, sender, identity) == neighbours.to_set().remove(sender),
{
    assert(fanout(neighbours, sender, identity) =~= neighbours.to_set().remove(sender));
}

/// One event leaves only accepted messages tracked.
pub proof fn lemma_step_keeps_valid(node: NodeModel, identity: PeerId, event: Event)
    requires
        node.valid(),
    ensures
        node.step(identity, event).valid(),
{
    match event {
        Event::Delivery { sender, request } => {
            lemma_fanout_excludes(node.neighbours, sender, identity);
        },
        Event::Attempt { message } => {},
    }
}

/// Whatever happens at a node, every tracked message is an accepted one.
pub proof fn lemma_run_keeps_valid(node: NodeModel, identity: PeerId, events: Seq<Event>)
    requires
        node.valid(),
    ensures
        node.run(identity, events).valid(),
    decreases events.len(),
{
    if events.len() > 0 {
        lemma_run_keeps_valid(node, identity, events.drop_last());
        lemma_step_keeps_valid(node.run(identity, events.drop_last()), identity, events.last());
    }
}

/// One event at a node leaves no message owed to the node itself.
pub proof fn lemma_step_keeps_exclusion(node: NodeModel, identity: PeerId, event: Event)
    requires
        node.excludes(identity),
    ensures
        node.step(identity, event).excludes(identity),
{
}

/// Whatever happens at a node, no message is ever owed to the node itself.
pub proof fn lemma_run_keeps_exclusion(node: NodeModel, identity: PeerId, events: Seq<Event>)
    requires
        node.excludes(identity),
    ensures
        node.run(identity, events).excludes(identity),
        forall|message: u64| !node.run(identity, events).pending(message).contains(identity),
    decreases events.len(),
{
    if events.len() > 0 {
        lemma_run_keeps_exclusion(node, identity, events.drop_last());
        lemma_step_keeps_exclusion(
            node.run(identity, events.drop_last()),
            identity,
            events.last(),
        );
    }
}

/// A node that starts with nothing accepted never owes a message to itself,
/// whatever its neighbour lists hold.
pub proof fn lemma_never_owed_to_self(
    neighbours: Seq<PeerId>,
    identity: PeerId,
    events: Seq<Event>,
    message: u64,
)
    ensures
        !NodeModel::fresh(neighbours).run(identity, events).pending(message).contains(identity),
{
    lemma_run_keeps_exclusion(NodeModel::fresh(neighbours), identity, events);
}

/// A newly accepted message is owed to the fan-out set, which holds neither
/// the peer it came from nor the node itself.
pub proof fn lemma_sender_excluded(node: NodeModel, identity: PeerId, sender: PeerId, message: u64)
    requires
        !node.seen.contains(message),
    ensures
        node.accept(identity, sender, message).unacked.contains_key(message),
        node.accept(identity, sender, message).pending(message) == fanout(
            node.neighbours,
            sender,
            identity,
        ),
        !node.accept(identity, sender, message).pending(message).contains(sender),
        !node.accept(identity, sender, message).pending(message).contains(identity),
{
}

/// Once a message is accepted, no event adds a peer to those it is owed to.
pub proof fn lemma_step_owes_no_more(node: NodeModel, identity: PeerId, event: Event, message: u64)
    requires
        node.seen.contains(message),
    ensures
        node.step(identity, event).seen.contains(message),
        node.step(identity, event).pending(message).subset_of(node.pending(message)),
{
}

/// Once a message is accepted, whatever happens adds no peer to those it is
/// owed to.
pub proof fn lemma_run_owes_no_more(
    node: NodeModel,
    identity: PeerId,
    events: Seq<Event>,
    message: u64,
)
    requires
        node.seen.contains(message),
    ensures
        node.run(identity, events).seen.contains(message),
        node.run(identity, events).pending(message).subset_of(node.pending(message)),
    decreases events.len(),
{
    if events.len() > 0 {
        lemma_run_owes_no_more(node, identity, events.drop_last(), message);
        lemma_step_owes_no_more(
            node.run(identity, events.drop_last()),
            identity,
            events.last(),
            message,
        );
    }
}

/// A message is never owed to the peer it was accepted from, whatever happens
/// after the acceptance.
pub proof fn lemma_sender_never_owed(
    node: NodeModel,
    identity: PeerId,
    sender: PeerId,
    message: u64,
    later: Seq<Event>,
)
    requires
        !node.seen.contains(message),
    ensures
        !node.accept(identity, sender, message).run(identity, later).pending(message).contains(
            sender,
        ),
{
    lemma_sender_excluded(node, identity, sender, message);
    lemma_run_owes_no_more(node.accept(identity, sender, message), identity, later, message);
}

/// The seen-set only grows.
pub proof fn lemma_run_keeps_seen(node: NodeModel, identity: PeerId, events: Seq<Event>)
    ensures
        node.seen.subset_of(node.run(identity, events).seen),
    decreases events.len(),
{
    if events.len() > 0 {
        lemma_run_keeps_seen(node, identity, events.drop_last());
    }
}

/// Whatever deliveries and attempts happen, the retry task of a message is
/// started once if the message was new and has been delivered, and never
/// otherwise; and the message is in the seen-set exactly if it was there
/// before or its task has been started.
pub proof fn lemma_accepted_once(
    node: NodeModel,
    identity: PeerId,
    events: Seq<Event>,
    message: u64,
)
    ensures
        node.launches(identity, events, message) <= 1,
        node.launches(identity, events, message) == 1 <==> !node.seen.contains(message)
            && node.run(identity, events).seen.contains(message),
    decreases events.len(),
{
    if events.len() > 0 {
        lemma_accepted_once(node, identity, events.drop_last(), message);
        lemma_run_keeps_seen(node, identity, events.drop_last());
    }
}

/// Delivering the same message over and over, from any senders, does what its
/// first delivery does: the message is in the seen-set, and its retry task is
/// started once if the message was new.
pub proof fn lemma_idempotence(
    node: NodeModel,
    identity: PeerId,
    events: Seq<Event>,
    message: u64,
)
    requires
        events.len() > 0,
        forall|i: int| 0 <= i < events.len() ==> (#[trigger] events[i]).delivers(message),
    ensures
        node.run(identity, events) == node.step(identity, events[0]),
        node.run(identity, events).seen == node.seen.insert(message),
        node.launches(identity, events, message) == if node.seen.contains(message) {
            0nat
        } else {
            1nat
        },
    decreases events.len(),
{
    let earlier = events.drop_last();
    assert(events.last() == events[events.len() - 1]);
    if earlier.len() == 0 {
        assert(node.run(identity, earlier) == node);
        assert(events.last() == events[0]);
        assert(node.launches(identity, earlier, message) == 0);
    } else {
        assert forall|i: int| 0 <= i < earlier.len() implies (#[trigger] earlier[i]).delivers(
            message,
        ) by {
            assert(earlier[i] == events[i]);
        }
        lemma_idempotence(node, identity, earlier, message);
        assert(earlier[0] == events[0]);
        let before = node.run(identity, earlier);
        assert(before.seen.contains(message));
    }
    assert(node.seen.insert(message).insert(message) =~= node.seen.insert(message));
}

/// A node that starts with nothing accepted has in its seen-set, at any time,
/// exactly the messages that passed the deduplication gate as new up to then;
/// and that set is what it answers to a read.
pub proof fn lemma_snapshot_faithful(neighbours: Seq<PeerId>, identity: PeerId, events: Seq<Event>)
    ensures
        NodeModel::fresh(neighbours).run(identity, events).seen == Set::new(
            |message: u64| NodeModel::fresh(neighbours).launches(identity, events, message) > 0,
        ),
        NodeModel::fresh(neighbours).run(identity, events).answer(
            identity,
            Some(RequestView::Read),
        ) == (Answer::ReadOk {
            messages: Set::new(
                |message: u64|
                    NodeModel::fresh(neighbours).launches(identity, events, message) > 0,
            ),
        }),
{
    let node = NodeModel::fresh(neighbours);
    let accepted = Set::new(|message: u64| node.launches(identity, events, message) > 0);
    assert forall|message: u64| node.run(identity, events).seen.contains(message)
        <==> accepted.contains(message) by {
        lemma_accepted_once(node, identity, events, message);
    }
    assert(node.run(identity, events).seen =~= accepted);
}

/// Where some neighbour is neither the sender nor the node itself, the first
/// attempt after the acceptance of a new message sends it to at least one peer.
pub proof fn lemma_first_attempt_sends(
    node: NodeModel,
    identity: PeerId,
    sender: PeerId,
    message: u64,
    peer: PeerId,
)
    requires
        !node.seen.contains(message),
        node.neighbours.contains(peer),
        peer != sender,
        peer != identity,
    ensures
        !node.accept(identity, sender, message).drained(message),
        attempt_size(node.accept(identity, sender, message).pending(message).len()) >= 1,
{
    lemma_fanout_excludes(node.neighbours, sender, identity);
    let owed = node.accept(identity, sender, message).pending(message);
    assert(owed.contains(peer));
    if owed.len() == 0 {
        owed.lemma_len0_is_empty();
        assert(false);
    }
}

/// A topology request changes the neighbours at most: a read after it is
/// answered as one before it.
pub proof fn lemma_topology_keeps_seen(
    node: NodeModel,
    identity: PeerId,
    sender: PeerId,
    topology: Map<PeerId, Seq<PeerId>>,
)
    ensures
        node.handle(identity, sender, Some(RequestView::Topology { topology })).seen == node.seen,
        node.handle(identity, sender, Some(RequestView::Topology { topology })).unacked
            == node.unacked,
        node.handle(identity, sender, Some(RequestView::Topology { topology })).answer(
            identity,
            Some(RequestView::Read),
        ) == node.answer(identity, Some(RequestView::Read)),
{
}

/// A read changes nothing, and as long as no message is accepted every read
/// is answered alike.
pub proof fn lemma_reads_agree(
    node: NodeModel,
    identity: PeerId,
    sender: PeerId,
    between: Seq<Event>,
)
    requires
        forall|message: u64| node.launches(identity, between, message) == 0,
    ensures
        node.handle(identity, sender, Some(RequestView::Read)) == node,
        node.run(identity, between).answer(identity, Some(RequestView::Read)) == node.answer(
            identity,
            Some(RequestView::Read),
        ),
{
    assert forall|message: u64| node.run(identity, between).seen.contains(message)
        <==> node.seen.contains(message) by {
        lemma_accepted_once(node, identity, between, message);
        lemma_run_keeps_seen(node, identity, between);
    }
    assert(node.run(identity, between).seen =~= node.seen);
}

/// A node without neighbours owes a new message to nobody: the message is
/// tracked with no peers, and the first attempt of its retry task stops
/// tracking it.
pub proof fn lemma_no_neighbours(node: NodeModel, identity: PeerId, sender: PeerId, message: u64)
    requires
        !node.seen.contains(message),
        node.neighbours.len() == 0,
    ensures
        node.accept(identity, sender, message).seen == node.seen.insert(message),
        node.accept(identity, sender, message).unacked.contains_key(message),
        node.accept(identity, sender, message).unacked[message] == Set::<PeerId>::empty(),
        node.accept(identity, sender, message).drained(message),
        !node.accept(identity, sender, message).attempt(message).unacked.contains_key(message),
{
    assert(fanout(node.neighbours, sender, identity) =~= Set::empty());
}

/// A message that the node delivers to itself is accepted as any other: it is
/// new if unseen, and owed to every neighbour but the node itself.
pub proof fn lemma_self_delivery(node: NodeModel, identity: PeerId, message: u64)
    requires
        !node.seen.contains(message),
    ensures
        node.answer(identity, Some(RequestView::Broadcast { message })) == (Answer::EmptyOk {
            retry: Some(message),
        }),
        node.accept(identity, identity, message).seen == node.seen.insert(message),
        node.accept(identity, identity, message).pending(message)
            == node.neighbours.to_set().remove(identity),
{
    assert(fanout(node.neighbours, identity, identity) =~= node.neighbours.to_set().remove(
        identity,
    ));
}

/// A topology that lists the node among its own neighbours is taken as it is,
/// and the node still owes no later message to itself.
pub proof fn lemma_topology_naming_self(
    node: NodeModel,
    identity: PeerId,
    topology: Map<PeerId, Seq<PeerId>>,
    from: PeerId,
    sender: PeerId,
    message: u64,
)
    requires
        topology.contains_key(identity),
        topology[identity].contains(identity),
        !node.seen.contains(message),
    ensures
        node.handle(identity, from, Some(RequestView::Topology { topology })).neighbours
            == topology[identity],
        node.handle(identity, from, Some(RequestView::Topology { topology })).accept(
            identity,
            sender,
            message,
        ).pending(message) == topology[identity].to_set().remove(sender).remove(identity),
        !node.handle(identity, from, Some(RequestView::Topology { topology })).accept(
            identity,
            sender,
            message,
        ).pending(message).contains(identity),
{
}

} // verus!

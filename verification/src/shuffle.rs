//! The random choice of the peers that one retry attempt sends to.

use rand::seq::SliceRandom;
use vstd::prelude::*;
use crate::peers::{peer_ids, PeerId};

verus! {

/// The number of peers that one retry attempt sends to at most.
pub const RANDOM_PEER_COUNT: usize = 3;

/// Reorders `peers` at random.
///
/// Trusted: the body calls `rand::seq::SliceRandom::shuffle` on the vector's
/// slice, with the thread's generator that `rand::rng()` hands out. That
/// function only swaps elements of the slice, so the names afterwards are the
/// names before, each as often as before; in which order is left open. That
/// the operating system can seed the generator on a thread's first use is
/// taken for granted.
#[verifier::external_body]
fn shuffle_peers(peers: &mut Vec<String>)
    ensures
        peer_ids(final(peers)@).to_multiset() == peer_ids(old(peers)@).to_multiset(),
{
    peers.shuffle(&mut rand::rng());
}

/// The names of `peers` in a random order.
pub fn shuffled(peers: Vec<String>) -> (order: Vec<String>)
    ensures
        peer_ids(order@).to_multiset() == peer_ids(peers@).to_multiset(),
{
    let mut order = peers;
    shuffle_peers(&mut order);
    order
}

/// A rearrangement of distinct peers holds the same peers, still distinct.
pub proof fn lemma_rearranged_distinct(before: Seq<PeerId>, after: Seq<PeerId>)
    requires
        before.no_duplicates(),
        after.to_multiset() == before.to_multiset(),
    ensures
        after.no_duplicates(),
        after.len() == before.len(),
        after.to_set() == before.to_set(),
{
    before.to_multiset_ensures();
    after.to_multiset_ensures();
    before.lemma_multiset_has_no_duplicates();
    after.lemma_multiset_has_no_duplicates_conv();
    assert forall|p: PeerId| after.to_set().contains(p) <==> before.to_set().contains(p) by {
        assert(after.contains(p) <==> after.to_multiset().count(p) > 0);
        assert(before.contains(p) <==> before.to_multiset().count(p) > 0);
    }
    assert(after.to_set() =~= before.to_set());
}

/// The first peers of a list of distinct peers are distinct peers of the list.
pub proof fn lemma_prefix_distinct(peers: Seq<PeerId>, count: int)
    requires
        peers.no_duplicates(),
        0 <= count <= peers.len(),
    ensures
        peers.take(count).no_duplicates(),
        peers.take(count).to_set().subset_of(peers.to_set()),
{
    let prefix = peers.take(count);
    assert forall|p: PeerId| prefix.to_set().contains(p) implies peers.to_set().contains(p) by {
        let k = choose|k: int| 0 <= k < prefix.len() && prefix[k] == p;
        assert(peers[k] == p);
    }
}

/// How many peers one retry attempt sends to when `pending` peers are owed.
pub open spec fn attempt_size(pending: nat) -> nat {
    if pending <= RANDOM_PEER_COUNT {
        pending
    } else {
        RANDOM_PEER_COUNT as nat
    }
}

/// The peers that one attempt sends to, given the pending peers in shuffled
/// order: the first `RANDOM_PEER_COUNT` of them, or all if they are fewer.
pub fn select_targets(shuffled: Vec<String>) -> (targets: Vec<String>)
    ensures
        targets@ == shuffled@.take(attempt_size(shuffled@.len()) as int),
{
    let mut targets = shuffled;
    targets.truncate(RANDOM_PEER_COUNT);
    assert(shuffled@.take(shuffled@.len() as int) == shuffled@);
    targets
}

/// Whether `targets` can be what one attempt sends to when `pending` peers
/// are owed: the first peers of some rearrangement of `pending`, as many as an
/// attempt takes.
pub open spec fn drawn_from(targets: Seq<PeerId>, pending: Seq<PeerId>) -> bool {
    exists|order: Seq<PeerId>|
        #![trigger order.to_multiset()]
        order.to_multiset() == pending.to_multiset() && targets == order.take(
            attempt_size(pending.len()) as int,
        )
}

/// What is drawn from distinct peers are distinct peers among them, as many
/// as an attempt takes.
pub proof fn lemma_drawn_distinct(targets: Seq<PeerId>, pending: Seq<PeerId>)
    requires
        pending.no_duplicates(),
        drawn_from(targets, pending),
    ensures
        targets.no_duplicates(),
        targets.to_set().subset_of(pending.to_set()),
        targets.len() == attempt_size(pending.len()),
{
    let order = choose|order: Seq<PeerId>|
        #![trigger order.to_multiset()]
        order.to_multiset() == pending.to_multiset() && targets == order.take(
            attempt_size(pending.len()) as int,
        );
    lemma_rearranged_distinct(pending, order);
    lemma_prefix_distinct(order, attempt_size(pending.len()) as int);
}

/// Picks at random the peers that one retry attempt sends to, among `pending`.
pub fn draw_targets(pending: Vec<String>) -> (targets: Vec<String>)
    ensures
        drawn_from(peer_ids(targets@), peer_ids(pending@)),
{
    let order = shuffled(pending);
    proof {
        peer_ids(pending@).to_multiset_ensures();
        peer_ids(order@).to_multiset_ensures();
    }
    let targets = select_targets(order);
    assert(peer_ids(targets@) == peer_ids(order@).take(attempt_size(pending@.len()) as int));
    targets
}

} // verus!

//! Peer identifiers and the fan-out set of a freshly accepted message.

use vstd::prelude::*;

verus! {

/// A peer identifier as contracts see it: the characters of its name.
pub type PeerId = Seq<char>;

/// The identifiers that a sequence of peer names stands for, in order.
pub open spec fn peer_ids(names: Seq<String>) -> Seq<PeerId> {
    names.map_values(|name: String| name@)
}

/// The peers a message is fanned out to: every neighbour except the peer the
/// message came from and except this node itself.
pub open spec fn fanout(neighbours: Seq<PeerId>, sender: PeerId, identity: PeerId) -> Set<PeerId> {
    neighbours.to_set().remove(sender).remove(identity)
}

/// Whether `peer` occurs among `names`.
pub fn contains_peer(names: &Vec<String>, peer: &String) -> (found: bool)
    ensures
        found == peer_ids(names@).contains(peer@),
{
    let mut i: usize = 0;
    while i < names.len()
        invariant
            i <= names.len(),
            forall|j: int| 0 <= j < i ==> peer_ids(names@)[j] != peer@,
        decreases names.len() - i,
    {
        if names[i] == *peer {
            assert(peer_ids(names@)[i as int] == peer@);
            return true;
        }
        i += 1;
    }
    false
}

/// A copy of `names`, name for name.
pub fn clone_peers(names: &Vec<String>) -> (copy: Vec<String>)
    ensures
        copy@ == names@,
{
    let mut copy: Vec<String> = Vec::new();
    let mut i: usize = 0;
    while i < names.len()
        invariant
            i <= names.len(),
            copy@ == names@.take(i as int),
        decreases names.len() - i,
    {
        copy.push(names[i].clone());
        assert(copy@ == names@.take(i + 1));
        i += 1;
    }
    assert(names@.take(names.len() as int) == names@);
    copy
}

/// Extending a sequence by one element extends what it contains by that element.
pub proof fn lemma_push_contains<A>(s: Seq<A>, last: A, x: A)
    ensures
        s.push(last).contains(x) <==> (s.contains(x) || x == last),
{
    let t = s.push(last);
    if s.contains(x) {
        let k = choose|k: int| 0 <= k < s.len() && s[k] == x;
        assert(t[k] == x);
    }
    if x == last {
        assert(t[s.len() as int] == x);
    }
    if t.contains(x) {
        let k = choose|k: int| 0 <= k < t.len() && t[k] == x;
        if k < s.len() {
            assert(s[k] == x);
        }
    }
}

/// The fan-out targets of a message that `sender` delivered to the node
/// `identity`: each neighbour other than those two, once.
pub fn fanout_targets(neighbours: &Vec<String>, sender: &String, identity: &String) -> (targets:
    Vec<String>)
    ensures
        peer_ids(targets@).no_duplicates(),
        peer_ids(targets@).to_set() == fanout(peer_ids(neighbours@), sender@, identity@),
{
    let ghost ids = peer_ids(neighbours@);
    let mut targets: Vec<String> = Vec::new();
    let mut i: usize = 0;
    while i < neighbours.len()
        invariant
            i <= neighbours.len(),
            ids == peer_ids(neighbours@),
            peer_ids(targets@).no_duplicates(),
            forall|p: PeerId|
                peer_ids(targets@).contains(p) <==> (ids.take(i as int).contains(p) && p
                    != sender@ && p != identity@),
        decreases neighbours.len() - i,
    {
        let ghost before = peer_ids(targets@);
        let ghost prefix = ids.take(i as int);
        assert(ids.take(i + 1) == prefix.push(ids[i as int]));
        assert forall|p: PeerId| ids.take(i + 1).contains(p) <==> (prefix.contains(p) || p
            == ids[i as int]) by {
            lemma_push_contains(prefix, ids[i as int], p);
        }
        let name = &neighbours[i];
        assert(name@ == ids[i as int]);
        if !(*name == *sender) && !(*name == *identity) && !contains_peer(&targets, name) {
            targets.push(name.clone());
            assert(peer_ids(targets@) == before.push(ids[i as int]));
            assert forall|p: PeerId| peer_ids(targets@).contains(p) <==> (before.contains(p) || p
                == ids[i as int]) by {
                lemma_push_contains(before, ids[i as int], p);
            }
        }
        assert forall|p: PeerId|
            peer_ids(targets@).contains(p) <==> (ids.take(i + 1).contains(p) && p != sender@ && p
                != identity@) by {
            assert(before.contains(p) <==> (prefix.contains(p) && p != sender@ && p != identity@));
        }
        i += 1;
    }
    assert(ids.take(neighbours.len() as int) == ids);
    assert(peer_ids(targets@).to_set() =~= fanout(ids, sender@, identity@));
    targets
}

} // verus!

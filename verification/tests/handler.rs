use gossip::model::Fault;
use gossip::node::{GossipNode, Outcome, RetryStep};
use gossip::request::Request;

fn names(list: &[&str]) -> Vec<String> {
    list.iter().map(|name| name.to_string()).collect()
}

fn sorted(mut list: Vec<String>) -> Vec<String> {
    list.sort();
    list
}

fn sorted_values(mut list: Vec<u64>) -> Vec<u64> {
    list.sort();
    list
}

fn broadcast(node: &mut GossipNode, identity: &str, sender: &str, message: u64) -> Outcome {
    node.process(
        &identity.to_string(),
        &sender.to_string(),
        Some(Request::Broadcast { message }),
    )
}

fn read(node: &mut GossipNode, identity: &str, sender: &str) -> Vec<u64> {
    match node.process(&identity.to_string(), &sender.to_string(), Some(Request::Read {})) {
        Outcome::ReadOk { messages } => sorted_values(messages),
        other => panic!("a read was answered with {:?}", other),
    }
}

#[test]
fn fresh_broadcast_on_three_peer_node() {
    let mut node = GossipNode::new(names(&["n2", "n3", "n4"]));
    let outcome = broadcast(&mut node, "n1", "c1", 42);
    assert_eq!(outcome, Outcome::EmptyOk { retry: Some(42) });
    assert_eq!(node.snapshot(), vec![42]);
    assert!(node.state.is_armed(42));
    assert_eq!(sorted(node.state.pending(42)), names(&["n2", "n3", "n4"]));
    match node.retry(42) {
        RetryStep::Send { targets } => {
            assert_eq!(sorted(targets), names(&["n2", "n3", "n4"]));
        }
        RetryStep::Drained => panic!("the first attempt sent nothing"),
    }
}

#[test]
fn duplicate_broadcast_changes_nothing() {
    let mut node = GossipNode::new(names(&["n2", "n3", "n4"]));
    assert_eq!(
        broadcast(&mut node, "n1", "c1", 42),
        Outcome::EmptyOk { retry: Some(42) }
    );
    let outcome = broadcast(&mut node, "n1", "n2", 42);
    assert_eq!(outcome, Outcome::EmptyOk { retry: None });
    assert_eq!(node.snapshot(), vec![42]);
    assert_eq!(sorted(node.state.pending(42)), names(&["n2", "n3", "n4"]));
}

#[test]
fn repeated_deliveries_arm_once() {
    let mut node = GossipNode::new(names(&["n2", "n3"]));
    let mut armed = 0;
    for sender in ["c1", "n2", "n3", "c1", "n1", "n2"] {
        if let Outcome::EmptyOk { retry: Some(message) } = broadcast(&mut node, "n1", sender, 9) {
            assert_eq!(message, 9);
            armed += 1;
        }
    }
    assert_eq!(armed, 1);
    assert_eq!(node.snapshot(), vec![9]);
    assert_eq!(sorted(node.state.pending(9)), names(&["n2", "n3"]));
}

#[test]
fn read_after_two_distinct_messages() {
    let mut node = GossipNode::new(names(&["n2"]));
    broadcast(&mut node, "n1", "c1", 7);
    broadcast(&mut node, "n1", "c2", 11);
    assert_eq!(read(&mut node, "n1", "c3"), vec![7, 11]);
}

#[test]
fn read_of_a_fresh_node_is_empty() {
    let mut node = GossipNode::default();
    assert_eq!(read(&mut node, "n1", "c1"), Vec::<u64>::new());
    assert_eq!(node.state.neighbours(), Vec::<String>::new());
}

#[test]
fn read_lists_what_was_accepted_and_nothing_else() {
    let mut node = GossipNode::new(names(&["n2"]));
    let mut accepted = Vec::new();
    for (sender, message) in [("c1", 5), ("n2", 3), ("c1", 5), ("c2", 8), ("n2", 3), ("c9", 0)] {
        if let Outcome::EmptyOk { retry: Some(m) } = broadcast(&mut node, "n1", sender, message) {
            accepted.push(m);
        }
        assert_eq!(read(&mut node, "n1", "c1"), sorted_values(accepted.clone()));
    }
    assert_eq!(sorted_values(accepted), vec![0, 3, 5, 8]);
}

#[test]
fn topology_then_read() {
    let mut node = GossipNode::new(names(&["n2", "n3"]));
    broadcast(&mut node, "n1", "c1", 7);
    broadcast(&mut node, "n1", "c1", 11);
    let before = read(&mut node, "n1", "c1");
    let topology = vec![
        ("n1".to_string(), names(&["n5"])),
        ("n5".to_string(), names(&["n1"])),
    ];
    let outcome = node.process(
        &"n1".to_string(),
        &"c1".to_string(),
        Some(Request::Topology { topology }),
    );
    assert_eq!(outcome, Outcome::EmptyOk { retry: None });
    assert_eq!(node.state.neighbours(), names(&["n5"]));
    assert_eq!(read(&mut node, "n1", "c1"), before);
    assert_eq!(before, vec![7, 11]);
    assert_eq!(sorted(node.state.pending(7)), names(&["n2", "n3"]));
}

#[test]
fn topology_replaces_neighbours_for_later_messages_only() {
    let mut node = GossipNode::new(names(&["n2"]));
    broadcast(&mut node, "n1", "c1", 1);
    let topology = vec![("n1".to_string(), names(&["n3", "n4"]))];
    node.process(
        &"n1".to_string(),
        &"c1".to_string(),
        Some(Request::Topology { topology }),
    );
    broadcast(&mut node, "n1", "c1", 2);
    assert_eq!(sorted(node.state.pending(1)), names(&["n2"]));
    assert_eq!(sorted(node.state.pending(2)), names(&["n3", "n4"]));
}

#[test]
fn topology_missing_self() {
    let mut node = GossipNode::new(names(&["n2"]));
    let topology = vec![
        ("n2".to_string(), names(&["n1", "n3"])),
        ("n3".to_string(), names(&["n2"])),
    ];
    let outcome = node.process(
        &"n1".to_string(),
        &"c1".to_string(),
        Some(Request::Topology { topology }),
    );
    assert_eq!(
        outcome,
        Outcome::Terminate {
            fault: Fault::UnknownTopologyEntry
        }
    );
    assert_eq!(node.state.neighbours(), names(&["n2"]));
}

#[test]
fn empty_topology_names_nobody() {
    let mut node = GossipNode::new(names(&["n2"]));
    let outcome = node.process(
        &"n1".to_string(),
        &"c1".to_string(),
        Some(Request::Topology { topology: Vec::new() }),
    );
    assert_eq!(
        outcome,
        Outcome::Terminate {
            fault: Fault::UnknownTopologyEntry
        }
    );
}

#[test]
fn later_topology_entry_for_a_node_wins() {
    let mut node = GossipNode::default();
    let topology = vec![
        ("n1".to_string(), names(&["n2"])),
        ("n2".to_string(), names(&["n1"])),
        ("n1".to_string(), names(&["n3", "n4"])),
    ];
    node.process(
        &"n1".to_string(),
        &"c1".to_string(),
        Some(Request::Topology { topology }),
    );
    assert_eq!(node.state.neighbours(), names(&["n3", "n4"]));
}

#[test]
fn empty_neighbours_broadcast() {
    let mut node = GossipNode::new(Vec::new());
    let outcome = broadcast(&mut node, "n1", "c1", 1);
    assert_eq!(outcome, Outcome::EmptyOk { retry: Some(1) });
    assert_eq!(node.snapshot(), vec![1]);
    assert!(node.state.is_armed(1));
    assert_eq!(node.state.pending(1), Vec::<String>::new());
    assert_eq!(node.retry(1), RetryStep::Drained);
    assert!(!node.state.is_armed(1));
    assert_eq!(node.snapshot(), vec![1]);
}

#[test]
fn sender_is_left_out_of_the_fan_out() {
    let mut node = GossipNode::new(names(&["n2", "n3", "n4"]));
    broadcast(&mut node, "n1", "n3", 5);
    assert_eq!(sorted(node.state.pending(5)), names(&["n2", "n4"]));
}

#[test]
fn only_neighbour_as_sender_leaves_nothing_to_send() {
    let mut node = GossipNode::new(names(&["n2"]));
    assert_eq!(
        broadcast(&mut node, "n1", "n2", 5),
        Outcome::EmptyOk { retry: Some(5) }
    );
    assert!(node.state.is_armed(5));
    assert_eq!(node.retry(5), RetryStep::Drained);
    assert!(!node.state.is_armed(5));
}

#[test]
fn self_delivery_is_accepted() {
    let mut node = GossipNode::new(names(&["n2", "n3"]));
    let outcome = broadcast(&mut node, "n1", "n1", 4);
    assert_eq!(outcome, Outcome::EmptyOk { retry: Some(4) });
    assert_eq!(node.snapshot(), vec![4]);
    assert_eq!(sorted(node.state.pending(4)), names(&["n2", "n3"]));
}

#[test]
fn topology_naming_self_never_fans_out_to_self() {
    let mut node = GossipNode::default();
    let topology = vec![("n1".to_string(), names(&["n1", "n2", "n3"]))];
    let outcome = node.process(
        &"n1".to_string(),
        &"c1".to_string(),
        Some(Request::Topology { topology }),
    );
    assert_eq!(outcome, Outcome::EmptyOk { retry: None });
    assert_eq!(node.state.neighbours(), names(&["n1", "n2", "n3"]));
    broadcast(&mut node, "n1", "c1", 6);
    assert_eq!(sorted(node.state.pending(6)), names(&["n2", "n3"]));
    broadcast(&mut node, "n1", "n1", 7);
    assert_eq!(sorted(node.state.pending(7)), names(&["n2", "n3"]));
}

#[test]
fn repeated_neighbour_is_owed_once() {
    let mut node = GossipNode::new(names(&["n2", "n3", "n2", "n2"]));
    broadcast(&mut node, "n1", "c1", 1);
    assert_eq!(sorted(node.state.pending(1)), names(&["n2", "n3"]));
}

#[test]
fn undecodable_body_terminates() {
    let mut node = GossipNode::new(names(&["n2"]));
    let outcome = node.process(&"n1".to_string(), &"c1".to_string(), None);
    assert_eq!(
        outcome,
        Outcome::Terminate {
            fault: Fault::ParseError
        }
    );
    assert_eq!(node.snapshot(), Vec::<u64>::new());
}

#[test]
fn init_and_read_ok_are_not_answered() {
    let mut node = GossipNode::new(names(&["n2"]));
    let identity = "n1".to_string();
    let sender = "c1".to_string();
    assert_eq!(
        node.process(&identity, &sender, Some(Request::Init {})),
        Outcome::Terminate {
            fault: Fault::Unsupported
        }
    );
    assert_eq!(
        node.process(
            &identity,
            &sender,
            Some(Request::ReadOk {
                messages: vec![1, 2]
            })
        ),
        Outcome::Terminate {
            fault: Fault::Unsupported
        }
    );
    assert_eq!(node.snapshot(), Vec::<u64>::new());
}

#[test]
fn two_reads_in_a_row_agree() {
    let mut node = GossipNode::new(names(&["n2"]));
    broadcast(&mut node, "n1", "c1", 3);
    broadcast(&mut node, "n1", "c1", 1);
    let first = read(&mut node, "n1", "c1");
    broadcast(&mut node, "n1", "n2", 3);
    node.retry(3);
    let second = read(&mut node, "n1", "c2");
    assert_eq!(first, second);
    assert_eq!(first, vec![1, 3]);
}

#[test]
fn try_add_is_the_deduplication_gate() {
    let mut node = GossipNode::default();
    assert!(node.try_add(10));
    assert!(!node.try_add(10));
    assert!(node.try_add(u64::MAX));
    assert!(node.try_add(0));
    assert_eq!(sorted_values(node.snapshot()), vec![0, 10, u64::MAX]);
    assert!(!node.state.is_armed(10));
}

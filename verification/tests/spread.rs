use gossip::shuffle::shuffled;
use gossip::spread::{next_round, Spread, ROUND_SIZE};

fn names(list: &[&str]) -> Vec<String> {
    list.iter().map(|name| name.to_string()).collect()
}

#[test]
fn round_size_is_three() {
    assert_eq!(ROUND_SIZE, 3);
}

#[test]
fn next_round_takes_the_last_three_backwards() {
    let mut waiting = names(&["A", "B", "C", "D", "E"]);
    assert_eq!(next_round(&mut waiting), names(&["E", "D", "C"]));
    assert_eq!(waiting, names(&["A", "B"]));
    assert_eq!(next_round(&mut waiting), names(&["B", "A"]));
    assert_eq!(waiting, Vec::<String>::new());
    assert_eq!(next_round(&mut waiting), Vec::<String>::new());
    assert_eq!(waiting, Vec::<String>::new());
}

#[test]
fn next_round_of_exactly_three_empties_the_list() {
    let mut waiting = names(&["x", "y", "z"]);
    assert_eq!(next_round(&mut waiting), names(&["z", "y", "x"]));
    assert!(waiting.is_empty());
}

#[test]
fn spread_starts_at_the_first_node() {
    let spread = Spread::new(names(&["B", "C", "D"]));
    assert_eq!(spread.node_count(), 3);
    assert_eq!(spread.infected_count(), 1);
    assert!(spread.is_infected(&"B".to_string()));
    assert!(!spread.is_infected(&"C".to_string()));
    assert_eq!(spread.nodes(), names(&["B", "C", "D"]));
}

#[test]
fn infect_counts_each_node_once() {
    let mut spread = Spread::new(names(&["A", "B", "C", "D"]));
    spread.infect("C".to_string());
    spread.infect("C".to_string());
    spread.infect("A".to_string());
    assert_eq!(spread.infected_count(), 2);
    spread.infect("D".to_string());
    assert_eq!(spread.infected_count(), 3);
    assert!(spread.is_infected(&"D".to_string()));
    assert!(!spread.is_infected(&"B".to_string()));
    assert_eq!(spread.node_count(), 4);
}

#[test]
fn origin_always_shows_reached() {
    let mut spread = Spread::new(names(&["B", "A", "C"]));
    assert!(spread.shows_reached(&"A".to_string()));
    assert!(!spread.is_infected(&"A".to_string()));
    assert!(spread.shows_reached(&"B".to_string()));
    assert!(!spread.shows_reached(&"C".to_string()));
    assert!(!spread.shows_reached(&"a".to_string()));
    assert!(!spread.shows_reached(&"AA".to_string()));
    spread.infect("C".to_string());
    assert!(spread.shows_reached(&"C".to_string()));
}

#[test]
fn shuffled_keeps_every_name() {
    let list = names(&["A", "B", "B", "C", "D", "E", "F", "G"]);
    for _ in 0..20 {
        let mut order = shuffled(list.clone());
        order.sort();
        assert_eq!(order, list);
    }
    assert_eq!(shuffled(Vec::new()), Vec::<String>::new());
    assert_eq!(shuffled(names(&["A"])), names(&["A"]));
}

#[test]
fn shuffled_changes_the_order() {
    let list: Vec<String> = (0..12).map(|i| format!("n{}", i)).collect();
    let mut moved = false;
    for _ in 0..50 {
        moved = moved || shuffled(list.clone()) != list;
    }
    assert!(moved);
}

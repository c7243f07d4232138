use raita::{NodeMap, NodeSet, State};
use std::collections::HashSet;

fn nodes(names: &[&str]) -> NodeSet {
    NodeSet::from_vec(names.iter().map(|n| n.to_string()).collect())
}

fn as_set(set: &NodeSet) -> HashSet<String> {
    set.to_vec().into_iter().collect()
}

#[test]
fn neighborhood_excludes_current_node() {
    let mut state = State {
        node_id: "n1".to_owned(),
        declared_nodes: nodes(&["n0", "n1", "n2"]),
        ..State::default()
    };

    state.update_neighborhood();

    assert_eq!(
        as_set(&state.neighborhood),
        HashSet::from(["n0".to_owned(), "n2".to_owned()])
    );
}

#[test]
fn topology_refreshes_neighborhood_and_known_peers() {
    let mut state = State {
        node_id: "n1".to_owned(),
        ..State::default()
    };

    let mut topology = NodeMap::new();
    topology.insert("n1".to_owned(), nodes(&["n1", "n3"]));
    state.update_topology(&topology);

    assert_eq!(as_set(&state.neighborhood), HashSet::from(["n3".to_owned()]));
    assert!(state.known.contains_key(&"n3".to_owned()));
    assert!(!state.known.contains_key(&"n1".to_owned()));
}

#[test]
fn unknown_messages_only_returns_messages_missing_from_peer() {
    let mut state = State {
        node_id: "n0".to_owned(),
        messages: HashSet::from([10, 11, 12]),
        ..State::default()
    };
    state.mark_known(&"n1".to_owned(), &HashSet::from([10, 12]));

    assert_eq!(state.messages_unknown_to(&"n1".to_owned()), HashSet::from([11]));
    assert_eq!(
        state.messages_unknown_to(&"n2".to_owned()),
        HashSet::from([10, 11, 12])
    );
}

#[test]
fn mark_known_ignores_the_node_itself() {
    let mut state = State {
        node_id: "n0".to_owned(),
        messages: HashSet::from([1]),
        ..State::default()
    };
    state.mark_known(&"n0".to_owned(), &HashSet::from([1]));
    assert!(!state.known.contains_key(&"n0".to_owned()));
    assert_eq!(state.messages_unknown_to(&"n0".to_owned()), HashSet::from([1]));
}

#[test]
fn mark_known_accumulates_and_empties_the_unknown_set() {
    let mut state = State {
        node_id: "n0".to_owned(),
        messages: HashSet::from([1, 2, 3]),
        ..State::default()
    };
    state.mark_known(&"n1".to_owned(), &HashSet::from([1]));
    state.mark_known(&"n1".to_owned(), &HashSet::from([2, 3]));
    assert_eq!(
        state.known.get(&"n1".to_owned()),
        Some(&HashSet::from([1, 2, 3]))
    );
    assert!(state.messages_unknown_to(&"n1".to_owned()).is_empty());
}

#[test]
fn topology_entry_of_another_node_keeps_declared_neighbors() {
    let mut state = State {
        node_id: "n1".to_owned(),
        declared_nodes: nodes(&["n0", "n1", "n2"]),
        ..State::default()
    };
    let mut topology = NodeMap::new();
    topology.insert("n0".to_owned(), nodes(&["n2"]));
    state.update_topology(&topology);
    assert_eq!(state.neighborhood.to_vec(), vec!["n0".to_owned(), "n2".to_owned()]);
    assert!(state.known.contains_key(&"n0".to_owned()));
    assert!(state.known.contains_key(&"n2".to_owned()));
    assert_eq!(state.topology.get(&"n0".to_owned()), Some(&nodes(&["n2"])));
}

#[test]
fn topology_replaces_an_earlier_entry() {
    let mut state = State {
        node_id: "n1".to_owned(),
        ..State::default()
    };
    let mut first = NodeMap::new();
    first.insert("n1".to_owned(), nodes(&["n2", "n3"]));
    state.update_topology(&first);
    let mut second = NodeMap::new();
    second.insert("n1".to_owned(), nodes(&["n4"]));
    state.update_topology(&second);
    assert_eq!(state.neighborhood.to_vec(), vec!["n4".to_owned()]);
    // Earlier neighbors stay in `known`: knowledge is never forgotten.
    assert!(state.known.contains_key(&"n2".to_owned()));
    assert!(state.known.contains_key(&"n4".to_owned()));
}

#[test]
fn create_known_skips_self_and_keeps_existing_entries() {
    let mut state = State {
        node_id: "n1".to_owned(),
        ..State::default()
    };
    state.mark_known(&"n2".to_owned(), &HashSet::from([5]));
    state.create_known(&nodes(&["n1", "n2", "n3"]));
    assert!(!state.known.contains_key(&"n1".to_owned()));
    assert_eq!(state.known.get(&"n2".to_owned()), Some(&HashSet::from([5])));
    assert_eq!(state.known.get(&"n3".to_owned()), Some(&HashSet::new()));
}

#[test]
fn add_messages_unions_and_has_all_reports_subset() {
    let mut state = State::default();
    state.add_message(4);
    state.add_messages(&HashSet::from([4, 5]));
    assert_eq!(state.messages, HashSet::from([4, 5]));
    assert!(state.has_all(&HashSet::from([5])));
    assert!(!state.has_all(&HashSet::from([5, 6])));
}

#[test]
fn node_set_keeps_first_occurrence_order() {
    let set = nodes(&["b", "a", "b", "c", "a"]);
    assert_eq!(set.to_vec(), vec!["b".to_owned(), "a".to_owned(), "c".to_owned()]);
    assert_eq!(set.len(), 3);
    assert!(set.contains(&"c".to_owned()));
    assert!(!set.contains(&"d".to_owned()));
}

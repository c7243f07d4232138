use raita::message::{Body, Event, Message};
use raita::{BroadcastPayload, NodeMap, NodeSet, State};
use std::collections::HashSet;

fn nodes(names: &[&str]) -> NodeSet {
    NodeSet::from_vec(names.iter().map(|n| n.to_string()).collect())
}

fn known(entries: Vec<(&str, HashSet<u32>)>) -> NodeMap<HashSet<u32>> {
    let mut map = NodeMap::new();
    for (node, messages) in entries {
        map.insert(node.to_owned(), messages);
    }
    map
}

fn known_of(state: &State, node: &str) -> HashSet<u32> {
    state.known.get(&node.to_owned()).cloned().expect("known entry")
}

#[test]
fn generated_gossip_only_sends_unknown_messages() {
    let mut state = State {
        node_id: "n1".to_owned(),
        neighborhood: nodes(&["n2", "n3"]),
        messages: HashSet::from([1, 2, 3]),
        known: known(vec![("n2", HashSet::from([1, 3])), ("n3", HashSet::new())]),
        ..State::default()
    };

    let messages = Event::<BroadcastPayload>::GeneratedMessage.step(&mut state);

    assert_eq!(messages.len(), 2);

    let gossip_to_n2 = messages
        .iter()
        .find(|message| message.destination == "n2")
        .expect("message to n2");
    let gossip_to_n3 = messages
        .iter()
        .find(|message| message.destination == "n3")
        .expect("message to n3");

    assert_eq!(
        gossip_to_n2.body.payload,
        BroadcastPayload::Gossip {
            messages: HashSet::from([2]),
        }
    );
    assert_eq!(
        gossip_to_n3.body.payload,
        BroadcastPayload::Gossip {
            messages: HashSet::from([1, 2, 3]),
        }
    );
    assert_eq!(known_of(&state, "n2"), HashSet::from([1, 2, 3]));
    assert_eq!(known_of(&state, "n3"), HashSet::from([1, 2, 3]));
}

#[test]
fn received_gossip_marks_sender_known_and_forwards_to_other_neighbors() {
    let mut state = State {
        node_id: "n1".to_owned(),
        neighborhood: nodes(&["n2", "n3"]),
        known: known(vec![("n2", HashSet::new()), ("n3", HashSet::new())]),
        ..State::default()
    };
    let event = Event::ReceivedMessage(Message::new(
        "n2".to_owned(),
        "n1".to_owned(),
        Body::new(
            Some(7),
            BroadcastPayload::Gossip {
                messages: HashSet::from([9, 11]),
            },
            None,
        ),
    ));

    let messages = event.step(&mut state);

    assert_eq!(messages.len(), 1);
    assert_eq!(messages[0].destination, "n3");
    assert_eq!(
        messages[0].body.payload,
        BroadcastPayload::Gossip {
            messages: HashSet::from([9, 11]),
        }
    );
    assert_eq!(state.messages, HashSet::from([9, 11]));
    assert_eq!(known_of(&state, "n2"), HashSet::from([9, 11]));
    assert_eq!(known_of(&state, "n3"), HashSet::from([9, 11]));
}

#[test]
fn broadcast_event_replies_and_fans_out_immediately() {
    let mut state = State {
        node_id: "n1".to_owned(),
        neighborhood: nodes(&["n2"]),
        known: known(vec![("n2", HashSet::new())]),
        ..State::default()
    };
    let event = Event::ReceivedMessage(Message::new(
        "client".to_owned(),
        "n1".to_owned(),
        Body::new(Some(3), BroadcastPayload::Broadcast { message: 42 }, None),
    ));

    let messages = event.step(&mut state);

    assert_eq!(messages.len(), 2);
    assert!(messages
        .iter()
        .any(|message| matches!(message.body.payload, BroadcastPayload::BroadcastOk)));
    assert!(messages.iter().any(|message| {
        message.destination == "n2"
            && message.body.payload
                == BroadcastPayload::Gossip {
                    messages: HashSet::from([42]),
                }
    }));
}

#[test]
fn broadcast_reply_comes_first_with_consecutive_ids() {
    let mut state = State {
        node_id: "n1".to_owned(),
        neighborhood: nodes(&["n2", "n3"]),
        message_track_id: 10,
        ..State::default()
    };
    let request = Message::new(
        "c1".to_owned(),
        "n1".to_owned(),
        Body::new(Some(3), BroadcastPayload::Broadcast { message: 5 }, None),
    );
    let out = request.step(&mut state);
    assert_eq!(out.len(), 3);
    assert_eq!(out[0].destination, "c1");
    assert_eq!(out[0].body.payload, BroadcastPayload::BroadcastOk);
    assert_eq!(out[0].body.in_reply_to, Some(3));
    let ids: Vec<Option<usize>> = out.iter().map(|m| m.body.message_id).collect();
    assert_eq!(ids, vec![Some(10), Some(11), Some(12)]);
    assert_eq!(out[1].destination, "n2");
    assert_eq!(out[2].destination, "n3");
    assert_eq!(out[1].body.in_reply_to, None);
    assert_eq!(state.message_track_id, 13);
}

#[test]
fn read_returns_every_stored_message() {
    let mut state = State {
        node_id: "n1".to_owned(),
        messages: HashSet::from([1, 7]),
        ..State::default()
    };
    let request = Message::new(
        "c1".to_owned(),
        "n1".to_owned(),
        Body::new(Some(8), BroadcastPayload::Read, None),
    );
    let out = request.step(&mut state);
    assert_eq!(out.len(), 1);
    assert_eq!(
        out[0].body.payload,
        BroadcastPayload::ReadOk {
            messages: HashSet::from([1, 7])
        }
    );
    assert_eq!(out[0].body.in_reply_to, Some(8));
}

#[test]
fn topology_message_is_acknowledged_and_sets_neighbors() {
    let mut state = State {
        node_id: "n1".to_owned(),
        ..State::default()
    };
    let mut topology = NodeMap::new();
    topology.insert("n1".to_owned(), nodes(&["n2"]));
    topology.insert("n2".to_owned(), nodes(&["n1"]));
    let request = Message::new(
        "c1".to_owned(),
        "n1".to_owned(),
        Body::new(Some(1), BroadcastPayload::Topology { topology }, None),
    );
    let out = request.step(&mut state);
    assert_eq!(out.len(), 1);
    assert_eq!(out[0].body.payload, BroadcastPayload::TopologyOk);
    assert_eq!(state.neighborhood.to_vec(), vec!["n2".to_owned()]);
}

#[test]
fn repeated_gossip_is_not_forwarded_again() {
    let mut state = State {
        node_id: "n1".to_owned(),
        neighborhood: nodes(&["n2", "n3"]),
        ..State::default()
    };
    let gossip = || {
        Message::new(
            "n2".to_owned(),
            "n1".to_owned(),
            Body::new(
                Some(4),
                BroadcastPayload::Gossip {
                    messages: HashSet::from([3]),
                },
                None,
            ),
        )
    };
    let first = gossip().step(&mut state);
    assert_eq!(first.len(), 1);
    let second = gossip().step(&mut state);
    assert!(second.is_empty());
}

#[test]
fn gossip_round_after_everything_is_known_sends_nothing() {
    let mut state = State {
        node_id: "n1".to_owned(),
        neighborhood: nodes(&["n2"]),
        messages: HashSet::from([1]),
        ..State::default()
    };
    let first = Event::<BroadcastPayload>::GeneratedMessage.step(&mut state);
    assert_eq!(first.len(), 1);
    let second = Event::<BroadcastPayload>::GeneratedMessage.step(&mut state);
    assert!(second.is_empty());
    assert!(Event::<BroadcastPayload>::EndOfFile.step(&mut state).is_empty());
}

#[test]
fn acknowledgements_are_ignored() {
    let mut state = State::default();
    let ack = Message::new(
        "n2".to_owned(),
        "n1".to_owned(),
        Body::new(Some(4), BroadcastPayload::BroadcastOk, Some(1)),
    );
    assert!(ack.step(&mut state).is_empty());
    assert_eq!(state.message_track_id, 0);
}

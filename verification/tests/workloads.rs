use raita::init::apply_init;
use raita::message::{Body, Event, Message, NodeError};
use raita::{EchoPayload, InitPayload, NodeSet, State, UniqueIdPayload};

fn init_message(node_id: &str, node_ids: &[&str]) -> Message<InitPayload> {
    Message::new(
        "c0".to_owned(),
        node_id.to_owned(),
        Body::new(
            Some(1),
            InitPayload::Init {
                node_id: node_id.to_owned(),
                node_ids: NodeSet::from_vec(node_ids.iter().map(|n| n.to_string()).collect()),
            },
            None,
        ),
    )
}

#[test]
fn init_sets_identity_neighbors_and_known_peers() {
    let mut state = State::default();
    let out = apply_init(&init_message("n1", &["n0", "n1", "n2"]), &mut state)
        .expect("init is accepted");
    assert_eq!(state.node_id, "n1");
    assert_eq!(state.declared_nodes.to_vec(), vec!["n0", "n1", "n2"]);
    assert_eq!(state.neighborhood.to_vec(), vec!["n0", "n2"]);
    assert!(state.known.contains_key(&"n0".to_owned()));
    assert!(state.known.contains_key(&"n2".to_owned()));
    assert!(!state.known.contains_key(&"n1".to_owned()));
    assert_eq!(out.len(), 1);
    assert!(matches!(out[0].body.payload, InitPayload::InitOk));
    assert_eq!(out[0].source, "n1");
    assert_eq!(out[0].destination, "c0");
    assert_eq!(out[0].body.in_reply_to, Some(1));
    assert_eq!(out[0].body.message_id, Some(0));
}

#[test]
fn init_ok_is_refused_and_changes_nothing() {
    let mut state = State::default();
    let message = Message::new(
        "n2".to_owned(),
        "n1".to_owned(),
        Body::new(Some(1), InitPayload::InitOk, None),
    );
    assert_eq!(message.step(&mut state).unwrap_err(), NodeError::UnexpectedInitOk);
    assert_eq!(state.message_track_id, 0);
}

#[test]
fn init_events() {
    let mut state = State::default();
    assert_eq!(
        Event::<InitPayload>::EndOfFile.step(&mut state).unwrap_err(),
        NodeError::UnexpectedEndOfFile
    );
    assert!(Event::<InitPayload>::GeneratedMessage
        .step(&mut state)
        .expect("tick is fine")
        .is_empty());
    let out = Event::ReceivedMessage(init_message("n0", &["n0"]))
        .step(&mut state)
        .expect("init accepted");
    assert_eq!(out.len(), 1);
    assert!(state.neighborhood.is_empty());
}

#[test]
fn echo_answers_with_the_same_text() {
    let mut state = State::default();
    state.node_id = "n1".to_owned();
    let request = Message::new(
        "c1".to_owned(),
        "n1".to_owned(),
        Body::new(Some(4), EchoPayload::Echo { echo: "hello".to_owned() }, None),
    );
    let out = request.step(&mut state);
    assert_eq!(out.len(), 1);
    assert_eq!(out[0].body.payload, EchoPayload::EchoOk { echo: "hello".to_owned() });
    assert_eq!(out[0].destination, "c1");
    assert_eq!(out[0].body.in_reply_to, Some(4));
    assert_eq!(state.message_track_id, 1);
}

#[test]
fn echo_ok_and_ticks_are_ignored_end_of_input_is_refused() {
    let mut state = State::default();
    let ok = Message::new(
        "c1".to_owned(),
        "n1".to_owned(),
        Body::new(Some(4), EchoPayload::EchoOk { echo: "x".to_owned() }, None),
    );
    assert!(Event::ReceivedMessage(ok).step(&mut state).unwrap().is_empty());
    assert!(Event::<EchoPayload>::GeneratedMessage.step(&mut state).unwrap().is_empty());
    assert_eq!(
        Event::<EchoPayload>::EndOfFile.step(&mut state).unwrap_err(),
        NodeError::UnexpectedEndOfFile
    );
    assert_eq!(state.message_track_id, 0);
}

#[test]
fn generate_answers_with_the_given_and_with_fresh_ids() {
    let mut state = State::default();
    state.node_id = "n1".to_owned();
    let request = Message::new(
        "c1".to_owned(),
        "n1".to_owned(),
        Body::new(Some(2), UniqueIdPayload::Generate, None),
    );
    let id = ulid::Ulid::from_parts(1, 2);
    let out = request.step_with_id(&mut state, id).expect("generate accepted");
    assert_eq!(out.len(), 1);
    assert!(matches!(out[0].body.payload, UniqueIdPayload::GenerateOk { id: got } if got == id));
    assert_eq!(out[0].body.in_reply_to, Some(2));

    let first = request.step(&mut state).expect("generate accepted");
    let second = request.step(&mut state).expect("generate accepted");
    let (a, b) = match (&first[0].body.payload, &second[0].body.payload) {
        (UniqueIdPayload::GenerateOk { id: a }, UniqueIdPayload::GenerateOk { id: b }) => (*a, *b),
        _ => panic!("expected generate_ok"),
    };
    assert_ne!(a, b);
    assert_eq!(first[0].body.message_id, Some(1));
    assert_eq!(second[0].body.message_id, Some(2));
}

#[test]
fn generate_ok_and_ticks_are_refused() {
    let mut state = State::default();
    let message = Message::new(
        "c1".to_owned(),
        "n1".to_owned(),
        Body::new(
            Some(2),
            UniqueIdPayload::GenerateOk {
                id: ulid::Ulid::nil(),
            },
            None,
        ),
    );
    assert_eq!(message.step(&mut state).unwrap_err(), NodeError::UnexpectedGenerateOk);
    assert_eq!(
        Event::<UniqueIdPayload>::GeneratedMessage.step(&mut state).unwrap_err(),
        NodeError::UnexpectedGeneratedEvent
    );
    assert_eq!(
        Event::<UniqueIdPayload>::EndOfFile.step(&mut state).unwrap_err(),
        NodeError::UnexpectedEndOfFile
    );
}

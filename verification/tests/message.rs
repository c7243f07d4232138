use raita::message::{Body, Message};
use raita::State;

#[derive(Debug, Clone, PartialEq, Eq)]
enum TestPayload {
    Ping,
    Pong { value: u32 },
}

#[test]
fn reply_reuses_request_message_id_and_increments_state_counter() {
    let request = Message::new(
        "client".to_owned(),
        "node-a".to_owned(),
        Body::new(Some(7), TestPayload::Ping, None),
    );
    let mut state = State::default();

    let reply = Message::reply(&mut state, &request, TestPayload::Pong { value: 99 });

    assert_eq!(reply.source, "node-a");
    assert_eq!(reply.destination, "client");
    assert_eq!(reply.body.message_id, Some(0));
    assert_eq!(reply.body.in_reply_to, Some(7));
    assert_eq!(reply.body.payload, TestPayload::Pong { value: 99 });
    assert_eq!(state.message_track_id, 1);
}

#[test]
fn reply_to_a_message_without_id_answers_nothing() {
    let request = Message::new(
        "c3".to_owned(),
        "n4".to_owned(),
        Body::new(None, TestPayload::Ping, Some(5)),
    );
    let mut state = State::default();
    state.message_track_id = 41;

    let reply = Message::reply(&mut state, &request, TestPayload::Ping);

    assert_eq!(reply.source, "n4");
    assert_eq!(reply.destination, "c3");
    assert_eq!(reply.body.message_id, Some(41));
    assert_eq!(reply.body.in_reply_to, None);
    assert_eq!(state.message_track_id, 42);
}

#[test]
fn get_and_increment_hands_out_consecutive_ids() {
    let mut state = State::default();
    assert_eq!(state.get_and_increment(), 0);
    assert_eq!(state.get_and_increment(), 1);
    assert_eq!(state.get_and_increment(), 2);
    assert_eq!(state.message_track_id, 3);
}

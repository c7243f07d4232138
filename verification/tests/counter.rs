use raita::counter::KEY_DOES_NOT_EXIST;
use raita::counter::PRECONDITION_FAILED;
use raita::message::{Body, Event, Message};
use raita::{CounterPayload, CounterState, NodeSet};

fn receive(
    state: &mut CounterState,
    source: &str,
    message_id: usize,
    payload: CounterPayload,
    in_reply_to: Option<usize>,
) -> Vec<Message<CounterPayload>> {
    Event::ReceivedMessage(Message::new(
        source.to_owned(),
        "n1".to_owned(),
        Body::new(Some(message_id), payload, in_reply_to),
    ))
    .step(state)
}

#[test]
fn add_request_starts_with_seq_kv_read() {
    let mut state = CounterState::default();
    state.inner.node_id = "n1".to_owned();

    let messages = receive(&mut state, "c1", 9, CounterPayload::Add { delta: 4 }, None);

    assert_eq!(messages.len(), 1);
    assert_eq!(messages[0].destination, "seq-kv");
    assert_eq!(
        messages[0].body.payload,
        CounterPayload::Read {
            key: Some("g-counter::n1".to_owned()),
        }
    );
}

#[test]
fn missing_key_add_retries_with_create_if_missing_cas_and_replies() {
    let mut state = CounterState::default();
    state.inner.node_id = "n1".to_owned();

    let _ = receive(&mut state, "c1", 9, CounterPayload::Add { delta: 4 }, None);

    let messages = receive(
        &mut state,
        "seq-kv",
        20,
        CounterPayload::Error {
            code: KEY_DOES_NOT_EXIST,
            text: "missing".to_owned(),
        },
        Some(0),
    );

    assert_eq!(messages.len(), 1);
    assert_eq!(
        messages[0].body.payload,
        CounterPayload::Cas {
            key: "g-counter::n1".to_owned(),
            from: 0,
            to: 4,
            create_if_not_exists: true,
        }
    );

    let reply = receive(&mut state, "seq-kv", 21, CounterPayload::CasOk, Some(1));

    assert_eq!(reply.len(), 1);
    assert_eq!(reply[0].destination, "c1");
    assert_eq!(reply[0].body.payload, CounterPayload::AddOk);
}

#[test]
fn read_request_aggregates_all_node_shards() {
    let mut state = CounterState::default();
    state.inner.node_id = "n1".to_owned();
    state.inner.declared_nodes =
        NodeSet::from_vec(vec!["n0".to_owned(), "n1".to_owned(), "n2".to_owned()]);

    let requests = receive(&mut state, "c9", 42, CounterPayload::Read { key: None }, None);

    assert_eq!(requests.len(), 3);
    let request_ids: Vec<usize> = requests
        .iter()
        .map(|request| request.body.message_id.expect("kv read should have msg id"))
        .collect();

    let mut reply = Vec::new();
    for in_reply_to in request_ids {
        reply.extend(receive(
            &mut state,
            "seq-kv",
            50 + in_reply_to,
            CounterPayload::ReadOk { value: 2 },
            Some(in_reply_to),
        ));
    }

    assert_eq!(reply.len(), 1);
    assert_eq!(reply[0].destination, "c9");
    assert_eq!(reply[0].body.payload, CounterPayload::ReadOk { value: 6 });
}

#[test]
fn add_round_trip_swaps_from_read_value() {
    let mut state = CounterState::default();
    state.inner.node_id = "n1".to_owned();
    let read = receive(&mut state, "c1", 9, CounterPayload::Add { delta: 4 }, None);
    let read_id = read[0].body.message_id.unwrap();
    let cas = receive(
        &mut state,
        "seq-kv",
        30,
        CounterPayload::ReadOk { value: 10 },
        Some(read_id),
    );
    assert_eq!(cas.len(), 1);
    assert_eq!(
        cas[0].body.payload,
        CounterPayload::Cas {
            key: "g-counter::n1".to_owned(),
            from: 10,
            to: 14,
            create_if_not_exists: false,
        }
    );
    let done = receive(
        &mut state,
        "seq-kv",
        31,
        CounterPayload::CasOk,
        cas[0].body.message_id,
    );
    assert_eq!(done.len(), 1);
    assert_eq!(done[0].destination, "c1");
    assert_eq!(done[0].source, "n1");
    assert_eq!(done[0].body.in_reply_to, Some(9));
    assert_eq!(done[0].body.payload, CounterPayload::AddOk);
    // Nothing is left pending: a second `cas_ok` is ignored.
    let again = receive(&mut state, "seq-kv", 32, CounterPayload::CasOk, cas[0].body.message_id);
    assert!(again.is_empty());
}

#[test]
fn failed_cas_restarts_the_add_with_a_fresh_read() {
    let mut state = CounterState::default();
    state.inner.node_id = "n1".to_owned();
    let read = receive(&mut state, "c1", 9, CounterPayload::Add { delta: 1 }, None);
    let cas = receive(
        &mut state,
        "seq-kv",
        30,
        CounterPayload::ReadOk { value: 3 },
        read[0].body.message_id,
    );
    let retry = receive(
        &mut state,
        "seq-kv",
        31,
        CounterPayload::Error {
            code: PRECONDITION_FAILED,
            text: "stale".to_owned(),
        },
        cas[0].body.message_id,
    );
    assert_eq!(retry.len(), 1);
    assert_eq!(
        retry[0].body.payload,
        CounterPayload::Read {
            key: Some("g-counter::n1".to_owned())
        }
    );
    assert_eq!(retry[0].body.message_id, Some(2));
}

#[test]
fn other_kv_error_is_passed_to_client() {
    let mut state = CounterState::default();
    state.inner.node_id = "n1".to_owned();
    let _ = receive(&mut state, "c1", 9, CounterPayload::Add { delta: 1 }, None);
    let out = receive(
        &mut state,
        "seq-kv",
        30,
        CounterPayload::Error {
            code: 11,
            text: "timeout".to_owned(),
        },
        Some(0),
    );
    assert_eq!(out.len(), 1);
    assert_eq!(out[0].destination, "c1");
    assert_eq!(out[0].body.in_reply_to, Some(9));
    assert_eq!(
        out[0].body.payload,
        CounterPayload::Error {
            code: 11,
            text: "timeout".to_owned()
        }
    );
}

#[test]
fn read_with_no_declared_nodes_answers_zero() {
    let mut state = CounterState::default();
    state.inner.node_id = "n1".to_owned();
    let out = receive(&mut state, "c2", 5, CounterPayload::Read { key: None }, None);
    assert_eq!(out.len(), 1);
    assert_eq!(out[0].body.payload, CounterPayload::ReadOk { value: 0 });
    assert_eq!(out[0].body.message_id, Some(1));
    assert_eq!(out[0].body.in_reply_to, Some(5));
    assert_eq!(state.inner.message_track_id, 2);
}

#[test]
fn read_counts_missing_shares_as_zero() {
    let mut state = CounterState::default();
    state.inner.node_id = "n1".to_owned();
    state.inner.declared_nodes = NodeSet::from_vec(vec!["n0".to_owned(), "n1".to_owned()]);
    let reads = receive(&mut state, "c2", 5, CounterPayload::Read { key: None }, None);
    assert_eq!(reads.len(), 2);
    assert_eq!(
        reads[0].body.payload,
        CounterPayload::Read {
            key: Some("g-counter::n0".to_owned())
        }
    );
    let first = receive(
        &mut state,
        "seq-kv",
        60,
        CounterPayload::Error {
            code: KEY_DOES_NOT_EXIST,
            text: "missing".to_owned(),
        },
        reads[0].body.message_id,
    );
    assert!(first.is_empty());
    let second = receive(
        &mut state,
        "seq-kv",
        61,
        CounterPayload::ReadOk { value: 7 },
        reads[1].body.message_id,
    );
    assert_eq!(second.len(), 1);
    assert_eq!(second[0].body.payload, CounterPayload::ReadOk { value: 7 });
}

#[test]
fn read_ok_from_a_client_is_ignored() {
    let mut state = CounterState::default();
    state.inner.node_id = "n1".to_owned();
    let read = receive(&mut state, "c1", 9, CounterPayload::Add { delta: 1 }, None);
    let out = receive(
        &mut state,
        "c1",
        10,
        CounterPayload::ReadOk { value: 3 },
        read[0].body.message_id,
    );
    assert!(out.is_empty());
    assert!(Event::<CounterPayload>::GeneratedMessage.step(&mut state).is_empty());
    assert!(Event::<CounterPayload>::EndOfFile.step(&mut state).is_empty());
}

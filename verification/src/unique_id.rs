use crate::message::{
    follows, messages_view, reply_view, Event, EventView, Message, MessageView, NodeError,
};
use crate::state::{State, StateView};
use vstd::prelude::*;

verus! {

/// The identifier type `ulid::Ulid`, declared so that payloads can carry it; Verus sees nothing
/// inside it.
#[verifier::external_type_specification]
#[verifier::external_body]
pub struct ExUlid(ulid::Ulid);

/// A fresh identifier from `ulid::Ulid::new`, which combines the current time with random bits.
/// Nothing is promised of the value: it depends on the clock and on chance.
#[verifier::external_body]
fn fresh_ulid() -> ulid::Ulid {
    ulid::Ulid::new()
}

/// The unique-id workload: a node answers each `generate` with a fresh ULID.
#[derive(Debug)]
pub enum UniqueIdPayload {
    Generate,
    GenerateOk { id: ulid::Ulid },
}

impl View for UniqueIdPayload {
    type V = UniqueIdPayload;

    open spec fn view(&self) -> UniqueIdPayload {
        *self
    }
}

/// What a message does to a unique-id node when `id` is the identifier it draws: a `generate`
/// is answered by a `generate_ok` carrying `id`, which takes the next message identifier; a
/// `generate_ok` is refused.
pub open spec fn unique_id_model(s: StateView, m: MessageView<UniqueIdPayload>, id: ulid::Ulid) -> Result<
    (StateView, Seq<MessageView<UniqueIdPayload>>),
    NodeError,
> {
    match m.body.payload {
        UniqueIdPayload::Generate => Ok(
            (
                StateView { message_track_id: (s.message_track_id + 1) as usize, ..s },
                seq![reply_view(m, s.message_track_id, UniqueIdPayload::GenerateOk { id })],
            ),
        ),
        UniqueIdPayload::GenerateOk { .. } => Err(NodeError::UnexpectedGenerateOk),
    }
}

/// What an event does to a unique-id node that draws `id`: a message is handled as above; a
/// timer tick and the end of the input are refused.
pub open spec fn unique_id_event_model(
    s: StateView,
    e: EventView<UniqueIdPayload>,
    id: ulid::Ulid,
) -> Result<(StateView, Seq<MessageView<UniqueIdPayload>>), NodeError> {
    match e {
        EventView::EndOfFile => Err(NodeError::UnexpectedEndOfFile),
        EventView::GeneratedMessage => Err(NodeError::UnexpectedGeneratedEvent),
        EventView::ReceivedMessage(m) => unique_id_model(s, m, id),
    }
}

/// The identifier that a sent `generate_ok` carries, if a message was sent.
pub open spec fn drawn_id(r: Result<Vec<Message<UniqueIdPayload>>, NodeError>) -> ulid::Ulid {
    match r {
        Ok(out) => match out@[0].body.payload {
            UniqueIdPayload::GenerateOk { id } => id,
            UniqueIdPayload::Generate => arbitrary(),
        },
        Err(_) => arbitrary(),
    }
}

impl Message<UniqueIdPayload> {
    /// Handles a message at a unique-id node, answering with `id`.
    pub fn step_with_id(&self, state: &mut State, id: ulid::Ulid) -> (r: Result<
        Vec<Message<UniqueIdPayload>>,
        NodeError,
    >)
        requires
            self.body.payload is Generate ==> old(state).message_track_id < usize::MAX,
        ensures
            follows(unique_id_model(old(state)@, self@, id), old(state)@, final(state)@, r),
            r is Ok ==> drawn_id(r) == id,
    {
        match &self.body.payload {
            UniqueIdPayload::Generate => {
                let reply = Message::reply(state, self, UniqueIdPayload::GenerateOk { id });
                let mut out = Vec::new();
                out.push(reply);
                assert(messages_view(out@) =~= seq![reply@]);
                Ok(out)
            },
            UniqueIdPayload::GenerateOk { .. } => Err(NodeError::UnexpectedGenerateOk),
        }
    }

    /// Handles a message at a unique-id node, drawing a fresh ULID for a `generate`.
    pub fn step(&self, state: &mut State) -> (r: Result<Vec<Message<UniqueIdPayload>>, NodeError>)
        requires
            self.body.payload is Generate ==> old(state).message_track_id < usize::MAX,
        ensures
            follows(unique_id_model(old(state)@, self@, drawn_id(r)), old(state)@, final(state)@, r),
    {
        match &self.body.payload {
            UniqueIdPayload::Generate => {
                let id = fresh_ulid();
                let r = self.step_with_id(state, id);
                r
            },
            UniqueIdPayload::GenerateOk { .. } => Err(NodeError::UnexpectedGenerateOk),
        }
    }
}

impl Event<UniqueIdPayload> {
    /// Handles an event at a unique-id node.
    pub fn step(&self, state: &mut State) -> (r: Result<Vec<Message<UniqueIdPayload>>, NodeError>)
        requires
            self matches Event::ReceivedMessage(m) && m.body.payload is Generate ==> old(state).message_track_id < usize::MAX,
        ensures
            follows(unique_id_event_model(old(state)@, self@, drawn_id(r)), old(state)@, final(state)@, r),
    {
        match self {
            Event::EndOfFile => Err(NodeError::UnexpectedEndOfFile),
            Event::GeneratedMessage => Err(NodeError::UnexpectedGeneratedEvent),
            Event::ReceivedMessage(message) => message.step(state),
        }
    }
}

} // verus!

use crate::state::{State, StateView};
use vstd::prelude::*;

verus! {

/// What a node reacts to: a message from the network, a timer tick, or the end of its input.
#[derive(Debug, Clone)]
pub enum Event<Payload> {
    ReceivedMessage(Message<Payload>),
    GeneratedMessage,
    EndOfFile,
}

/// A message envelope: who sent it, who it is for, and its body.
#[derive(Debug, Clone)]
pub struct Message<Payload> {
    pub source: String,
    pub destination: String,
    pub body: Body<Payload>,
}

/// A message body: its own identifier, its payload, and the request it answers.
#[derive(Debug, Clone)]
pub struct Body<Payload> {
    pub message_id: Option<usize>,
    pub payload: Payload,
    pub in_reply_to: Option<usize>,
}

/// The mathematical value of an event.
pub enum EventView<P> {
    ReceivedMessage(MessageView<P>),
    GeneratedMessage,
    EndOfFile,
}

impl<P: View> View for Event<P> {
    type V = EventView<P::V>;

    open spec fn view(&self) -> EventView<P::V> {
        match self {
            Event::ReceivedMessage(m) => EventView::ReceivedMessage(m@),
            Event::GeneratedMessage => EventView::GeneratedMessage,
            Event::EndOfFile => EventView::EndOfFile,
        }
    }
}

/// Why a node refuses an event.
#[derive(Debug, Clone, Copy, PartialEq, Eq, Structural)]
pub enum NodeError {
    /// An `init_ok` arrived at a node, which only ever sends one.
    UnexpectedInitOk,
    /// The input ended while the node still expected messages.
    UnexpectedEndOfFile,
    /// A `generate_ok` arrived at a node, which only ever sends one.
    UnexpectedGenerateOk,
    /// A timer tick arrived at a node that has no periodic work.
    UnexpectedGeneratedEvent,
}

/// The mathematical value of a message.
pub struct MessageView<P> {
    pub source: Seq<char>,
    pub destination: Seq<char>,
    pub body: BodyView<P>,
}

/// The mathematical value of a message body.
pub struct BodyView<P> {
    pub message_id: Option<usize>,
    pub payload: P,
    pub in_reply_to: Option<usize>,
}

impl<P: View> View for Body<P> {
    type V = BodyView<P::V>;

    open spec fn view(&self) -> BodyView<P::V> {
        BodyView {
            message_id: self.message_id,
            payload: self.payload@,
            in_reply_to: self.in_reply_to,
        }
    }
}

impl<P: View> View for Message<P> {
    type V = MessageView<P::V>;

    open spec fn view(&self) -> MessageView<P::V> {
        MessageView { source: self.source@, destination: self.destination@, body: self.body@ }
    }
}

/// The views of a sequence of messages.
pub open spec fn messages_view<P: View>(out: Seq<Message<P>>) -> Seq<MessageView<P::V>> {
    out.map_values(|m: Message<P>| m@)
}

/// What a step that may fail hands back, taken by views.
pub open spec fn outcome_view<P: View>(r: Result<Vec<Message<P>>, NodeError>) -> Result<
    Seq<MessageView<P::V>>,
    NodeError,
> {
    match r {
        Ok(out) => Ok(messages_view(out@)),
        Err(e) => Err(e),
    }
}

/// Whether a step that may fail did what `model` says: on success the state became the
/// model's state and the messages sent are the model's; on failure the state is unchanged and
/// the error is the model's.
pub open spec fn follows<P: View>(
    model: Result<(StateView, Seq<MessageView<P::V>>), NodeError>,
    before: StateView,
    after: StateView,
    r: Result<Vec<Message<P>>, NodeError>,
) -> bool {
    match model {
        Ok((s, out)) => after == s && outcome_view(r) == Ok::<Seq<MessageView<P::V>>, NodeError>(out),
        Err(e) => after == before && r == Err::<Vec<Message<P>>, NodeError>(e),
    }
}

/// The message sent from `source` to `destination` with identifier `id`, answering `in_reply_to`.
pub open spec fn message_view<P>(
    source: Seq<char>,
    destination: Seq<char>,
    id: Option<usize>,
    payload: P,
    in_reply_to: Option<usize>,
) -> MessageView<P> {
    MessageView {
        source,
        destination,
        body: BodyView { message_id: id, payload, in_reply_to },
    }
}

/// The reply to `request` that carries `payload` and the identifier `id`: it goes back from
/// the request's destination to its source and names the request's identifier.
pub open spec fn reply_view<P, Q>(request: MessageView<P>, id: usize, payload: Q) -> MessageView<Q> {
    message_view(request.destination, request.source, Some(id), payload, request.body.message_id)
}

impl<Payload> Message<Payload> {
    pub fn new(source: String, destination: String, body: Body<Payload>) -> (r: Self)
        ensures
            r.source == source,
            r.destination == destination,
            r.body == body,
    {
        Self { source, destination, body }
    }

    /// The reply to `request` with `payload`: it swaps source and destination, answers the
    /// request's identifier and takes the next identifier of `state`.
    pub fn reply(state: &mut State, request: &Message<Payload>, payload: Payload) -> (r: Self)
        requires
            old(state).message_track_id < usize::MAX,
        ensures
            r.source == request.destination,
            r.destination == request.source,
            r.body.message_id == Some(old(state).message_track_id),
            r.body.payload == payload,
            r.body.in_reply_to == request.body.message_id,
            *final(state) == old(state).with_track_id((old(state).message_track_id + 1) as usize),
    {
        let body = Body::new(Some(state.get_and_increment()), payload, request.body.message_id);
        Self {
            source: request.destination.clone(),
            destination: request.source.clone(),
            body,
        }
    }
}

impl<Payload> Body<Payload> {
    pub fn new(message_id: Option<usize>, payload: Payload, in_reply_to: Option<usize>) -> (r: Self)
        ensures
            r.message_id == message_id,
            r.payload == payload,
            r.in_reply_to == in_reply_to,
    {
        Self { message_id, payload, in_reply_to }
    }
}

} // verus!

use crate::message::{
    follows, messages_view, reply_view, Event, EventView, Message, MessageView, NodeError,
};
use crate::state::{State, StateView};
use vstd::prelude::*;

verus! {

/// The echo workload: a node answers each `echo` with the same text.
#[derive(Debug, Clone, PartialEq, Eq)]
pub enum EchoPayload {
    Echo { echo: String },
    EchoOk { echo: String },
}

/// The mathematical value of an echo payload.
pub enum EchoPayloadView {
    Echo { echo: Seq<char> },
    EchoOk { echo: Seq<char> },
}

impl View for EchoPayload {
    type V = EchoPayloadView;

    open spec fn view(&self) -> EchoPayloadView {
        match self {
            EchoPayload::Echo { echo } => EchoPayloadView::Echo { echo: echo@ },
            EchoPayload::EchoOk { echo } => EchoPayloadView::EchoOk { echo: echo@ },
        }
    }
}

/// What a message does to an echo node: an `echo` is answered by an `echo_ok` with the same
/// text, which takes the next message identifier; an `echo_ok` is ignored.
pub open spec fn echo_model(s: StateView, m: MessageView<EchoPayloadView>) -> (
    StateView,
    Seq<MessageView<EchoPayloadView>>,
) {
    match m.body.payload {
        EchoPayloadView::Echo { echo } => (
            StateView { message_track_id: (s.message_track_id + 1) as usize, ..s },
            seq![reply_view(m, s.message_track_id, EchoPayloadView::EchoOk { echo })],
        ),
        EchoPayloadView::EchoOk { .. } => (s, Seq::empty()),
    }
}

/// What an event does to an echo node: a message is handled as above, a timer tick does
/// nothing, and the end of the input is refused.
pub open spec fn echo_event_model(s: StateView, e: EventView<EchoPayloadView>) -> Result<
    (StateView, Seq<MessageView<EchoPayloadView>>),
    NodeError,
> {
    match e {
        EventView::EndOfFile => Err(NodeError::UnexpectedEndOfFile),
        EventView::GeneratedMessage => Ok((s, Seq::empty())),
        EventView::ReceivedMessage(m) => Ok(echo_model(s, m)),
    }
}

impl Message<EchoPayload> {
    /// Handles a message at an echo node; returns the messages to send.
    pub fn step(&self, state: &mut State) -> (r: Vec<Message<EchoPayload>>)
        requires
            self.body.payload is Echo ==> old(state).message_track_id < usize::MAX,
        ensures
            (final(state)@, messages_view(r@)) == echo_model(old(state)@, self@),
    {
        let mut out = Vec::new();
        match &self.body.payload {
            EchoPayload::Echo { echo } => {
                let reply = Message::reply(state, self, EchoPayload::EchoOk { echo: echo.clone() });
                out.push(reply);
                assert(messages_view(out@) =~= seq![reply@]);
            },
            EchoPayload::EchoOk { .. } => {
                assert(messages_view(out@) =~= Seq::empty());
            },
        }
        out
    }
}

impl Event<EchoPayload> {
    /// Handles an event at an echo node.
    pub fn step(&self, state: &mut State) -> (r: Result<Vec<Message<EchoPayload>>, NodeError>)
        requires
            self matches Event::ReceivedMessage(m) && m.body.payload is Echo ==> old(state).message_track_id < usize::MAX,
        ensures
            follows(echo_event_model(old(state)@, self@), old(state)@, final(state)@, r),
    {
        match self {
            Event::EndOfFile => Err(NodeError::UnexpectedEndOfFile),
            Event::GeneratedMessage => {
                let out = Vec::new();
                assert(messages_view(out@) =~= Seq::empty());
                Ok(out)
            },
            Event::ReceivedMessage(message) => Ok(message.step(state)),
        }
    }
}

} // verus!

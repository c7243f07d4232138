use crate::message::{
    follows, reply_view, Event, EventView, Message, MessageView, NodeError,
};
use crate::node_set::NodeSet;
use crate::state::{with_peers, State, StateView};
use vstd::prelude::*;

verus! {

/// The handshake that gives a node its identity and the list of all nodes.
#[derive(Debug)]
pub enum InitPayload {
    Init { node_id: String, node_ids: NodeSet },
    InitOk,
}

/// The mathematical value of an init payload.
pub enum InitPayloadView {
    Init { node_id: Seq<char>, node_ids: Seq<Seq<char>> },
    InitOk,
}

impl View for InitPayload {
    type V = InitPayloadView;

    open spec fn view(&self) -> InitPayloadView {
        match self {
            InitPayload::Init { node_id, node_ids } => InitPayloadView::Init {
                node_id: node_id@,
                node_ids: node_ids@,
            },
            InitPayload::InitOk => InitPayloadView::InitOk,
        }
    }
}

/// What an init message does: the node takes its identity and the declared nodes, recomputes
/// its neighborhood, gives every other declared node an entry in `known`, and answers `init_ok`.
/// An `init_ok` is refused.
pub open spec fn init_model(s: StateView, m: MessageView<InitPayloadView>) -> Result<
    (StateView, Seq<MessageView<InitPayloadView>>),
    NodeError,
> {
    match m.body.payload {
        InitPayloadView::Init { node_id, node_ids } => {
            let s1 = (StateView { node_id, declared_nodes: node_ids, ..s }).refresh_neighborhood();
            let s2 = StateView {
                known: with_peers(s1.known, node_ids.to_set().remove(node_id)),
                message_track_id: (s.message_track_id + 1) as usize,
                ..s1
            };
            Ok((s2, seq![reply_view(m, s.message_track_id, InitPayloadView::InitOk)]))
        },
        InitPayloadView::InitOk => Err(NodeError::UnexpectedInitOk),
    }
}

/// What an event does to a node that waits for its init message: a message is handled as
/// above, a timer tick does nothing, and the end of the input is refused.
pub open spec fn init_event_model(s: StateView, e: EventView<InitPayloadView>) -> Result<
    (StateView, Seq<MessageView<InitPayloadView>>),
    NodeError,
> {
    match e {
        EventView::EndOfFile => Err(NodeError::UnexpectedEndOfFile),
        EventView::GeneratedMessage => Ok((s, Seq::empty())),
        EventView::ReceivedMessage(m) => init_model(s, m),
    }
}

/// Handles an init message; returns the reply to send.
pub fn apply_init(message: &Message<InitPayload>, state: &mut State) -> (r: Result<
    Vec<Message<InitPayload>>,
    NodeError,
>)
    requires
        message.body.payload is Init ==> old(state).message_track_id < usize::MAX,
    ensures
        follows(init_model(old(state)@, message@), old(state)@, final(state)@, r),
{
    match &message.body.payload {
        InitPayload::Init { node_id, node_ids } => {
            state.node_id = node_id.clone();
            state.declared_nodes = node_ids.duplicate();
            state.update_neighborhood();
            state.create_known(node_ids);
            let reply = Message::reply(state, message, InitPayload::InitOk);
            let mut out = Vec::new();
            out.push(reply);
            proof {
                assert(crate::message::messages_view(out@) =~= seq![reply@]);
            }
            Ok(out)
        },
        InitPayload::InitOk => Err(NodeError::UnexpectedInitOk),
    }
}

impl Message<InitPayload> {
    /// Handles an init message; see `apply_init`.
    pub fn step(&self, state: &mut State) -> (r: Result<Vec<Message<InitPayload>>, NodeError>)
        requires
            self.body.payload is Init ==> old(state).message_track_id < usize::MAX,
        ensures
            follows(init_model(old(state)@, self@), old(state)@, final(state)@, r),
    {
        apply_init(self, state)
    }
}

impl Event<InitPayload> {
    /// Handles an event while the node waits for its init message.
    pub fn step(&self, state: &mut State) -> (r: Result<Vec<Message<InitPayload>>, NodeError>)
        requires
            self matches Event::ReceivedMessage(m) && m.body.payload is Init ==> old(state).message_track_id < usize::MAX,
        ensures
            follows(init_event_model(old(state)@, self@), old(state)@, final(state)@, r),
    {
        match self {
            Event::EndOfFile => Err(NodeError::UnexpectedEndOfFile),
            Event::GeneratedMessage => {
                let out = Vec::new();
                assert(crate::message::messages_view(out@) =~= Seq::empty());
                Ok(out)
            },
            Event::ReceivedMessage(message) => apply_init(message, state),
        }
    }
}

} // verus!

use crate::message::{message_view, messages_view, Body, Event, EventView, Message, MessageView};
use crate::state::{State, StateView};
use std::collections::HashMap;
use vstd::prelude::*;
use vstd::string::StringExecFns;

verus! {

broadcast use vstd::std_specs::hash::group_hash_axioms;

/// The error code of the key/value service for a key that holds no value.
pub const KEY_DOES_NOT_EXIST: u32 = 20;

/// The error code of the key/value service for a compare-and-swap whose `from` did not match.
pub const PRECONDITION_FAILED: u32 = 22;

/// The name of the sequentially consistent key/value service.
pub open spec fn seq_kv_node() -> Seq<char> {
    "seq-kv"@
}

/// The key under which `node` keeps its share of the counter.
pub open spec fn counter_key_view(node: Seq<char>) -> Seq<char> {
    "g-counter::"@ + node
}

/// The grow-only counter workload, and the key/value service requests it makes.
#[derive(Debug, Clone, PartialEq, Eq)]
#[allow(inconsistent_fields)]
pub enum CounterPayload {
    Add { delta: u64 },
    AddOk,
    Read { key: Option<String> },
    ReadOk { value: u64 },
    Cas { key: String, from: u64, to: u64, create_if_not_exists: bool },
    CasOk,
    Error { code: u32, text: String },
}

/// The mathematical value of a counter payload.
#[allow(inconsistent_fields)]
pub enum CounterPayloadView {
    Add { delta: u64 },
    AddOk,
    Read { key: Option<Seq<char>> },
    ReadOk { value: u64 },
    Cas { key: Seq<char>, from: u64, to: u64, create_if_not_exists: bool },
    CasOk,
    Error { code: u32, text: Seq<char> },
}

impl View for CounterPayload {
    type V = CounterPayloadView;

    open spec fn view(&self) -> CounterPayloadView {
        match self {
            CounterPayload::Add { delta } => CounterPayloadView::Add { delta: *delta },
            CounterPayload::AddOk => CounterPayloadView::AddOk,
            CounterPayload::Read { key } => CounterPayloadView::Read {
                key: match key {
                    Some(k) => Some(k@),
                    None => None,
                },
            },
            CounterPayload::ReadOk { value } => CounterPayloadView::ReadOk { value: *value },
            CounterPayload::Cas { key, from, to, create_if_not_exists } => CounterPayloadView::Cas {
                key: key@,
                from: *from,
                to: *to,
                create_if_not_exists: *create_if_not_exists,
            },
            CounterPayload::CasOk => CounterPayloadView::CasOk,
            CounterPayload::Error { code, text } => CounterPayloadView::Error {
                code: *code,
                text: text@,
            },
        }
    }
}

/// The client request that a pending operation will answer.
#[derive(Debug)]
pub struct ClientRequest {
    pub source: String,
    pub destination: String,
    pub request_message_id: Option<usize>,
}

/// The mathematical value of a client request.
pub struct ClientRequestView {
    pub source: Seq<char>,
    pub destination: Seq<char>,
    pub request_message_id: Option<usize>,
}

impl View for ClientRequest {
    type V = ClientRequestView;

    open spec fn view(&self) -> ClientRequestView {
        ClientRequestView {
            source: self.source@,
            destination: self.destination@,
            request_message_id: self.request_message_id,
        }
    }
}

/// A key/value service request that awaits its answer.
#[derive(Debug)]
pub enum PendingCounterRpc {
    /// The read of this node's share for an `add`.
    AddRead { client: ClientRequest, delta: u64 },
    /// The compare-and-swap of this node's share for an `add`.
    AddCas { client: ClientRequest, delta: u64 },
    /// The read of one node's share for the `read` numbered `aggregate_id`.
    ReadShard { aggregate_id: usize },
}

/// The mathematical value of a pending request.
pub enum PendingRpcView {
    AddRead { client: ClientRequestView, delta: u64 },
    AddCas { client: ClientRequestView, delta: u64 },
    ReadShard { aggregate_id: usize },
}

impl View for PendingCounterRpc {
    type V = PendingRpcView;

    open spec fn view(&self) -> PendingRpcView {
        match self {
            PendingCounterRpc::AddRead { client, delta } => PendingRpcView::AddRead {
                client: client@,
                delta: *delta,
            },
            PendingCounterRpc::AddCas { client, delta } => PendingRpcView::AddCas {
                client: client@,
                delta: *delta,
            },
            PendingCounterRpc::ReadShard { aggregate_id } => PendingRpcView::ReadShard {
                aggregate_id: *aggregate_id,
            },
        }
    }
}

/// A client `read` that waits for the shares of some nodes.
#[derive(Debug)]
pub struct PendingRead {
    pub client: ClientRequest,
    pub remaining: usize,
    pub total: u64,
}

/// The mathematical value of a pending read.
pub struct PendingReadView {
    pub client: ClientRequestView,
    pub remaining: usize,
    pub total: u64,
}

impl View for PendingRead {
    type V = PendingReadView;

    open spec fn view(&self) -> PendingReadView {
        PendingReadView { client: self.client@, remaining: self.remaining, total: self.total }
    }
}

/// The state of a grow-only counter node.
#[derive(Debug)]
pub struct CounterState {
    pub inner: State,
    pending_rpcs: HashMap<usize, PendingCounterRpc>,
    pending_reads: HashMap<usize, PendingRead>,
}

/// The mathematical value of a counter node's state.
pub struct CounterStateView {
    pub inner: StateView,
    pub pending_rpcs: Map<usize, PendingRpcView>,
    pub pending_reads: Map<usize, PendingReadView>,
}

impl View for CounterState {
    type V = CounterStateView;

    closed spec fn view(&self) -> CounterStateView {
        CounterStateView {
            inner: self.inner@,
            pending_rpcs: Map::new(
                |k: usize| self.pending_rpcs@.contains_key(k),
                |k: usize| self.pending_rpcs@[k]@,
            ),
            pending_reads: Map::new(
                |k: usize| self.pending_reads@.contains_key(k),
                |k: usize| self.pending_reads@[k]@,
            ),
        }
    }
}

impl CounterStateView {
    /// Every pending read still waits for some share, and every pending identifier was issued
    /// by this node.
    pub open spec fn wf(self) -> bool {
        &&& forall|id: usize| #[trigger]
            self.pending_reads.contains_key(id) ==> self.pending_reads[id].remaining >= 1
        &&& forall|id: usize| #[trigger]
            self.pending_reads.contains_key(id) ==> id < self.inner.message_track_id
        &&& forall|id: usize| #[trigger]
            self.pending_rpcs.contains_key(id) ==> id < self.inner.message_track_id
    }

    /// The same state with the message identifier counter set to `id`.
    pub open spec fn with_track_id(self, id: int) -> CounterStateView {
        CounterStateView {
            inner: StateView { message_track_id: id as usize, ..self.inner },
            ..self
        }
    }
}

/// The client request that a message makes.
pub open spec fn client_view(m: MessageView<CounterPayloadView>) -> ClientRequestView {
    ClientRequestView {
        source: m.source,
        destination: m.destination,
        request_message_id: m.body.message_id,
    }
}

/// The answer to `client` with `payload`, taking the next message identifier.
pub open spec fn reply_to_client_model(
    cs: CounterStateView,
    client: ClientRequestView,
    payload: CounterPayloadView,
) -> (CounterStateView, MessageView<CounterPayloadView>) {
    let id = cs.inner.message_track_id;
    (
        cs.with_track_id(id + 1),
        message_view(client.destination, client.source, Some(id), payload, client.request_message_id),
    )
}

/// A request to the key/value service that takes the next message identifier and is
/// remembered under it as `pending`.
pub open spec fn kv_request_model(
    cs: CounterStateView,
    payload: CounterPayloadView,
    pending: PendingRpcView,
) -> (CounterStateView, MessageView<CounterPayloadView>) {
    let id = cs.inner.message_track_id;
    (
        CounterStateView {
            pending_rpcs: cs.pending_rpcs.insert(id, pending),
            ..cs.with_track_id(id + 1)
        },
        message_view(cs.inner.node_id, seq_kv_node(), Some(id), payload, None),
    )
}

/// Starts an `add` of `delta` for `client`: read this node's share.
pub open spec fn restart_add_model(cs: CounterStateView, client: ClientRequestView, delta: u64) -> (
    CounterStateView,
    Seq<MessageView<CounterPayloadView>>,
) {
    let (cs1, m) = kv_request_model(
        cs,
        CounterPayloadView::Read { key: Some(counter_key_view(cs.inner.node_id)) },
        PendingRpcView::AddRead { client, delta },
    );
    (cs1, seq![m])
}

/// Swaps this node's share from `from` to `to` for an `add` of `delta` for `client`.
pub open spec fn add_cas_model(
    cs: CounterStateView,
    client: ClientRequestView,
    delta: u64,
    from: u64,
    to: u64,
    create: bool,
) -> (CounterStateView, Seq<MessageView<CounterPayloadView>>) {
    let (cs1, m) = kv_request_model(
        cs,
        CounterPayloadView::Cas {
            key: counter_key_view(cs.inner.node_id),
            from,
            to,
            create_if_not_exists: create,
        },
        PendingRpcView::AddCas { client, delta },
    );
    (cs1, seq![m])
}

/// Starts a `read` for `client`: the read takes the next identifier as its number, and each
/// declared node's share is read, in order, under the identifiers after it. With no declared
/// node, the answer is 0 at once.
pub open spec fn read_all_model(cs: CounterStateView, client: ClientRequestView) -> (
    CounterStateView,
    Seq<MessageView<CounterPayloadView>>,
) {
    let aggregate_id = cs.inner.message_track_id;
    let nodes = cs.inner.declared_nodes;
    let n = nodes.len();
    if n == 0 {
        let (cs1, m) = reply_to_client_model(
            cs.with_track_id(aggregate_id + 1),
            client,
            CounterPayloadView::ReadOk { value: 0 },
        );
        (cs1, seq![m])
    } else {
        (
            CounterStateView {
                pending_reads: cs.pending_reads.insert(
                    aggregate_id,
                    PendingReadView { client, remaining: n as usize, total: 0 },
                ),
                pending_rpcs: cs.pending_rpcs.union_prefer_right(
                    Map::new(
                        |id: usize| aggregate_id < id <= aggregate_id + n,
                        |id: usize| PendingRpcView::ReadShard { aggregate_id },
                    ),
                ),
                ..cs.with_track_id(aggregate_id + 1 + n)
            },
            Seq::new(
                n,
                |j: int|
                    message_view(
                        cs.inner.node_id,
                        seq_kv_node(),
                        Some((aggregate_id + 1 + j) as usize),
                        CounterPayloadView::Read { key: Some(counter_key_view(nodes[j])) },
                        None,
                    ),
            ),
        )
    }
}

/// One share of the read numbered `aggregate_id` arrived with `contribution`: when it was the
/// last one, the client gets the sum; an unknown read is ignored.
pub open spec fn read_completion_model(
    cs: CounterStateView,
    aggregate_id: usize,
    contribution: u64,
) -> (CounterStateView, Seq<MessageView<CounterPayloadView>>) {
    if cs.pending_reads.contains_key(aggregate_id) {
        let p = cs.pending_reads[aggregate_id];
        let remaining = (p.remaining - 1) as usize;
        let total = (p.total + contribution) as u64;
        if remaining == 0 {
            let (cs1, m) = reply_to_client_model(
                CounterStateView { pending_reads: cs.pending_reads.remove(aggregate_id), ..cs },
                p.client,
                CounterPayloadView::ReadOk { value: total },
            );
            (cs1, seq![m])
        } else {
            (
                CounterStateView {
                    pending_reads: cs.pending_reads.insert(
                        aggregate_id,
                        PendingReadView { client: p.client, remaining, total },
                    ),
                    ..cs
                },
                Seq::empty(),
            )
        }
    } else {
        (cs, Seq::empty())
    }
}

/// Removes the pending request that `in_reply_to` answers, if there is one.
pub open spec fn take_pending_model(cs: CounterStateView, in_reply_to: Option<usize>) -> (
    CounterStateView,
    Option<PendingRpcView>,
) {
    match in_reply_to {
        Some(id) => if cs.pending_rpcs.contains_key(id) {
            (
                CounterStateView { pending_rpcs: cs.pending_rpcs.remove(id), ..cs },
                Some(cs.pending_rpcs[id]),
            )
        } else {
            (cs, None)
        },
        None => (cs, None),
    }
}

/// What a message does to a counter node.
///
/// An `add` reads this node's share. A `read` with no key reads every declared node's share.
/// A `read_ok` from the key/value service answers a pending request: for an `add`, the share
/// is swapped from the value read to that value plus the delta; for a `read`, the value is
/// counted. A `cas_ok` for an `add` is answered by `add_ok`. An error on the read for an `add`
/// swaps a missing share from 0 to the delta with creation allowed; an error that a swap did
/// not match restarts the `add`; an error for a share of a `read` counts a missing share as 0;
/// any other error is passed to the client. Anything else is ignored.
pub open spec fn counter_model(cs: CounterStateView, m: MessageView<CounterPayloadView>) -> (
    CounterStateView,
    Seq<MessageView<CounterPayloadView>>,
) {
    match m.body.payload {
        CounterPayloadView::Add { delta } => restart_add_model(cs, client_view(m), delta),
        CounterPayloadView::Read { key: None } => read_all_model(cs, client_view(m)),
        CounterPayloadView::ReadOk { value } => if m.source == seq_kv_node() {
            let (cs1, p) = take_pending_model(cs, m.body.in_reply_to);
            match p {
                Some(PendingRpcView::AddRead { client, delta }) => add_cas_model(
                    cs1,
                    client,
                    delta,
                    value,
                    (value + delta) as u64,
                    false,
                ),
                Some(PendingRpcView::ReadShard { aggregate_id }) => read_completion_model(
                    cs1,
                    aggregate_id,
                    value,
                ),
                _ => (cs1, Seq::empty()),
            }
        } else {
            (cs, Seq::empty())
        },
        CounterPayloadView::CasOk => {
            let (cs1, p) = take_pending_model(cs, m.body.in_reply_to);
            match p {
                Some(PendingRpcView::AddCas { client, .. }) => {
                    let (cs2, r) = reply_to_client_model(cs1, client, CounterPayloadView::AddOk);
                    (cs2, seq![r])
                },
                _ => (cs1, Seq::empty()),
            }
        },
        CounterPayloadView::Error { code, text } => {
            let (cs1, p) = take_pending_model(cs, m.body.in_reply_to);
            let error = CounterPayloadView::Error { code, text };
            match p {
                Some(PendingRpcView::AddRead { client, delta }) => if code == KEY_DOES_NOT_EXIST {
                    add_cas_model(cs1, client, delta, 0, delta, true)
                } else {
                    let (cs2, r) = reply_to_client_model(cs1, client, error);
                    (cs2, seq![r])
                },
                Some(PendingRpcView::AddCas { client, delta }) => if code == PRECONDITION_FAILED {
                    restart_add_model(cs1, client, delta)
                } else {
                    let (cs2, r) = reply_to_client_model(cs1, client, error);
                    (cs2, seq![r])
                },
                Some(PendingRpcView::ReadShard { aggregate_id }) => if code == KEY_DOES_NOT_EXIST {
                    read_completion_model(cs1, aggregate_id, 0)
                } else if cs1.pending_reads.contains_key(aggregate_id) {
                    let (cs2, r) = reply_to_client_model(
                        CounterStateView {
                            pending_reads: cs1.pending_reads.remove(aggregate_id),
                            ..cs1
                        },
                        cs1.pending_reads[aggregate_id].client,
                        error,
                    );
                    (cs2, seq![r])
                } else {
                    (cs1, Seq::empty())
                },
                None => (cs1, Seq::empty()),
            }
        },
        _ => (cs, Seq::empty()),
    }
}

/// Whether the sums that a message asks for fit in 64 bits: the new share of an `add` whose
/// read answers, and the running total of a `read` whose share answers.
pub open spec fn counter_sums_fit(cs: CounterStateView, m: MessageView<CounterPayloadView>) -> bool {
    match m.body.payload {
        CounterPayloadView::ReadOk { value } => m.source == seq_kv_node() ==> match m.body.in_reply_to {
            Some(id) => cs.pending_rpcs.contains_key(id) ==> match cs.pending_rpcs[id] {
                PendingRpcView::AddRead { delta, .. } => value + delta <= u64::MAX,
                PendingRpcView::ReadShard { aggregate_id } => cs.pending_reads.contains_key(
                    aggregate_id,
                ) ==> cs.pending_reads[aggregate_id].total + value <= u64::MAX,
                _ => true,
            },
            None => true,
        },
        _ => true,
    }
}

/// The most message identifiers that a message makes a counter node take: a `read` takes one
/// for itself and one per declared node (or one for its answer when there is none); an `add`
/// and each answer of the key/value service take one; anything else takes none.
pub open spec fn counter_ids_needed(cs: CounterStateView, m: MessageView<CounterPayloadView>) -> int {
    match m.body.payload {
        CounterPayloadView::Add { .. } => 1,
        CounterPayloadView::Read { key: None } => if cs.inner.declared_nodes.len() == 0 {
            2
        } else {
            cs.inner.declared_nodes.len() + 1int
        },
        CounterPayloadView::ReadOk { .. } => 1,
        CounterPayloadView::CasOk => 1,
        CounterPayloadView::Error { .. } => 1,
        _ => 0,
    }
}

/// Whether the message identifiers that a message may take fit in a `usize`.
pub open spec fn counter_ids_fit(cs: CounterStateView, m: MessageView<CounterPayloadView>) -> bool {
    cs.inner.message_track_id + counter_ids_needed(cs, m) <= usize::MAX
}

/// Whether the message identifiers that an event may take fit in a `usize`.
pub open spec fn counter_event_ids_fit(cs: CounterStateView, e: EventView<CounterPayloadView>) -> bool {
    match e {
        EventView::ReceivedMessage(m) => counter_ids_fit(cs, m),
        _ => true,
    }
}

/// What an event does to a counter node: a message is handled as above; a timer tick and the
/// end of the input do nothing.
pub open spec fn counter_event_model(cs: CounterStateView, e: EventView<CounterPayloadView>) -> (
    CounterStateView,
    Seq<MessageView<CounterPayloadView>>,
) {
    match e {
        EventView::ReceivedMessage(m) => counter_model(cs, m),
        _ => (cs, Seq::empty()),
    }
}

/// The client request that `message` makes.
pub fn client_request(message: &Message<CounterPayload>) -> (r: ClientRequest)
    ensures
        r@ == client_view(message@),
{
    ClientRequest {
        source: message.source.clone(),
        destination: message.destination.clone(),
        request_message_id: message.body.message_id,
    }
}

impl CounterState {
    /// A counter node with an empty state and nothing pending.
    pub fn new() -> (r: CounterState)
        ensures
            r@.inner == StateView::empty(),
            r@.pending_rpcs == Map::<usize, PendingRpcView>::empty(),
            r@.pending_reads == Map::<usize, PendingReadView>::empty(),
            r@.wf(),
    {
        let r = CounterState {
            inner: State::new(),
            pending_rpcs: HashMap::new(),
            pending_reads: HashMap::new(),
        };
        assert(r@.pending_rpcs =~= Map::<usize, PendingRpcView>::empty());
        assert(r@.pending_reads =~= Map::<usize, PendingReadView>::empty());
        r
    }

    /// The common node state.
    pub fn state(&mut self) -> (r: &mut State)
        ensures
            r@ == old(self)@.inner,
            final(self)@ == (CounterStateView { inner: final(r)@, ..old(self)@ }),
    {
        &mut self.inner
    }

    /// The key under which `node_id` keeps its share of the counter.
    pub fn counter_key(&self, node_id: &String) -> (r: String)
        ensures
            r@ == counter_key_view(node_id@),
    {
        let prefix: String = "g-counter::".to_owned();
        prefix.concat(node_id.as_str())
    }

    /// Remembers `pending` under the identifier `message_id`.
    pub fn remember_pending(&mut self, message_id: usize, pending: PendingCounterRpc)
        ensures
            final(self)@ == (CounterStateView {
                pending_rpcs: old(self)@.pending_rpcs.insert(message_id, pending@),
                ..old(self)@
            }),
    {
        self.pending_rpcs.insert(message_id, pending);
        assert(self@.pending_rpcs =~= old(self)@.pending_rpcs.insert(message_id, pending@));
    }

    /// Removes and returns the pending request that `in_reply_to` answers, if any.
    pub fn take_pending(&mut self, in_reply_to: Option<usize>) -> (r: Option<PendingCounterRpc>)
        ensures
            (final(self)@, match r {
                Some(p) => Some(p@),
                None => None,
            }) == take_pending_model(old(self)@, in_reply_to),
    {
        match in_reply_to {
            Some(message_id) => {
                let r = self.pending_rpcs.remove(&message_id);
                proof {
                    if old(self)@.pending_rpcs.contains_key(message_id) {
                        assert(self@.pending_rpcs =~= old(self)@.pending_rpcs.remove(message_id));
                    } else {
                        assert(self@.pending_rpcs =~= old(self)@.pending_rpcs);
                    }
                }
                r
            },
            None => None,
        }
    }
}

/// Sends `payload` to `client`, taking the next message identifier.
pub fn reply_to_client(state: &mut CounterState, client: &ClientRequest, payload: CounterPayload) -> (r:
    Message<CounterPayload>)
    requires
        old(state)@.inner.message_track_id < usize::MAX,
    ensures
        (final(state)@, r@) == reply_to_client_model(old(state)@, client@, payload@),
{
    let id = state.inner.get_and_increment();
    Message::new(
        client.destination.clone(),
        client.source.clone(),
        Body::new(Some(id), payload, client.request_message_id),
    )
}

/// Asks the key/value service for `key`, remembering `pending` under the request's identifier.
pub fn send_kv_read(state: &mut CounterState, key: String, pending: PendingCounterRpc) -> (r:
    Message<CounterPayload>)
    requires
        old(state)@.inner.message_track_id < usize::MAX,
    ensures
        (final(state)@, r@) == kv_request_model(
            old(state)@,
            CounterPayloadView::Read { key: Some(key@) },
            pending@,
        ),
{
    let message_id = state.inner.get_and_increment();
    state.remember_pending(message_id, pending);
    Message::new(
        state.inner.node_id.clone(),
        "seq-kv".to_owned(),
        Body::new(Some(message_id), CounterPayload::Read { key: Some(key) }, None),
    )
}

/// Asks the key/value service to swap `key` from `from` to `to`, remembering `pending` under
/// the request's identifier.
pub fn send_kv_cas(
    state: &mut CounterState,
    key: String,
    from: u64,
    to: u64,
    create_if_not_exists: bool,
    pending: PendingCounterRpc,
) -> (r: Message<CounterPayload>)
    requires
        old(state)@.inner.message_track_id < usize::MAX,
    ensures
        (final(state)@, r@) == kv_request_model(
            old(state)@,
            CounterPayloadView::Cas { key: key@, from, to, create_if_not_exists },
            pending@,
        ),
{
    let message_id = state.inner.get_and_increment();
    state.remember_pending(message_id, pending);
    Message::new(
        state.inner.node_id.clone(),
        "seq-kv".to_owned(),
        Body::new(
            Some(message_id),
            CounterPayload::Cas { key, from, to, create_if_not_exists },
            None,
        ),
    )
}

/// Counts `contribution` for the read numbered `aggregate_id`; answers the client when it was
/// the last share.
pub fn handle_read_completion(state: &mut CounterState, aggregate_id: usize, contribution: u64) -> (r:
    Vec<Message<CounterPayload>>)
    requires
        old(state)@.inner.message_track_id < usize::MAX,
        old(state)@.pending_reads.contains_key(aggregate_id) ==> old(state)@.pending_reads[aggregate_id].remaining >= 1
            && old(state)@.pending_reads[aggregate_id].total + contribution <= u64::MAX,
    ensures
        (final(state)@, messages_view(r@)) == read_completion_model(
            old(state)@,
            aggregate_id,
            contribution,
        ),
{
    let mut out = Vec::new();
    match state.pending_reads.remove(&aggregate_id) {
        Some(pending) => {
            let remaining = pending.remaining - 1;
            let total = pending.total + contribution;
            if remaining == 0 {
                assert(state@.pending_reads =~= old(state)@.pending_reads.remove(aggregate_id));
                let reply = reply_to_client(
                    state,
                    &pending.client,
                    CounterPayload::ReadOk { value: total },
                );
                out.push(reply);
                assert(messages_view(out@) =~= seq![reply@]);
            } else {
                let PendingRead { client, .. } = pending;
                state.pending_reads.insert(aggregate_id, PendingRead { client, remaining, total });
                assert(state@.pending_reads =~= old(state)@.pending_reads.insert(
                    aggregate_id,
                    PendingReadView { client: old(state)@.pending_reads[aggregate_id].client, remaining, total },
                ));
                assert(messages_view(out@) =~= Seq::<MessageView<CounterPayloadView>>::empty());
            }
        },
        None => {
            assert(state@.pending_reads =~= old(state)@.pending_reads);
            assert(messages_view(out@) =~= Seq::<MessageView<CounterPayloadView>>::empty());
        },
    }
    out
}

/// Starts an `add` of `delta` for `client` over: reads this node's share.
pub fn restart_add(state: &mut CounterState, client: ClientRequest, delta: u64) -> (r: Message<
    CounterPayload,
>)
    requires
        old(state)@.inner.message_track_id < usize::MAX,
    ensures
        (final(state)@, seq![r@]) == restart_add_model(old(state)@, client@, delta),
{
    let key = state.counter_key(&state.inner.node_id);
    send_kv_read(state, key, PendingCounterRpc::AddRead { client, delta })
}

/// Starts a `read` for `client`: see `read_all_model`.
pub fn start_read(state: &mut CounterState, client: ClientRequest) -> (r: Vec<Message<CounterPayload>>)
    requires
        old(state)@.inner.message_track_id + old(state)@.inner.declared_nodes.len() + 1 <= usize::MAX,
        old(state)@.inner.message_track_id + 2 <= usize::MAX,
    ensures
        (final(state)@, messages_view(r@)) == read_all_model(old(state)@, client@),
{
    let ghost start = state@;
    let ghost cv = client@;
    let aggregate_id = state.inner.get_and_increment();
    let nodes = state.inner.declared_nodes.to_vec();
    let mut out: Vec<Message<CounterPayload>> = Vec::new();
    if nodes.len() == 0 {
        let reply = reply_to_client(state, &client, CounterPayload::ReadOk { value: 0 });
        out.push(reply);
        assert(messages_view(out@) =~= seq![reply@]);
        return out;
    }
    let n = nodes.len();
    state.pending_reads.insert(aggregate_id, PendingRead { client, remaining: n, total: 0 });
    let ghost reads = start.pending_reads.insert(
        aggregate_id,
        PendingReadView { client: cv, remaining: n, total: 0 },
    );
    assert(state@.pending_reads =~= reads);
    let mut j: usize = 0;
    assert(state@.pending_rpcs =~= start.pending_rpcs.union_prefer_right(
        Map::new(
            |id: usize| aggregate_id < id <= aggregate_id + 0,
            |id: usize| PendingRpcView::ReadShard { aggregate_id },
        ),
    ));
    assert(messages_view(out@) =~= Seq::<MessageView<CounterPayloadView>>::empty());
    while j < n
        invariant
            n == nodes@.len(),
            n == start.inner.declared_nodes.len(),
            crate::node_set::ids_view(nodes@) == start.inner.declared_nodes,
            aggregate_id == start.inner.message_track_id,
            start.inner.message_track_id + n + 1 <= usize::MAX,
            j <= n,
            state@ == (CounterStateView {
                pending_reads: reads,
                pending_rpcs: start.pending_rpcs.union_prefer_right(
                    Map::new(
                        |id: usize| aggregate_id < id <= aggregate_id + j,
                        |id: usize| PendingRpcView::ReadShard { aggregate_id },
                    ),
                ),
                ..start.with_track_id(aggregate_id + 1 + j)
            }),
            messages_view(out@) == Seq::new(
                j as nat,
                |k: int|
                    message_view(
                        start.inner.node_id,
                        seq_kv_node(),
                        Some((aggregate_id + 1 + k) as usize),
                        CounterPayloadView::Read {
                            key: Some(counter_key_view(start.inner.declared_nodes[k])),
                        },
                        None,
                    ),
            ),
        decreases n - j,
    {
        assert(nodes@[j as int]@ == start.inner.declared_nodes[j as int]);
        let key = state.counter_key(&nodes[j]);
        let request = send_kv_read(state, key, PendingCounterRpc::ReadShard { aggregate_id });
        let ghost before = out@;
        out.push(request);
        assert(messages_view(out@) =~= messages_view(before).push(request@));
        j = j + 1;
        assert(state@.pending_rpcs =~= start.pending_rpcs.union_prefer_right(
            Map::new(
                |id: usize| aggregate_id < id <= aggregate_id + j,
                |id: usize| PendingRpcView::ReadShard { aggregate_id },
            ),
        ));
        assert(messages_view(out@) =~= Seq::new(
            j as nat,
            |k: int|
                message_view(
                    start.inner.node_id,
                    seq_kv_node(),
                    Some((aggregate_id + 1 + k) as usize),
                    CounterPayloadView::Read {
                        key: Some(counter_key_view(start.inner.declared_nodes[k])),
                    },
                    None,
                ),
        ));
    }
    out
}

/// A single message as a one-element vector.
fn one(m: Message<CounterPayload>) -> (r: Vec<Message<CounterPayload>>)
    ensures
        messages_view(r@) == seq![m@],
{
    let mut out = Vec::new();
    out.push(m);
    assert(messages_view(out@) =~= seq![m@]);
    out
}

/// No message at all.
fn none() -> (r: Vec<Message<CounterPayload>>)
    ensures
        messages_view(r@) == Seq::<MessageView<CounterPayloadView>>::empty(),
{
    let out = Vec::new();
    assert(messages_view(out@) =~= Seq::<MessageView<CounterPayloadView>>::empty());
    out
}

impl Message<CounterPayload> {
    /// Handles a message at a counter node; returns the messages to send.
    pub fn step(&self, state: &mut CounterState) -> (r: Vec<Message<CounterPayload>>)
        requires
            counter_ids_fit(old(state)@, self@),
            counter_sums_fit(old(state)@, self@),
            old(state)@.wf(),
        ensures
            (final(state)@, messages_view(r@)) == counter_model(old(state)@, self@),
    {
        match &self.body.payload {
            CounterPayload::Add { delta } => one(restart_add(state, client_request(self), *delta)),
            CounterPayload::Read { key: None } => start_read(state, client_request(self)),
            CounterPayload::ReadOk { value } => {
                let seq_kv: String = "seq-kv".to_owned();
                if self.source == seq_kv {
                    match state.take_pending(self.body.in_reply_to) {
                        Some(PendingCounterRpc::AddRead { client, delta }) => {
                            let key = state.counter_key(&state.inner.node_id);
                            one(
                                send_kv_cas(
                                    state,
                                    key,
                                    *value,
                                    *value + delta,
                                    false,
                                    PendingCounterRpc::AddCas { client, delta },
                                ),
                            )
                        },
                        Some(PendingCounterRpc::ReadShard { aggregate_id }) => {
                            handle_read_completion(state, aggregate_id, *value)
                        },
                        Some(PendingCounterRpc::AddCas { .. }) | None => none(),
                    }
                } else {
                    none()
                }
            },
            CounterPayload::CasOk => match state.take_pending(self.body.in_reply_to) {
                Some(PendingCounterRpc::AddCas { client, .. }) => {
                    one(reply_to_client(state, &client, CounterPayload::AddOk))
                },
                Some(PendingCounterRpc::AddRead { .. })
                | Some(PendingCounterRpc::ReadShard { .. })
                | None => none(),
            },
            CounterPayload::Error { code, text } => match state.take_pending(self.body.in_reply_to) {
                Some(PendingCounterRpc::AddRead { client, delta }) => {
                    if *code == KEY_DOES_NOT_EXIST {
                        let key = state.counter_key(&state.inner.node_id);
                        one(
                            send_kv_cas(
                                state,
                                key,
                                0,
                                delta,
                                true,
                                PendingCounterRpc::AddCas { client, delta },
                            ),
                        )
                    } else {
                        one(
                            reply_to_client(
                                state,
                                &client,
                                CounterPayload::Error { code: *code, text: text.clone() },
                            ),
                        )
                    }
                },
                Some(PendingCounterRpc::AddCas { client, delta }) => {
                    if *code == PRECONDITION_FAILED {
                        one(restart_add(state, client, delta))
                    } else {
                        one(
                            reply_to_client(
                                state,
                                &client,
                                CounterPayload::Error { code: *code, text: text.clone() },
                            ),
                        )
                    }
                },
                Some(PendingCounterRpc::ReadShard { aggregate_id }) => {
                    if *code == KEY_DOES_NOT_EXIST {
                        handle_read_completion(state, aggregate_id, 0)
                    } else {
                        let ghost mid = state@;
                        match state.pending_reads.remove(&aggregate_id) {
                            Some(pending) => {
                                assert(state@.pending_reads =~= mid.pending_reads.remove(aggregate_id));
                                one(
                                    reply_to_client(
                                        state,
                                        &pending.client,
                                        CounterPayload::Error { code: *code, text: text.clone() },
                                    ),
                                )
                            },
                            None => {
                                assert(state@.pending_reads =~= mid.pending_reads);
                                none()
                            },
                        }
                    }
                },
                None => none(),
            },
            CounterPayload::AddOk
            | CounterPayload::Read { key: Some(..) }
            | CounterPayload::Cas { .. } => none(),
        }
    }
}

impl Event<CounterPayload> {
    /// Handles an event at a counter node; returns the messages to send.
    pub fn step(&self, state: &mut CounterState) -> (r: Vec<Message<CounterPayload>>)
        requires
            counter_event_ids_fit(old(state)@, self@),
            old(state)@.wf(),
            self matches Event::ReceivedMessage(m) ==> counter_sums_fit(old(state)@, m@),
        ensures
            (final(state)@, messages_view(r@)) == counter_event_model(old(state)@, self@),
    {
        match self {
            Event::EndOfFile | Event::GeneratedMessage => none(),
            Event::ReceivedMessage(message) => message.step(state),
        }
    }
}

impl CounterState {
    /// Whether the message identifiers that handling `message` may take fit in a `usize`.
    pub fn ids_fit(&self, message: &Message<CounterPayload>) -> (r: bool)
        ensures
            r == counter_ids_fit(self@, message@),
    {
        let needed: usize = match &message.body.payload {
            CounterPayload::Add { .. } => 1,
            CounterPayload::Read { key: None } => {
                let n = self.inner.declared_nodes.len();
                if n == 0 {
                    2
                } else if n == usize::MAX {
                    return false;
                } else {
                    n + 1
                }
            },
            CounterPayload::ReadOk { .. } => 1,
            CounterPayload::CasOk => 1,
            CounterPayload::Error { .. } => 1,
            _ => 0,
        };
        self.inner.message_track_id <= usize::MAX - needed
    }

    /// Whether the sums that `message` asks for fit in a `u64`.
    pub fn sums_fit(&self, message: &Message<CounterPayload>) -> (r: bool)
        ensures
            r == counter_sums_fit(self@, message@),
    {
        match &message.body.payload {
            CounterPayload::ReadOk { value } => {
                let seq_kv: String = "seq-kv".to_owned();
                if message.source != seq_kv {
                    return true;
                }
                match message.body.in_reply_to {
                    Some(id) => match self.pending_rpcs.get(&id) {
                        Some(PendingCounterRpc::AddRead { delta, .. }) => *value <= u64::MAX - *delta,
                        Some(PendingCounterRpc::ReadShard { aggregate_id }) => {
                            match self.pending_reads.get(aggregate_id) {
                                Some(pending) => *value <= u64::MAX - pending.total,
                                None => true,
                            }
                        },
                        _ => true,
                    },
                    None => true,
                }
            },
            _ => true,
        }
    }
}

impl Default for CounterState {
    fn default() -> (r: CounterState)
        ensures
            r@.inner == StateView::empty(),
            r@.pending_rpcs == Map::<usize, PendingRpcView>::empty(),
            r@.pending_reads == Map::<usize, PendingReadView>::empty(),
            r@.wf(),
    {
        CounterState::new()
    }
}

} // verus!

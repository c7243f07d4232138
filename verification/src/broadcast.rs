use crate::message::{
    message_view, messages_view, reply_view, Body, Event, EventView, Message, MessageView,
};
use crate::node_map::NodeMap;
use crate::node_set::NodeSet;
use crate::sets::copy_set;
use crate::state::{State, StateView};
use std::collections::HashSet;
use vstd::prelude::*;

verus! {

broadcast use vstd::std_specs::hash::group_hash_axioms;

/// The broadcast workload: clients hand values to nodes, which spread them by gossip.
#[derive(Debug, PartialEq, Eq)]
pub enum BroadcastPayload {
    Broadcast { message: u32 },
    BroadcastOk,
    Read,
    ReadOk { messages: HashSet<u32> },
    Topology { topology: NodeMap<NodeSet> },
    TopologyOk,
    Gossip { messages: HashSet<u32> },
}

/// The kinds of work that a broadcast node starts by itself.
#[derive(Debug, Clone, Copy)]
pub enum GeneratedPayload {
    Gossip,
}

/// The mathematical value of a broadcast payload.
pub enum BroadcastPayloadView {
    Broadcast { message: u32 },
    BroadcastOk,
    Read,
    ReadOk { messages: Set<u32> },
    Topology { topology: Map<Seq<char>, Seq<Seq<char>>> },
    TopologyOk,
    Gossip { messages: Set<u32> },
}

impl View for BroadcastPayload {
    type V = BroadcastPayloadView;

    open spec fn view(&self) -> BroadcastPayloadView {
        match self {
            BroadcastPayload::Broadcast { message } => BroadcastPayloadView::Broadcast {
                message: *message,
            },
            BroadcastPayload::BroadcastOk => BroadcastPayloadView::BroadcastOk,
            BroadcastPayload::Read => BroadcastPayloadView::Read,
            BroadcastPayload::ReadOk { messages } => BroadcastPayloadView::ReadOk {
                messages: messages@,
            },
            BroadcastPayload::Topology { topology } => BroadcastPayloadView::Topology {
                topology: topology@,
            },
            BroadcastPayload::TopologyOk => BroadcastPayloadView::TopologyOk,
            BroadcastPayload::Gossip { messages } => BroadcastPayloadView::Gossip {
                messages: messages@,
            },
        }
    }
}

/// The view of an optional node identifier.
pub open spec fn opt_id_view(node: Option<&String>) -> Option<Seq<char>> {
    match node {
        Some(n) => Some(n@),
        None => None,
    }
}

/// Whether a gossip round sends to `node`: it is not the node to skip, and it misses some
/// message of this node.
pub open spec fn is_gossip_target(s: StateView, skip: Option<Seq<char>>, node: Seq<char>) -> bool {
    skip != Some(node) && !s.unknown_to(node).is_empty()
}

/// The nodes of `nodes` that a gossip round sends to, in order.
pub open spec fn gossip_targets(
    s: StateView,
    nodes: Seq<Seq<char>>,
    skip: Option<Seq<char>>,
) -> Seq<Seq<char>> {
    nodes.filter(|n: Seq<char>| is_gossip_target(s, skip, n))
}

/// The gossip messages sent to `targets`: the i-th goes to the i-th target, takes the i-th
/// next message identifier, and carries exactly the messages that this target misses.
pub open spec fn gossip_messages(s: StateView, targets: Seq<Seq<char>>) -> Seq<
    MessageView<BroadcastPayloadView>,
> {
    Seq::new(
        targets.len(),
        |i: int|
            message_view(
                s.node_id,
                targets[i],
                Some((s.message_track_id + i) as usize),
                BroadcastPayloadView::Gossip { messages: s.unknown_to(targets[i]) },
                None,
            ),
    )
}

/// `known` after each of `targets` other than this node is recorded as having every message.
pub open spec fn learned(s: StateView, targets: Seq<Seq<char>>) -> Map<Seq<char>, Set<u32>> {
    Map::new(
        |k: Seq<char>| s.known.contains_key(k) || (targets.contains(k) && k != s.node_id),
        |k: Seq<char>|
            if targets.contains(k) && k != s.node_id {
                s.known_of(k).union(s.messages)
            } else {
                s.known[k]
            },
    )
}

/// A gossip round over `nodes`: the state afterwards and the messages sent.
pub open spec fn gossip_over(s: StateView, nodes: Seq<Seq<char>>, skip: Option<Seq<char>>) -> (
    StateView,
    Seq<MessageView<BroadcastPayloadView>>,
) {
    let targets = gossip_targets(s, nodes, skip);
    (
        StateView {
            message_track_id: (s.message_track_id + targets.len()) as usize,
            known: learned(s, targets),
            ..s
        },
        gossip_messages(s, targets),
    )
}

/// A gossip round over the neighborhood, skipping `skip`: every neighbor that misses a
/// message gets one gossip message with all it misses, and is then recorded as having them.
pub open spec fn gossip_model(s: StateView, skip: Option<Seq<char>>) -> (
    StateView,
    Seq<MessageView<BroadcastPayloadView>>,
) {
    gossip_over(s, s.neighborhood, skip)
}

/// The most message identifiers that a message makes a broadcast node take: a `broadcast`
/// takes one for its answer and at most one per neighbor, a `gossip` at most one per neighbor,
/// a `read` or a `topology` one for its answer; anything else takes none.
pub open spec fn broadcast_ids_needed(s: StateView, m: MessageView<BroadcastPayloadView>) -> int {
    match m.body.payload {
        BroadcastPayloadView::Broadcast { .. } => s.neighborhood.len() + 1int,
        BroadcastPayloadView::Read => 1,
        BroadcastPayloadView::Topology { .. } => 1,
        BroadcastPayloadView::Gossip { .. } => s.neighborhood.len() as int,
        _ => 0,
    }
}

/// The most message identifiers that an event makes a broadcast node take; a timer tick takes
/// at most one per neighbor.
pub open spec fn broadcast_event_ids_needed(s: StateView, e: EventView<BroadcastPayloadView>) -> int {
    match e {
        EventView::EndOfFile => 0,
        EventView::GeneratedMessage => s.neighborhood.len() as int,
        EventView::ReceivedMessage(m) => broadcast_ids_needed(s, m),
    }
}

/// What a message does to a broadcast node.
///
/// A `broadcast` stores its value, is answered by `broadcast_ok`, and starts a gossip round.
/// A `read` is answered by `read_ok` with every stored value. A `topology` replaces the named
/// entries of the topology, recomputes the neighborhood and is answered by `topology_ok`. A
/// `gossip` stores its values and records the sender as having them; when a value was new, a
/// gossip round skips the sender. Anything else is ignored.
pub open spec fn broadcast_model(s: StateView, m: MessageView<BroadcastPayloadView>) -> (
    StateView,
    Seq<MessageView<BroadcastPayloadView>>,
) {
    match m.body.payload {
        BroadcastPayloadView::Broadcast { message } => {
            let s1 = StateView {
                messages: s.messages.insert(message),
                message_track_id: (s.message_track_id + 1) as usize,
                ..s
            };
            let (s2, gossip) = gossip_model(s1, None);
            (s2, seq![reply_view(m, s.message_track_id, BroadcastPayloadView::BroadcastOk)] + gossip)
        },
        BroadcastPayloadView::Read => (
            StateView { message_track_id: (s.message_track_id + 1) as usize, ..s },
            seq![
                reply_view(
                    m,
                    s.message_track_id,
                    BroadcastPayloadView::ReadOk { messages: s.messages },
                ),
            ],
        ),
        BroadcastPayloadView::Topology { topology } => {
            let s1 = (StateView {
                topology: s.topology.union_prefer_right(topology),
                ..s
            }).refresh_neighborhood();
            (
                StateView { message_track_id: (s.message_track_id + 1) as usize, ..s1 },
                seq![reply_view(m, s.message_track_id, BroadcastPayloadView::TopologyOk)],
            )
        },
        BroadcastPayloadView::Gossip { messages } => {
            let s1 = (StateView { messages: s.messages.union(messages), ..s }).record_known(
                m.source,
                messages,
            );
            if !messages.subset_of(s.messages) {
                gossip_model(s1, Some(m.source))
            } else {
                (s1, Seq::empty())
            }
        },
        _ => (s, Seq::empty()),
    }
}

/// What an event does to a broadcast node: a message is handled as above, a timer tick starts
/// a gossip round, and the end of the input does nothing.
pub open spec fn broadcast_event_model(s: StateView, e: EventView<BroadcastPayloadView>) -> (
    StateView,
    Seq<MessageView<BroadcastPayloadView>>,
) {
    match e {
        EventView::EndOfFile => (s, Seq::empty()),
        EventView::GeneratedMessage => gossip_model(s, None),
        EventView::ReceivedMessage(m) => broadcast_model(s, m),
    }
}

/// Every element that a filter keeps comes from the filtered sequence.
pub proof fn lemma_filter_subset<A>(s: Seq<A>, pred: spec_fn(A) -> bool, x: A)
    requires
        s.filter(pred).contains(x),
    ensures
        s.contains(x),
    decreases s.len(),
{
    reveal(Seq::filter);
    if s.len() > 0 {
        let front = s.drop_last();
        if x == s.last() {
            assert(s[s.len() - 1] == x);
        } else {
            let i = choose|i: int| 0 <= i < s.filter(pred).len() && s.filter(pred)[i] == x;
            assert(front.filter(pred)[i] == x);
            lemma_filter_subset(front, pred, x);
            let j = choose|j: int| 0 <= j < front.len() && front[j] == x;
            assert(s[j] == x);
        }
    }
}

/// One more node at the end of a gossip round: the round so far has not touched what that
/// node misses, and the node is either sent its missing messages or passed over.
pub proof fn lemma_gossip_one_more(
    s: StateView,
    nodes: Seq<Seq<char>>,
    skip: Option<Seq<char>>,
    node: Seq<char>,
)
    requires
        !nodes.contains(node),
        s.message_track_id + nodes.len() + 1 <= usize::MAX,
    ensures
        ({
            let (s1, out1) = gossip_over(s, nodes, skip);
            let (s2, out2) = gossip_over(s, nodes.push(node), skip);
            &&& s1.unknown_to(node) == s.unknown_to(node)
            &&& s1.message_track_id == s.message_track_id + gossip_targets(s, nodes, skip).len()
            &&& gossip_targets(s, nodes, skip).len() <= nodes.len()
            &&& if is_gossip_target(s, skip, node) {
                &&& s2 == (StateView {
                    message_track_id: (s1.message_track_id + 1) as usize,
                    ..s1.record_known(node, s.unknown_to(node))
                })
                &&& out2 == out1.push(
                    message_view(
                        s.node_id,
                        node,
                        Some(s1.message_track_id),
                        BroadcastPayloadView::Gossip { messages: s.unknown_to(node) },
                        None,
                    ),
                )
            } else {
                s2 == s1 && out2 == out1
            }
        }),
{
    let pred = |n: Seq<char>| is_gossip_target(s, skip, n);
    let t1 = gossip_targets(s, nodes, skip);
    let t2 = gossip_targets(s, nodes.push(node), skip);
    let (s1, out1) = gossip_over(s, nodes, skip);
    let (s2, out2) = gossip_over(s, nodes.push(node), skip);
    reveal(Seq::filter);
    assert(nodes.push(node).drop_last() =~= nodes);
    broadcast use vstd::seq_lib::group_filter_ensures;
    assert(t1.len() <= nodes.len());
    if t1.contains(node) {
        lemma_filter_subset(nodes, pred, node);
    }
    assert(!t1.contains(node));
    assert(s1.known_of(node) == s.known_of(node));
    assert(s1.unknown_to(node) =~= s.unknown_to(node));
    if is_gossip_target(s, skip, node) {
        assert(t2 == t1.push(node));
        let expected = StateView {
            message_track_id: (s1.message_track_id + 1) as usize,
            ..s1.record_known(node, s.unknown_to(node))
        };
        assert forall|k: Seq<char>| t2.contains(k) <==> (t1.contains(k) || k == node) by {
            broadcast use vstd::seq_lib::group_seq_properties;
        }
        if node != s.node_id {
            assert(s.known_of(node).union(s.unknown_to(node)) =~= s.known_of(node).union(s.messages));
        }
        assert(s2.known =~= expected.known);
        assert(out2 =~= out1.push(
            message_view(
                s.node_id,
                node,
                Some(s1.message_track_id),
                BroadcastPayloadView::Gossip { messages: s.unknown_to(node) },
                None,
            ),
        ));
    } else {
        assert(t2 == t1);
    }
}

/// Sends every neighbor other than `skip` the messages it misses, one gossip message each, and
/// records it as having them; returns the messages to send.
pub fn send_gossip_to_neighbors(state: &mut State, skip: Option<&String>) -> (r: Vec<
    Message<BroadcastPayload>,
>)
    requires
        old(state).message_track_id + old(state)@.neighborhood.len() <= usize::MAX,
    ensures
        (final(state)@, messages_view(r@)) == gossip_model(old(state)@, opt_id_view(skip)),
{
    let ghost start = state@;
    let ghost skip_view = opt_id_view(skip);
    let neighbors = state.neighborhood.duplicate();
    neighbors.check_no_duplicates();
    let mut out: Vec<Message<BroadcastPayload>> = Vec::new();
    let mut i: usize = 0;
    proof {
        assert(neighbors@.take(0) =~= Seq::<Seq<char>>::empty());
        reveal(Seq::filter);
        assert(gossip_targets(start, Seq::<Seq<char>>::empty(), skip_view) =~= Seq::<Seq<char>>::empty());
        assert(learned(start, Seq::<Seq<char>>::empty()) =~= start.known);
        assert(messages_view(out@) =~= Seq::<MessageView<BroadcastPayloadView>>::empty());
        assert(gossip_messages(start, Seq::<Seq<char>>::empty()) =~= Seq::<MessageView<BroadcastPayloadView>>::empty());
    }
    while i < neighbors.len()
        invariant
            neighbors@ == start.neighborhood,
            neighbors@.no_duplicates(),
            i <= neighbors@.len(),
            skip_view == opt_id_view(skip),
            start.message_track_id + start.neighborhood.len() <= usize::MAX,
            (state@, messages_view(out@)) == gossip_over(start, neighbors@.take(i as int), skip_view),
        decreases neighbors@.len() - i,
    {
        let neighbor = neighbors.get(i);
        let ghost prefix = neighbors@.take(i as int);
        let ghost node = neighbors@[i as int];
        proof {
            assert(neighbors@.take(i as int + 1) =~= prefix.push(node));
            if prefix.contains(node) {
                let j = choose|j: int| 0 <= j < prefix.len() && prefix[j] == node;
                assert(neighbors@[j] == node);
            }
            lemma_gossip_one_more(start, prefix, skip_view, node);
        }
        let skipped = match skip {
            Some(skip_node) => *skip_node == *neighbor,
            None => false,
        };
        if !skipped {
            let messages = state.messages_unknown_to(neighbor);
            if !messages.is_empty() {
                let message_id = state.get_and_increment();
                let gossip = Message::new(
                    state.node_id.clone(),
                    neighbor.clone(),
                    Body::new(
                        Some(message_id),
                        BroadcastPayload::Gossip { messages: copy_set(&messages) },
                        None,
                    ),
                );
                let ghost before = out@;
                out.push(gossip);
                assert(messages_view(out@) =~= messages_view(before).push(gossip@));
                state.mark_known(neighbor, &messages);
            }
        }
        i = i + 1;
    }
    assert(neighbors@.take(neighbors@.len() as int) =~= neighbors@);
    out
}

/// Stores the values of a gossip message and records `source` as having them; returns whether
/// any value was new.
pub fn apply_gossip(state: &mut State, source: &String, messages: &HashSet<u32>) -> (r: bool)
    ensures
        r == !messages@.subset_of(old(state)@.messages),
        final(state)@ == (StateView {
            messages: old(state)@.messages.union(messages@),
            ..old(state)@
        }).record_known(source@, messages@),
{
    let fresh = !state.has_all(messages);
    state.add_messages(messages);
    state.mark_known(source, messages);
    fresh
}

impl Message<BroadcastPayload> {
    /// Handles a message at a broadcast node; returns the messages to send.
    pub fn step(&self, state: &mut State) -> (r: Vec<Message<BroadcastPayload>>)
        requires
            old(state).message_track_id + broadcast_ids_needed(old(state)@, self@) <= usize::MAX,
        ensures
            (final(state)@, messages_view(r@)) == broadcast_model(old(state)@, self@),
    {
        let ghost start = state@;
        match &self.body.payload {
            BroadcastPayload::Broadcast { message } => {
                state.add_message(*message);
                let reply = Message::reply(state, self, BroadcastPayload::BroadcastOk);
                let gossip = send_gossip_to_neighbors(state, None);
                let mut out = Vec::new();
                out.push(reply);
                let ghost first = out@;
                let mut gossip = gossip;
                out.append(&mut gossip);
                assert(messages_view(out@) =~= seq![reply@] + gossip_model(
                    StateView {
                        messages: start.messages.insert(*message),
                        message_track_id: (start.message_track_id + 1) as usize,
                        ..start
                    },
                    None,
                ).1);
                out
            },
            BroadcastPayload::Read => {
                let messages = copy_set(&state.messages);
                let reply = Message::reply(state, self, BroadcastPayload::ReadOk { messages });
                let mut out = Vec::new();
                out.push(reply);
                assert(messages_view(out@) =~= seq![reply@]);
                out
            },
            BroadcastPayload::Topology { topology } => {
                state.update_topology(topology);
                let reply = Message::reply(state, self, BroadcastPayload::TopologyOk);
                let mut out = Vec::new();
                out.push(reply);
                assert(messages_view(out@) =~= seq![reply@]);
                out
            },
            BroadcastPayload::Gossip { messages } => {
                if apply_gossip(state, &self.source, messages) {
                    send_gossip_to_neighbors(state, Some(&self.source))
                } else {
                    let out = Vec::new();
                    assert(messages_view(out@) =~= Seq::<MessageView<BroadcastPayloadView>>::empty());
                    out
                }
            },
            BroadcastPayload::BroadcastOk
            | BroadcastPayload::ReadOk { .. }
            | BroadcastPayload::TopologyOk => {
                let out = Vec::new();
                assert(messages_view(out@) =~= Seq::<MessageView<BroadcastPayloadView>>::empty());
                out
            },
        }
    }
}

/// Whether the message identifiers that handling `event` may take fit in a `usize`.
pub fn broadcast_ids_fit(state: &State, event: &Event<BroadcastPayload>) -> (r: bool)
    ensures
        r == (state.message_track_id + broadcast_event_ids_needed(state@, event@) <= usize::MAX),
{
    let neighbors = state.neighborhood.len();
    let needed: usize = match event {
        Event::EndOfFile => 0,
        Event::GeneratedMessage => neighbors,
        Event::ReceivedMessage(message) => match &message.body.payload {
            BroadcastPayload::Broadcast { .. } => {
                if neighbors == usize::MAX {
                    return false;
                }
                neighbors + 1
            },
            BroadcastPayload::Read => 1,
            BroadcastPayload::Topology { .. } => 1,
            BroadcastPayload::Gossip { .. } => neighbors,
            _ => 0,
        },
    };
    state.message_track_id <= usize::MAX - needed
}

impl Event<BroadcastPayload> {
    /// Handles an event at a broadcast node; returns the messages to send.
    pub fn step(&self, state: &mut State) -> (r: Vec<Message<BroadcastPayload>>)
        requires
            old(state).message_track_id + broadcast_event_ids_needed(old(state)@, self@) <= usize::MAX,
        ensures
            (final(state)@, messages_view(r@)) == broadcast_event_model(old(state)@, self@),
    {
        match self {
            Event::EndOfFile => {
                let out = Vec::new();
                assert(messages_view(out@) =~= Seq::<MessageView<BroadcastPayloadView>>::empty());
                out
            },
            Event::GeneratedMessage => send_gossip_to_neighbors(state, None),
            Event::ReceivedMessage(received_message) => received_message.step(state),
        }
    }
}

} // verus!

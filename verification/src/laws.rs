use crate::broadcast::{
    broadcast_event_ids_needed, broadcast_event_model, broadcast_model, gossip_model, gossip_targets, is_gossip_target,
    lemma_filter_subset, BroadcastPayloadView,
};
use crate::counter::{
    client_view, counter_event_ids_fit, counter_event_model, counter_model, counter_key_view, read_completion_model, seq_kv_node,
    CounterPayloadView, CounterStateView, PendingReadView, PendingRpcView,
};
use crate::echo::{echo_model, EchoPayloadView};
use crate::message::message_view;
use crate::message::{EventView, MessageView};
use crate::init::{init_model, InitPayloadView};
use crate::state::{lemma_without_contains, StateView};
use vstd::prelude::*;

verus! {

/// A recomputed neighborhood never holds the node itself, holds only candidates, and every
/// neighbor has an entry in `known`.
pub proof fn law_neighborhood_excludes_self(s: StateView)
    ensures
        !s.refresh_neighborhood().neighborhood.contains(s.node_id),
        forall|n: Seq<char>| #[trigger]
            s.refresh_neighborhood().neighborhood.contains(n) ==> s.candidate_neighbors().contains(n)
                && s.refresh_neighborhood().known.contains_key(n),
{
    let nb = s.refresh_neighborhood().neighborhood;
    lemma_without_contains(s.candidate_neighbors(), s.node_id, s.node_id);
    assert forall|n: Seq<char>| #[trigger] nb.contains(n) implies s.candidate_neighbors().contains(n)
        && s.refresh_neighborhood().known.contains_key(n) by {
        lemma_without_contains(s.candidate_neighbors(), s.node_id, n);
        assert(nb.to_set().contains(n));
    }
}

/// After recording that `node` has `messages`, the messages that `node` misses are those it
/// missed before, less `messages`; for the node itself nothing changes.
pub proof fn law_record_known_removes_from_unknown(s: StateView, node: Seq<char>, messages: Set<u32>)
    ensures
        node != s.node_id ==> s.record_known(node, messages).unknown_to(node) == s.unknown_to(
            node,
        ).difference(messages),
        node == s.node_id ==> s.record_known(node, messages) == s,
        forall|other: Seq<char>| other != node ==> #[trigger] s.record_known(node, messages).unknown_to(other) == s.unknown_to(other),
{
    if node != s.node_id {
        assert(s.record_known(node, messages).unknown_to(node) =~= s.unknown_to(node).difference(messages));
    }
    assert forall|other: Seq<char>| other != node implies #[trigger] s.record_known(node, messages).unknown_to(other) == s.unknown_to(other) by {
        assert(s.record_known(node, messages).known_of(other) == s.known_of(other));
    }
}

/// After a gossip round, no neighbor other than the skipped node and this node itself misses
/// any message: each was sent all it missed and recorded as having it.
pub proof fn law_gossip_leaves_no_neighbor_behind(s: StateView, skip: Option<Seq<char>>)
    requires
        s.message_track_id + s.neighborhood.len() <= usize::MAX,
    ensures
        forall|n: Seq<char>|
            #![trigger gossip_model(s, skip).0.unknown_to(n)]
            s.neighborhood.contains(n) && skip != Some(n) && n != s.node_id
                ==> gossip_model(s, skip).0.unknown_to(n).is_empty(),
{
    let s1 = gossip_model(s, skip).0;
    let targets = gossip_targets(s, s.neighborhood, skip);
    assert forall|n: Seq<char>|
        s.neighborhood.contains(n) && skip != Some(n) && n != s.node_id implies #[trigger] s1.unknown_to(n).is_empty() by {
        if is_gossip_target(s, skip, n) {
            let i = choose|i: int| 0 <= i < s.neighborhood.len() && s.neighborhood[i] == n;
            broadcast use vstd::seq_lib::group_filter_ensures;
            assert(targets.contains(n));
            assert(s1.known_of(n) == s.known_of(n).union(s.messages));
            assert(s1.unknown_to(n) =~= Set::<u32>::empty());
        } else {
            if s.known.contains_key(n) {
                assert(s1.known_of(n) == s.known_of(n)) by {
                    if targets.contains(n) {
                        lemma_filter_subset(s.neighborhood, |m: Seq<char>| is_gossip_target(s, skip, m), n);
                        broadcast use vstd::seq_lib::group_filter_ensures;
                        let j = choose|j: int| 0 <= j < targets.len() && targets[j] == n;
                        assert(is_gossip_target(s, skip, targets[j]));
                    }
                }
            } else {
                if targets.contains(n) {
                    broadcast use vstd::seq_lib::group_filter_ensures;
                    let j = choose|j: int| 0 <= j < targets.len() && targets[j] == n;
                    assert(is_gossip_target(s, skip, targets[j]));
                }
            }
            assert(s1.unknown_to(n) =~= s.unknown_to(n));
            assert(s.unknown_to(n).is_empty());
        }
    }
}

/// A gossip round keeps every recorded knowledge and only adds to it.
pub proof fn law_gossip_knowledge_grows(s: StateView, skip: Option<Seq<char>>)
    ensures
        forall|n: Seq<char>| #[trigger] s.known_of(n).subset_of(gossip_model(s, skip).0.known_of(n)),
        gossip_model(s, skip).0.messages == s.messages,
        gossip_model(s, skip).0.neighborhood == s.neighborhood,
{
}

/// Every step of a broadcast node keeps every message it has received.
pub proof fn law_broadcast_messages_grow(s: StateView, e: EventView<BroadcastPayloadView>)
    ensures
        s.messages.subset_of(broadcast_event_model(s, e).0.messages),
        e matches EventView::ReceivedMessage(m) ==> (m.body.payload matches BroadcastPayloadView::Broadcast { message }
            ==> broadcast_event_model(s, e).0.messages.contains(message)),
        e matches EventView::ReceivedMessage(m) ==> (m.body.payload matches BroadcastPayloadView::Gossip { messages }
            ==> messages.subset_of(broadcast_event_model(s, e).0.messages)),
{
}

/// Every step of a broadcast node keeps what it has recorded of other nodes' knowledge.
pub proof fn law_broadcast_knowledge_grows(s: StateView, e: EventView<BroadcastPayloadView>)
    ensures
        forall|n: Seq<char>| #[trigger] s.known_of(n).subset_of(broadcast_event_model(s, e).0.known_of(n)),
{
    assert forall|n: Seq<char>| #[trigger] s.known_of(n).subset_of(broadcast_event_model(s, e).0.known_of(n)) by {
        match e {
            EventView::ReceivedMessage(m) => match m.body.payload {
                BroadcastPayloadView::Topology { topology } => {
                    let s1 = StateView { topology: s.topology.union_prefer_right(topology), ..s };
                    assert(s1.refresh_neighborhood().known_of(n) == s.known_of(n));
                },
                BroadcastPayloadView::Gossip { messages } => {
                    let s1 = (StateView { messages: s.messages.union(messages), ..s }).record_known(
                        m.source,
                        messages,
                    );
                    assert(s.known_of(n).subset_of(s1.known_of(n)));
                },
                _ => {},
            },
            _ => {},
        }
    }
}

/// Delivering the same gossip message twice sends nothing the second time.
pub proof fn law_repeated_gossip_is_quiet(s: StateView, m: MessageView<BroadcastPayloadView>)
    requires
        m.body.payload is Gossip,
    ensures
        broadcast_model(broadcast_model(s, m).0, m).1 == Seq::<MessageView<BroadcastPayloadView>>::empty(),
{
    law_broadcast_messages_grow(s, EventView::ReceivedMessage(m));
}

/// The messages that a broadcast node sends in one step carry consecutive identifiers from
/// its counter, and the counter moves past them.
pub proof fn law_broadcast_ids_are_fresh(s: StateView, e: EventView<BroadcastPayloadView>)
    requires
        s.message_track_id + broadcast_event_ids_needed(s, e) <= usize::MAX,
    ensures
        ({
            let (s1, out) = broadcast_event_model(s, e);
            &&& s1.message_track_id == s.message_track_id + out.len()
            &&& forall|i: int| 0 <= i < out.len() ==> #[trigger] out[i].body.message_id == Some(
                (s.message_track_id + i) as usize,
            )
        }),
{
    broadcast use vstd::seq_lib::group_filter_ensures;
    let (s1, out) = broadcast_event_model(s, e);
    match e {
        EventView::ReceivedMessage(m) => match m.body.payload {
            BroadcastPayloadView::Broadcast { message } => {
                let s2 = StateView {
                    messages: s.messages.insert(message),
                    message_track_id: (s.message_track_id + 1) as usize,
                    ..s
                };
                let g = gossip_model(s2, None).1;
                assert(gossip_targets(s2, s2.neighborhood, None).len() <= s2.neighborhood.len());
                assert forall|i: int| 0 <= i < out.len() implies #[trigger] out[i].body.message_id == Some(
                    (s.message_track_id + i) as usize,
                ) by {
                    if i > 0 {
                        assert(out[i] == g[i - 1]);
                    }
                }
            },
            BroadcastPayloadView::Gossip { messages } => {
                let s2 = (StateView { messages: s.messages.union(messages), ..s }).record_known(
                    m.source,
                    messages,
                );
                assert(gossip_targets(s2, s2.neighborhood, Some(m.source)).len() <= s2.neighborhood.len());
            },
            _ => {},
        },
        EventView::GeneratedMessage => {
            assert(gossip_targets(s, s.neighborhood, None).len() <= s.neighborhood.len());
        },
        EventView::EndOfFile => {},
    }
}

/// Every step of a counter node keeps its state well formed: a pending read still waits for
/// some share, and every pending identifier was issued by the node.
pub proof fn law_counter_keeps_wf(cs: CounterStateView, e: EventView<CounterPayloadView>)
    requires
        cs.wf(),
        counter_event_ids_fit(cs, e),
    ensures
        counter_event_model(cs, e).0.wf(),
{
    let cs1 = counter_event_model(cs, e).0;
    assert forall|id: usize| #[trigger] cs1.pending_reads.contains_key(id) implies cs1.pending_reads[id].remaining >= 1
        && id < cs1.inner.message_track_id by {
        if cs.pending_reads.contains_key(id) {
            assert(cs.pending_reads[id].remaining >= 1);
        }
    }
    assert forall|id: usize| #[trigger] cs1.pending_rpcs.contains_key(id) implies id < cs1.inner.message_track_id by {
        if cs.pending_rpcs.contains_key(id) {
            assert(id < cs.inner.message_track_id);
        }
    }
}

/// A counter node only ever writes its own share: every compare-and-swap it sends goes to the
/// key/value service and names this node's key.
pub proof fn law_counter_writes_only_own_share(cs: CounterStateView, e: EventView<CounterPayloadView>)
    ensures
        forall|i: int|
            0 <= i < counter_event_model(cs, e).1.len() && (#[trigger] counter_event_model(cs, e).1[i]).body.payload is Cas
                ==> counter_event_model(cs, e).1[i].destination == seq_kv_node()
                && counter_event_model(cs, e).1[i].body.payload->Cas_key == counter_key_view(cs.inner.node_id),
{
}

/// The messages that a counter node sends in one step carry increasing identifiers from its
/// counter, all below the counter's new value.
pub proof fn law_counter_ids_are_fresh(cs: CounterStateView, e: EventView<CounterPayloadView>)
    requires
        counter_event_ids_fit(cs, e),
    ensures
        ({
            let (cs1, out) = counter_event_model(cs, e);
            &&& cs.inner.message_track_id <= cs1.inner.message_track_id
            &&& forall|i: int| 0 <= i < out.len() ==> (#[trigger] out[i]).body.message_id is Some
                && cs.inner.message_track_id <= out[i].body.message_id->0 < cs1.inner.message_track_id
            &&& forall|i: int, j: int| 0 <= i < j < out.len() ==> (#[trigger] out[i]).body.message_id->0
                < (#[trigger] out[j]).body.message_id->0
        }),
{
}

/// The sum of a sequence of counter values.
pub open spec fn sum_values(values: Seq<u64>) -> int
    decreases values.len(),
{
    if values.len() == 0 {
        0
    } else {
        sum_values(values.drop_last()) + values.last()
    }
}

/// The shares `values` arriving one after another for the read numbered `aggregate_id`: the
/// state afterwards and the messages sent.
pub open spec fn receive_shares(cs: CounterStateView, aggregate_id: usize, values: Seq<u64>) -> (
    CounterStateView,
    Seq<MessageView<CounterPayloadView>>,
)
    decreases values.len(),
{
    if values.len() == 0 {
        (cs, Seq::empty())
    } else {
        let (cs1, out1) = receive_shares(cs, aggregate_id, values.drop_last());
        let (cs2, out2) = read_completion_model(cs1, aggregate_id, values.last());
        (cs2, out1 + out2)
    }
}

proof fn lemma_shares_pending(cs: CounterStateView, aggregate_id: usize, values: Seq<u64>)
    requires
        cs.pending_reads.contains_key(aggregate_id),
        cs.pending_reads[aggregate_id].remaining > values.len(),
        cs.pending_reads[aggregate_id].total + sum_values(values) <= u64::MAX,
    ensures
        ({
            let p = cs.pending_reads[aggregate_id];
            let (cs1, out) = receive_shares(cs, aggregate_id, values);
            &&& out == Seq::<MessageView<CounterPayloadView>>::empty()
            &&& cs1 == CounterStateView {
                pending_reads: cs.pending_reads.insert(
                    aggregate_id,
                    PendingReadView {
                        client: p.client,
                        remaining: (p.remaining - values.len()) as usize,
                        total: (p.total + sum_values(values)) as u64,
                    },
                ),
                ..cs
            }
        }),
    decreases values.len(),
{
    if values.len() > 0 {
        assert(sum_values(values.drop_last()) >= 0) by {
            lemma_sum_values_nonnegative(values.drop_last());
        }
        lemma_shares_pending(cs, aggregate_id, values.drop_last());
        let (cs1, out1) = receive_shares(cs, aggregate_id, values.drop_last());
        assert(out1 + Seq::<MessageView<CounterPayloadView>>::empty() =~= Seq::<MessageView<CounterPayloadView>>::empty());
        assert(receive_shares(cs, aggregate_id, values).0.pending_reads =~= cs.pending_reads.insert(
            aggregate_id,
            PendingReadView {
                client: cs.pending_reads[aggregate_id].client,
                remaining: (cs.pending_reads[aggregate_id].remaining - values.len()) as usize,
                total: (cs.pending_reads[aggregate_id].total + sum_values(values)) as u64,
            },
        ));
    } else {
        assert(cs.pending_reads.insert(aggregate_id, cs.pending_reads[aggregate_id]) =~= cs.pending_reads);
    }
}

proof fn lemma_sum_values_nonnegative(values: Seq<u64>)
    ensures
        sum_values(values) >= 0,
    decreases values.len(),
{
    if values.len() > 0 {
        lemma_sum_values_nonnegative(values.drop_last());
    }
}

/// A counter `read` answers with the sum of the shares: when as many shares arrive as the read
/// waits for, the client gets exactly one `read_ok` whose value is the running total plus their
/// sum, and the read is no longer pending.
pub proof fn law_read_sums_shares(cs: CounterStateView, aggregate_id: usize, values: Seq<u64>)
    requires
        cs.pending_reads.contains_key(aggregate_id),
        cs.pending_reads[aggregate_id].remaining == values.len(),
        values.len() >= 1,
        cs.pending_reads[aggregate_id].total + sum_values(values) <= u64::MAX,
        cs.inner.message_track_id < usize::MAX,
    ensures
        ({
            let p = cs.pending_reads[aggregate_id];
            let (cs1, out) = receive_shares(cs, aggregate_id, values);
            &&& out == seq![
                message_view(
                    p.client.destination,
                    p.client.source,
                    Some(cs.inner.message_track_id),
                    CounterPayloadView::ReadOk { value: (p.total + sum_values(values)) as u64 },
                    p.client.request_message_id,
                ),
            ]
            &&& cs1.pending_reads == cs.pending_reads.remove(aggregate_id)
            &&& cs1.pending_rpcs == cs.pending_rpcs
            &&& cs1.inner.message_track_id == cs.inner.message_track_id + 1
        }),
{
    let front = values.drop_last();
    lemma_sum_values_nonnegative(front);
    lemma_shares_pending(cs, aggregate_id, front);
    let (cs1, out1) = receive_shares(cs, aggregate_id, front);
    assert(cs1.pending_reads.insert(aggregate_id, cs1.pending_reads[aggregate_id]).remove(aggregate_id) =~= cs.pending_reads.remove(aggregate_id));
    assert(cs1.pending_reads.remove(aggregate_id) =~= cs.pending_reads.remove(aggregate_id));
    let (cs2, out2) = read_completion_model(cs1, aggregate_id, values.last());
    assert(out1 + out2 =~= out2);
}

/// An `add` of `delta` whose read of this node's share returns `value` and whose swap then
/// succeeds is acknowledged to its client with `add_ok`, after a swap from `value` to
/// `value + delta` of this node's key, and leaves nothing pending.
pub proof fn law_add_round_trip(
    cs: CounterStateView,
    add: MessageView<CounterPayloadView>,
    read_reply: MessageView<CounterPayloadView>,
    cas_reply: MessageView<CounterPayloadView>,
    delta: u64,
    value: u64,
)
    requires
        cs.wf(),
        cs.inner.message_track_id + 3 <= usize::MAX,
        value + delta <= u64::MAX,
        add.body.payload == (CounterPayloadView::Add { delta }),
        read_reply.source == seq_kv_node(),
        read_reply.body.payload == (CounterPayloadView::ReadOk { value }),
        read_reply.body.in_reply_to == Some(cs.inner.message_track_id),
        cas_reply.body.payload == CounterPayloadView::CasOk,
        cas_reply.body.in_reply_to == Some((cs.inner.message_track_id + 1) as usize),
    ensures
        ({
            let id = cs.inner.message_track_id;
            let (cs1, out1) = counter_model(cs, add);
            let (cs2, out2) = counter_model(cs1, read_reply);
            let (cs3, out3) = counter_model(cs2, cas_reply);
            &&& out1 == seq![
                message_view(
                    cs.inner.node_id,
                    seq_kv_node(),
                    Some(id),
                    CounterPayloadView::Read { key: Some(counter_key_view(cs.inner.node_id)) },
                    None,
                ),
            ]
            &&& out2 == seq![
                message_view(
                    cs.inner.node_id,
                    seq_kv_node(),
                    Some((id + 1) as usize),
                    CounterPayloadView::Cas {
                        key: counter_key_view(cs.inner.node_id),
                        from: value,
                        to: (value + delta) as u64,
                        create_if_not_exists: false,
                    },
                    None,
                ),
            ]
            &&& out3 == seq![
                message_view(
                    add.destination,
                    add.source,
                    Some((id + 2) as usize),
                    CounterPayloadView::AddOk,
                    add.body.message_id,
                ),
            ]
            &&& cs3.pending_rpcs == cs.pending_rpcs
            &&& cs3.pending_reads == cs.pending_reads
            &&& cs3.inner.message_track_id == id + 3
        }),
{
    let id = cs.inner.message_track_id;
    let (cs1, out1) = counter_model(cs, add);
    let (cs2, out2) = counter_model(cs1, read_reply);
    let (cs3, out3) = counter_model(cs2, cas_reply);
    assert(!cs.pending_rpcs.contains_key(id));
    assert(!cs.pending_rpcs.contains_key((id + 1) as usize));
    assert(cs1.pending_rpcs.remove(id) =~= cs.pending_rpcs);
    assert(cs3.pending_rpcs =~= cs.pending_rpcs);
}

/// After an accepted init, the node has its identity, does not count itself among its
/// neighbors, and has an entry in `known` for every other declared node.
pub proof fn law_init_knows_every_peer(s: StateView, m: MessageView<InitPayloadView>)
    requires
        m.body.payload is Init,
    ensures
        ({
            let node_id = m.body.payload->Init_node_id;
            let node_ids = m.body.payload->Init_node_ids;
            let s1 = init_model(s, m)->Ok_0.0;
            &&& init_model(s, m) is Ok
            &&& s1.node_id == node_id
            &&& s1.declared_nodes == node_ids
            &&& !s1.neighborhood.contains(node_id)
            &&& forall|n: Seq<char>| #[trigger] node_ids.contains(n) && n != node_id ==> s1.known.contains_key(n)
        }),
{
    let node_id = m.body.payload->Init_node_id;
    let node_ids = m.body.payload->Init_node_ids;
    let s0 = StateView { node_id, declared_nodes: node_ids, ..s };
    law_neighborhood_excludes_self(s0);
    assert forall|n: Seq<char>| #[trigger] node_ids.contains(n) && n != node_id implies init_model(s, m)->Ok_0.0.known.contains_key(n) by {
        assert(node_ids.to_set().remove(node_id).contains(n));
    }
}

/// A broadcast value is fanned out at once: every neighbor other than this node that is not
/// known to have it gets, in the same step, a gossip message that carries it.
pub proof fn law_broadcast_fans_out(s: StateView, m: MessageView<BroadcastPayloadView>, n: Seq<char>)
    requires
        m.body.payload is Broadcast,
        s.neighborhood.contains(n),
        n != s.node_id,
        !s.known_of(n).contains(m.body.payload->Broadcast_message),
    ensures
        exists|i: int|
            #![trigger broadcast_model(s, m).1[i]]
            {
                &&& 0 <= i < broadcast_model(s, m).1.len()
                &&& broadcast_model(s, m).1[i].destination == n
                &&& broadcast_model(s, m).1[i].body.payload is Gossip
                &&& broadcast_model(s, m).1[i].body.payload->Gossip_messages.contains(
                    m.body.payload->Broadcast_message,
                )
            },
{
    let v = m.body.payload->Broadcast_message;
    let s1 = StateView {
        messages: s.messages.insert(v),
        message_track_id: (s.message_track_id + 1) as usize,
        ..s
    };
    let targets = gossip_targets(s1, s1.neighborhood, None);
    let out = broadcast_model(s, m).1;
    assert(s1.unknown_to(n).contains(v));
    assert(is_gossip_target(s1, None, n));
    let k = choose|k: int| 0 <= k < s.neighborhood.len() && s.neighborhood[k] == n;
    broadcast use vstd::seq_lib::group_filter_ensures;
    assert(targets.contains(s1.neighborhood[k]));
    let j = choose|j: int| 0 <= j < targets.len() && targets[j] == n;
    assert(out[j + 1] == gossip_model(s1, None).1[j]);
    assert(out[j + 1].destination == n);
}

/// A gossip message that brings a new value is passed on at once: every neighbor other than
/// its sender and this node that is not known to have a value it brings gets, in the same
/// step, a gossip message that carries that value.
pub proof fn law_new_gossip_is_forwarded(
    s: StateView,
    m: MessageView<BroadcastPayloadView>,
    v: u32,
    n: Seq<char>,
)
    requires
        m.body.payload is Gossip,
        m.body.payload->Gossip_messages.contains(v),
        !s.messages.contains(v),
        s.neighborhood.contains(n),
        n != s.node_id,
        n != m.source,
        !s.known_of(n).contains(v),
    ensures
        exists|i: int|
            #![trigger broadcast_model(s, m).1[i]]
            {
                &&& 0 <= i < broadcast_model(s, m).1.len()
                &&& broadcast_model(s, m).1[i].destination == n
                &&& broadcast_model(s, m).1[i].body.payload is Gossip
                &&& broadcast_model(s, m).1[i].body.payload->Gossip_messages.contains(v)
            },
{
    let messages = m.body.payload->Gossip_messages;
    let s1 = (StateView { messages: s.messages.union(messages), ..s }).record_known(m.source, messages);
    let targets = gossip_targets(s1, s1.neighborhood, Some(m.source));
    let out = broadcast_model(s, m).1;
    assert(!messages.subset_of(s.messages));
    assert(s1.known_of(n) == s.known_of(n));
    assert(s1.unknown_to(n).contains(v));
    assert(is_gossip_target(s1, Some(m.source), n));
    let k = choose|k: int| 0 <= k < s.neighborhood.len() && s.neighborhood[k] == n;
    broadcast use vstd::seq_lib::group_filter_ensures;
    assert(targets.contains(s1.neighborhood[k]));
    let j = choose|j: int| 0 <= j < targets.len() && targets[j] == n;
    assert(out[j] == gossip_model(s1, Some(m.source)).1[j]);
}

/// A `read` with no key reads every declared node's share, once each and in order: when there
/// are declared nodes, the j-th message sent asks the key/value service for the key
/// `g-counter::` followed by the j-th declared node, the read waits for exactly that many
/// shares starting from 0, and each request is remembered as a share of this read.
pub proof fn law_read_asks_every_declared_share(cs: CounterStateView, m: MessageView<CounterPayloadView>)
    requires
        m.body.payload == (CounterPayloadView::Read { key: None }),
        cs.inner.declared_nodes.len() > 0,
        cs.inner.message_track_id + cs.inner.declared_nodes.len() + 1 <= usize::MAX,
    ensures
        ({
            let nodes = cs.inner.declared_nodes;
            let id = cs.inner.message_track_id;
            let (cs1, out) = counter_model(cs, m);
            &&& out.len() == nodes.len()
            &&& forall|j: int| 0 <= j < nodes.len() ==> {
                &&& (#[trigger] out[j]).destination == "seq-kv"@
                &&& out[j].source == cs.inner.node_id
                &&& out[j].body.payload == CounterPayloadView::Read { key: Some("g-counter::"@ + nodes[j]) }
                &&& out[j].body.message_id == Some((id + 1 + j) as usize)
                &&& cs1.pending_rpcs[(id + 1 + j) as usize] == (PendingRpcView::ReadShard { aggregate_id: id })
                &&& cs1.pending_rpcs.contains_key((id + 1 + j) as usize)
            }
            &&& cs1.pending_reads.contains_key(id)
            &&& cs1.pending_reads[id].remaining == nodes.len()
            &&& cs1.pending_reads[id].total == 0
            &&& cs1.pending_reads[id].client == client_view(m)
        }),
{
    let nodes = cs.inner.declared_nodes;
    let id = cs.inner.message_track_id;
    let (cs1, out) = counter_model(cs, m);
    assert forall|j: int| 0 <= j < nodes.len() implies {
        &&& (#[trigger] out[j]).destination == "seq-kv"@
        &&& out[j].source == cs.inner.node_id
        &&& out[j].body.payload == CounterPayloadView::Read { key: Some("g-counter::"@ + nodes[j]) }
        &&& out[j].body.message_id == Some((id + 1 + j) as usize)
        &&& cs1.pending_rpcs[(id + 1 + j) as usize] == (PendingRpcView::ReadShard { aggregate_id: id })
        &&& cs1.pending_rpcs.contains_key((id + 1 + j) as usize)
    } by {
        assert(id < (id + 1 + j) as usize <= id + nodes.len());
    }
}

/// An `add` keeps its own delta across a failed swap: after its read returns `first`, its swap
/// is refused as stale (precondition failed), and its fresh read returns `second`, the next swap
/// goes from `second` to `second + delta` on this node's key, with creation not allowed.
pub proof fn law_add_retry_keeps_delta(
    cs: CounterStateView,
    read_reply: MessageView<CounterPayloadView>,
    stale_reply: MessageView<CounterPayloadView>,
    retry_reply: MessageView<CounterPayloadView>,
    read_id: usize,
    first: u64,
    second: u64,
    delta: u64,
    text: Seq<char>,
)
    requires
        cs.wf(),
        cs.inner.message_track_id + 3 <= usize::MAX,
        cs.pending_rpcs.contains_key(read_id),
        cs.pending_rpcs[read_id] is AddRead,
        cs.pending_rpcs[read_id]->AddRead_delta == delta,
        first + delta <= u64::MAX,
        second + delta <= u64::MAX,
        read_reply.source == "seq-kv"@,
        read_reply.body.payload == (CounterPayloadView::ReadOk { value: first }),
        read_reply.body.in_reply_to == Some(read_id),
        stale_reply.body.payload == (CounterPayloadView::Error { code: 22, text }),
        stale_reply.body.in_reply_to == Some(cs.inner.message_track_id),
        retry_reply.source == "seq-kv"@,
        retry_reply.body.payload == (CounterPayloadView::ReadOk { value: second }),
        retry_reply.body.in_reply_to == Some((cs.inner.message_track_id + 1) as usize),
    ensures
        ({
            let (cs1, out1) = counter_model(cs, read_reply);
            let (cs2, out2) = counter_model(cs1, stale_reply);
            let (cs3, out3) = counter_model(cs2, retry_reply);
            let key = "g-counter::"@ + cs.inner.node_id;
            &&& out1.len() == 1
            &&& out1[0].body.payload == (CounterPayloadView::Cas {
                key,
                from: first,
                to: (first + delta) as u64,
                create_if_not_exists: false,
            })
            &&& out2.len() == 1
            &&& out2[0].body.payload == (CounterPayloadView::Read { key: Some(key) })
            &&& out3.len() == 1
            &&& out3[0].destination == "seq-kv"@
            &&& out3[0].body.payload == (CounterPayloadView::Cas {
                key,
                from: second,
                to: (second + delta) as u64,
                create_if_not_exists: false,
            })
            &&& cs3.pending_rpcs[(cs.inner.message_track_id + 2) as usize] is AddCas
            &&& cs3.pending_rpcs[(cs.inner.message_track_id + 2) as usize]->AddCas_delta == delta
            &&& cs3.pending_rpcs[(cs.inner.message_track_id + 2) as usize]->AddCas_client
                == cs.pending_rpcs[read_id]->AddRead_client
        }),
{
    let id = cs.inner.message_track_id;
    assert(read_id < id);
    assert(!cs.pending_rpcs.contains_key(id));
    assert(!cs.pending_rpcs.contains_key((id + 1) as usize));
}

/// A broadcast `read` is answered by one `read_ok` to the client that carries exactly the
/// values the node holds, and it changes nothing but the message identifier counter; so a
/// second `read` gets the same values again.
pub proof fn law_read_returns_all_values(
    s: StateView,
    m: MessageView<BroadcastPayloadView>,
    again: MessageView<BroadcastPayloadView>,
)
    requires
        m.body.payload == BroadcastPayloadView::Read,
        again.body.payload == BroadcastPayloadView::Read,
        s.message_track_id + 2 <= usize::MAX,
    ensures
        ({
            let (s1, out) = broadcast_model(s, m);
            let (s2, out2) = broadcast_model(s1, again);
            &&& out.len() == 1
            &&& out[0].destination == m.source
            &&& out[0].body.in_reply_to == m.body.message_id
            &&& out[0].body.payload == (BroadcastPayloadView::ReadOk { messages: s.messages })
            &&& s1.messages == s.messages
            &&& s1.known == s.known
            &&& s1.neighborhood == s.neighborhood
            &&& s1.topology == s.topology
            &&& s1.node_id == s.node_id
            &&& s1.declared_nodes == s.declared_nodes
            &&& s1.message_track_id == s.message_track_id + 1
            &&& out2.len() == 1
            &&& out2[0].body.payload == (BroadcastPayloadView::ReadOk { messages: s.messages })
        }),
{
}

/// After the neighborhood is recomputed, a node is a neighbor exactly when it is a candidate
/// (in this node's topology entry when there is one, else among the declared nodes) and is not
/// this node itself.
pub proof fn law_neighbors_are_all_other_candidates(s: StateView, n: Seq<char>)
    ensures
        s.refresh_neighborhood().neighborhood.contains(n) <==> (n != s.node_id && (if s.topology.contains_key(
            s.node_id,
        ) {
            s.topology[s.node_id]
        } else {
            s.declared_nodes
        }).contains(n)),
        s.refresh_neighborhood().messages == s.messages,
        s.refresh_neighborhood().node_id == s.node_id,
{
    lemma_without_contains(s.candidate_neighbors(), s.node_id, n);
}

/// An `echo` is answered by one `echo_ok` back to its sender that carries exactly the text it
/// was sent, answering the echo's identifier.
pub proof fn law_echo_returns_same_text(s: StateView, m: MessageView<EchoPayloadView>, text: Seq<char>)
    requires
        m.body.payload == (EchoPayloadView::Echo { echo: text }),
    ensures
        ({
            let (s1, out) = echo_model(s, m);
            &&& out.len() == 1
            &&& out[0].body.payload == (EchoPayloadView::EchoOk { echo: text })
            &&& out[0].destination == m.source
            &&& out[0].source == m.destination
            &&& out[0].body.in_reply_to == m.body.message_id
            &&& s1.messages == s.messages
            &&& s1.known == s.known
        }),
{
}

} // verus!

use crate::node_map::NodeMap;
use crate::node_set::NodeSet;
use crate::sets::{copy_set, difference, extend_set, is_subset};
use std::collections::HashSet;
use vstd::prelude::*;

verus! {

broadcast use vstd::std_specs::hash::group_hash_axioms;

/// The state that every node keeps.
#[derive(Debug)]
pub struct State {
    /// ID of current node
    pub node_id: String,
    /// ID of all the nodes declared during init
    pub declared_nodes: NodeSet,
    /// Message ID tracker
    /// Using this id to update the message id
    pub message_track_id: usize,
    /// List of all the messages we have received.
    pub messages: HashSet<u32>,
    /// Topology provided by the maelstorm server
    pub topology: NodeMap<NodeSet>,
    /// Direct connected nodes
    pub neighborhood: NodeSet,
    /// messages known to node
    pub known: NodeMap<HashSet<u32>>,
}

/// The mathematical value of a node's state.
pub struct StateView {
    pub node_id: Seq<char>,
    pub declared_nodes: Seq<Seq<char>>,
    pub message_track_id: usize,
    pub messages: Set<u32>,
    pub topology: Map<Seq<char>, Seq<Seq<char>>>,
    pub neighborhood: Seq<Seq<char>>,
    pub known: Map<Seq<char>, Set<u32>>,
}

impl View for State {
    type V = StateView;

    open spec fn view(&self) -> StateView {
        StateView {
            node_id: self.node_id@,
            declared_nodes: self.declared_nodes@,
            message_track_id: self.message_track_id,
            messages: self.messages@,
            topology: self.topology@,
            neighborhood: self.neighborhood@,
            known: self.known@,
        }
    }
}

/// `known` with an empty entry added for every peer that has none.
pub open spec fn with_peers(known: Map<Seq<char>, Set<u32>>, peers: Set<Seq<char>>) -> Map<
    Seq<char>,
    Set<u32>,
> {
    Map::new(
        |k: Seq<char>| known.contains_key(k) || peers.contains(k),
        |k: Seq<char>|
            if known.contains_key(k) {
                known[k]
            } else {
                Set::empty()
            },
    )
}

/// `nodes` without `node`, in the same order.
pub open spec fn without(nodes: Seq<Seq<char>>, node: Seq<char>) -> Seq<Seq<char>> {
    nodes.filter(|n: Seq<char>| n != node)
}

impl StateView {
    /// The state of a node that knows nothing yet.
    pub open spec fn empty() -> StateView {
        StateView {
            node_id: Seq::empty(),
            declared_nodes: Seq::empty(),
            message_track_id: 0,
            messages: Set::empty(),
            topology: Map::empty(),
            neighborhood: Seq::empty(),
            known: Map::empty(),
        }
    }

    /// The messages that `node` is known to have.
    pub open spec fn known_of(self, node: Seq<char>) -> Set<u32> {
        if self.known.contains_key(node) {
            self.known[node]
        } else {
            Set::empty()
        }
    }

    /// The messages of this node that `node` is not known to have.
    pub open spec fn unknown_to(self, node: Seq<char>) -> Set<u32> {
        self.messages.difference(self.known_of(node))
    }

    /// The state after recording that `node` has `messages`; nothing is recorded of this node itself.
    pub open spec fn record_known(self, node: Seq<char>, messages: Set<u32>) -> StateView {
        if node == self.node_id {
            self
        } else {
            StateView { known: self.known.insert(node, self.known_of(node).union(messages)), ..self }
        }
    }

    /// The nodes that this node talks to: its entry in the topology, or else all declared nodes.
    pub open spec fn candidate_neighbors(self) -> Seq<Seq<char>> {
        if self.topology.contains_key(self.node_id) {
            self.topology[self.node_id]
        } else {
            self.declared_nodes
        }
    }

    /// The state after the neighborhood is recomputed: the candidates other than this node, in
    /// order, each with an entry in `known`.
    pub open spec fn refresh_neighborhood(self) -> StateView {
        let neighborhood = without(self.candidate_neighbors(), self.node_id);
        StateView {
            neighborhood,
            known: with_peers(self.known, neighborhood.to_set()),
            ..self
        }
    }
}

/// Taking one more element of a sequence adds that element to its set.
pub proof fn lemma_take_one_more_to_set<A>(s: Seq<A>, i: int)
    requires
        0 <= i < s.len(),
    ensures
        s.take(i + 1).to_set() == s.take(i).to_set().insert(s[i]),
{
    assert(s.take(i + 1) =~= s.take(i).push(s[i]));
    s.take(i).lemma_push_to_set_commute(s[i]);
}

/// Every element of `without(nodes, node)` is an element of `nodes` other than `node`.
pub proof fn lemma_without_contains(nodes: Seq<Seq<char>>, node: Seq<char>, x: Seq<char>)
    ensures
        without(nodes, node).contains(x) <==> (nodes.contains(x) && x != node),
    decreases nodes.len(),
{
    reveal(Seq::filter);
    if nodes.len() > 0 {
        let front = nodes.drop_last();
        lemma_without_contains(front, node, x);
        if without(nodes, node).contains(x) {
            if x != nodes.last() {
                let i = choose|i: int| 0 <= i < without(nodes, node).len() && without(nodes, node)[i] == x;
                assert(without(front, node)[i] == x);
                let j = choose|j: int| 0 <= j < front.len() && front[j] == x;
                assert(nodes[j] == x);
            } else {
                assert(nodes[nodes.len() - 1] == x);
            }
        }
        if nodes.contains(x) && x != node {
            let j = choose|j: int| 0 <= j < nodes.len() && nodes[j] == x;
            if j < nodes.len() - 1 {
                assert(front[j] == x);
                let i = choose|i: int| 0 <= i < without(front, node).len() && without(front, node)[i] == x;
                assert(without(nodes, node)[i] == x);
            } else {
                assert(without(nodes, node)[without(nodes, node).len() - 1] == x);
            }
        }
    } else {
        assert(!nodes.contains(x));
        assert(without(nodes, node).len() == 0);
    }
}

impl State {
    /// The same state with the message identifier counter set to `id`.
    pub open spec fn with_track_id(self, id: usize) -> State {
        State { message_track_id: id, ..self }
    }

    /// An empty state: no identity, no nodes, no messages, counter at zero.
    pub fn new() -> (r: State)
        ensures
            r@ == StateView::empty(),
    {
        State {
            node_id: String::new(),
            declared_nodes: NodeSet::new(),
            message_track_id: 0,
            messages: HashSet::new(),
            topology: NodeMap::new(),
            neighborhood: NodeSet::new(),
            known: NodeMap::new(),
        }
    }

    /// Returns the next message identifier and advances the counter.
    pub fn get_and_increment(&mut self) -> (r: usize)
        requires
            old(self).message_track_id < usize::MAX,
        ensures
            r == old(self).message_track_id,
            *final(self) == old(self).with_track_id((r + 1) as usize),
    {
        let local_id_copy = self.message_track_id;
        self.message_track_id += 1;
        local_id_copy
    }

    /// Records `message` as received.
    pub fn add_message(&mut self, message: u32)
        ensures
            final(self)@ == (StateView { messages: old(self)@.messages.insert(message), ..old(self)@ }),
    {
        self.messages.insert(message);
    }

    /// Records all of `messages` as received.
    pub fn add_messages(&mut self, messages: &HashSet<u32>)
        ensures
            final(self)@ == (StateView {
                messages: old(self)@.messages.union(messages@),
                ..old(self)@
            }),
    {
        extend_set(&mut self.messages, messages);
    }

    /// Whether every message of `messages` has been received already.
    pub fn has_all(&self, messages: &HashSet<u32>) -> (r: bool)
        ensures
            r == messages@.subset_of(self@.messages),
    {
        is_subset(messages, &self.messages)
    }

    /// Replaces the topology entry of each node named in `topology`, then recomputes the
    /// neighborhood.
    pub fn update_topology(&mut self, topology: &NodeMap<NodeSet>)
        ensures
            final(self)@ == (StateView {
                topology: old(self)@.topology.union_prefer_right(topology@),
                ..old(self)@
            }).refresh_neighborhood(),
    {
        let ghost start = self@;
        let n = topology.len();
        let mut i: usize = 0;
        assert(topology.key_seq().take(0) =~= Seq::<Seq<char>>::empty());
        assert(self@.topology =~= Map::new(
            |k: Seq<char>| start.topology.contains_key(k) || topology.key_seq().take(0).contains(k),
            |k: Seq<char>|
                if topology.key_seq().take(0).contains(k) {
                    topology@[k]
                } else {
                    start.topology[k]
                },
        ));
        while i < n
            invariant
                n == topology.key_seq().len(),
                i <= n,
                topology@.dom() == topology.key_seq().to_set(),
                self@ == (StateView {
                    topology: Map::new(
                        |k: Seq<char>| start.topology.contains_key(k) || topology.key_seq().take(i as int).contains(k),
                        |k: Seq<char>|
                            if topology.key_seq().take(i as int).contains(k) {
                                topology@[k]
                            } else {
                                start.topology[k]
                            },
                    ),
                    ..start
                }),
            decreases n - i,
        {
            let key = topology.key_at(i).clone();
            let value = topology.value_at_index(i).duplicate();
            let ghost kv = key@;
            let ghost vv = value@;
            assert(kv == topology.key_seq()[i as int]);
            assert(vv == topology@[kv]);
            let ghost before = self.topology@;
            self.topology.insert(key, value);
            assert(self.topology@ == before.insert(kv, vv));
            proof {
                let ks = topology.key_seq();
                assert(ks.take(i as int + 1) =~= ks.take(i as int).push(ks[i as int]));
                assert forall|k: Seq<char>| ks.take(i as int + 1).contains(k) <==> (ks.take(i as int).contains(k) || k == ks[i as int]) by {
                    broadcast use vstd::seq_lib::group_seq_properties;
                }
            }
            let ghost target = Map::new(
                |k: Seq<char>| start.topology.contains_key(k) || topology.key_seq().take(i as int + 1).contains(k),
                |k: Seq<char>|
                    if topology.key_seq().take(i as int + 1).contains(k) {
                        topology@[k]
                    } else {
                        start.topology[k]
                    },
            );
            assert forall|k: Seq<char>| #[trigger] target.dom().contains(k) == self.topology@.dom().contains(k) by {
                assert(topology.key_seq().take(i as int + 1).contains(k) <==> (topology.key_seq().take(i as int).contains(k) || k == kv));
            }
            assert forall|k: Seq<char>| #[trigger] target.dom().contains(k) implies target[k] == self.topology@[k] by {
                assert(topology.key_seq().take(i as int + 1).contains(k) <==> (topology.key_seq().take(i as int).contains(k) || k == kv));
            }
            assert(self.topology@.dom() =~= target.dom());
            assert(self.topology@ =~= target);
            i = i + 1;
        }
        assert(topology.key_seq().take(n as int) =~= topology.key_seq());
        assert(self@.topology =~= start.topology.union_prefer_right(topology@));
        self.update_neighborhood();
    }

    /// Recomputes the neighborhood from the topology entry of this node, or from the declared
    /// nodes when there is none, leaving this node out; every neighbor gets an entry in `known`.
    pub fn update_neighborhood(&mut self)
        ensures
            final(self)@ == old(self)@.refresh_neighborhood(),
    {
        let ghost start = self@;
        let candidates = match self.topology.get(&self.node_id) {
            Some(nodes) => nodes.duplicate(),
            None => self.declared_nodes.duplicate(),
        };
        candidates.check_no_duplicates();
        let mut neighborhood = NodeSet::new();
        let mut i: usize = 0;
        while i < candidates.len()
            invariant
                i <= candidates@.len(),
                candidates@ == start.candidate_neighbors(),
                candidates@.no_duplicates(),
                neighborhood@ == without(candidates@.take(i as int), start.node_id),
                self@ == start,
            decreases candidates@.len() - i,
        {
            let node = candidates.get(i);
            proof {
                reveal(Seq::filter);
                assert(candidates@.take(i as int + 1).drop_last() =~= candidates@.take(i as int));
                lemma_without_contains(candidates@.take(i as int), start.node_id, candidates@[i as int]);
                if candidates@.take(i as int).contains(candidates@[i as int]) {
                    let j = choose|j: int| 0 <= j < i && candidates@.take(i as int)[j] == candidates@[i as int];
                    assert(candidates@[j] == candidates@[i as int]);
                }
            }
            if *node != self.node_id {
                neighborhood.insert(node.clone());
            }
            i = i + 1;
        }
        assert(candidates@.take(candidates@.len() as int) =~= candidates@);
        self.neighborhood = neighborhood;
        self.add_peers_from_neighborhood();
    }

    fn add_peers_from_neighborhood(&mut self)
        ensures
            final(self)@ == (StateView {
                known: with_peers(old(self)@.known, old(self)@.neighborhood.to_set()),
                ..old(self)@
            }),
    {
        let ghost start = self@;
        let mut i: usize = 0;
        assert(self@.neighborhood.take(0) =~= Seq::<Seq<char>>::empty());
        assert(with_peers(start.known, self@.neighborhood.take(0).to_set()) =~= start.known);
        while i < self.neighborhood.len()
            invariant
                i <= self@.neighborhood.len(),
                self@ == (StateView {
                    known: with_peers(start.known, self@.neighborhood.take(i as int).to_set()),
                    ..start
                }),
            decreases self@.neighborhood.len() - i,
        {
            let node = self.neighborhood.get(i).clone();
            proof {
                lemma_take_one_more_to_set(self@.neighborhood, i as int);
            }
            if !self.known.contains_key(&node) {
                self.known.insert(node, HashSet::new());
            }
            i = i + 1;
            assert(self@.known =~= with_peers(start.known, self@.neighborhood.take(i as int).to_set()));
        }
        assert(self@.neighborhood.take(self@.neighborhood.len() as int) =~= self@.neighborhood);
    }

    /// Gives each of `nodes` other than this node an entry in `known`, keeping existing entries.
    pub fn create_known(&mut self, nodes: &NodeSet)
        ensures
            final(self)@ == (StateView {
                known: with_peers(old(self)@.known, nodes@.to_set().remove(old(self)@.node_id)),
                ..old(self)@
            }),
    {
        let ghost start = self@;
        let mut i: usize = 0;
        assert(nodes@.take(0) =~= Seq::<Seq<char>>::empty());
        assert(with_peers(start.known, nodes@.take(0).to_set().remove(start.node_id)) =~= start.known);
        while i < nodes.len()
            invariant
                i <= nodes@.len(),
                self@ == (StateView {
                    known: with_peers(start.known, nodes@.take(i as int).to_set().remove(start.node_id)),
                    ..start
                }),
            decreases nodes@.len() - i,
        {
            let node = nodes.get(i);
            proof {
                lemma_take_one_more_to_set(nodes@, i as int);
            }
            if *node != self.node_id && !self.known.contains_key(node) {
                self.known.insert(node.clone(), HashSet::new());
            }
            i = i + 1;
            assert(self@.known =~= with_peers(start.known, nodes@.take(i as int).to_set().remove(start.node_id)));
        }
        assert(nodes@.take(nodes@.len() as int) =~= nodes@);
    }

    /// The messages of this node that `node` is not known to have.
    pub fn messages_unknown_to(&self, node: &String) -> (r: HashSet<u32>)
        ensures
            r@ == self@.unknown_to(node@),
    {
        difference(&self.messages, self.known.get(node))
    }

    /// Records that `node` has all of `messages`; nothing is recorded of this node itself.
    pub fn mark_known(&mut self, node: &String, messages: &HashSet<u32>)
        ensures
            final(self)@ == old(self)@.record_known(node@, messages@),
    {
        if *node == self.node_id {
            return;
        }
        let mut known = match self.known.get(node) {
            Some(set) => copy_set(set),
            None => HashSet::new(),
        };
        extend_set(&mut known, messages);
        self.known.insert(node.clone(), known);
    }
}

impl Default for State {
    fn default() -> (r: State)
        ensures
            r@ == StateView::empty(),
    {
        State::new()
    }
}

} // verus!

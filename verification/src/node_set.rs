use vstd::prelude::*;

verus! {

/// The identifiers of a sequence of nodes with no duplicates, removing later repeats.
pub open spec fn dedup(s: Seq<Seq<char>>) -> Seq<Seq<char>>
    decreases s.len(),
{
    if s.len() == 0 {
        s
    } else {
        let front = dedup(s.drop_last());
        if front.contains(s.last()) {
            front
        } else {
            front.push(s.last())
        }
    }
}

/// The views of a vector of node identifiers.
pub open spec fn ids_view(v: Seq<String>) -> Seq<Seq<char>> {
    v.map_values(|s: String| s@)
}

/// `dedup` keeps exactly the elements of its input, each once.
pub proof fn lemma_dedup(s: Seq<Seq<char>>)
    ensures
        dedup(s).no_duplicates(),
        dedup(s).to_set() == s.to_set(),
        dedup(s).len() <= s.len(),
    decreases s.len(),
{
    if s.len() > 0 {
        lemma_dedup(s.drop_last());
        let front = dedup(s.drop_last());
        assert(s.to_set() =~= s.drop_last().to_set().insert(s.last())) by {
            assert forall|x: Seq<char>| s.to_set().contains(x) implies s.drop_last().to_set().insert(
                s.last(),
            ).contains(x) by {
                let i = choose|i: int| 0 <= i < s.len() && s[i] == x;
                if i < s.len() - 1 {
                    assert(s.drop_last()[i] == x);
                }
            }
            assert forall|x: Seq<char>| s.drop_last().to_set().insert(s.last()).contains(
                x,
            ) implies s.to_set().contains(x) by {
                if x != s.last() {
                    let i = choose|i: int| 0 <= i < s.drop_last().len() && s.drop_last()[i] == x;
                    assert(s[i] == x);
                } else {
                    assert(s[s.len() - 1] == x);
                }
            }
        }
        if !front.contains(s.last()) {
            assert(front.push(s.last()).to_set() =~= front.to_set().insert(s.last())) by {
                assert forall|x: Seq<char>| front.push(s.last()).to_set().contains(
                    x,
                ) implies front.to_set().insert(s.last()).contains(x) by {
                    let i = choose|i: int|
                        0 <= i < front.push(s.last()).len() && front.push(s.last())[i] == x;
                    if i < front.len() {
                        assert(front[i] == x);
                    }
                }
                assert forall|x: Seq<char>| front.to_set().insert(s.last()).contains(
                    x,
                ) implies front.push(s.last()).to_set().contains(x) by {
                    if x == s.last() {
                        assert(front.push(s.last())[front.len() as int] == x);
                    } else {
                        let i = choose|i: int| 0 <= i < front.len() && front[i] == x;
                        assert(front.push(s.last())[i] == x);
                    }
                }
            }
        } else {
            assert(front.to_set().contains(s.last())) by {
                let i = choose|i: int| 0 <= i < front.len() && front[i] == s.last();
            }
            assert(front.to_set() =~= front.to_set().insert(s.last()));
        }
    }
}

/// A set of node identifiers that remembers the order in which nodes were added.
///
/// Its view is the sequence of the identifiers, in that order, with no identifier twice.
#[derive(Debug, PartialEq, Eq)]
pub struct NodeSet {
    nodes: Vec<String>,
}

impl View for NodeSet {
    type V = Seq<Seq<char>>;

    closed spec fn view(&self) -> Seq<Seq<char>> {
        ids_view(self.nodes@)
    }
}

impl NodeSet {
    #[verifier::type_invariant]
    spec fn no_repeats(&self) -> bool {
        self@.no_duplicates()
    }

    /// Every node set holds each identifier at most once.
    pub fn check_no_duplicates(&self)
        ensures
            self@.no_duplicates(),
    {
        proof {
            use_type_invariant(self);
        }
    }

    /// The empty set.
    pub fn new() -> (r: NodeSet)
        ensures
            r@ == Seq::<Seq<char>>::empty(),
    {
        let r = NodeSet { nodes: Vec::new() };
        assert(r@ =~= Seq::<Seq<char>>::empty());
        r
    }

    /// The number of nodes in the set.
    pub fn len(&self) -> (r: usize)
        ensures
            r == self@.len(),
    {
        self.nodes.len()
    }

    /// Whether the set holds no node.
    pub fn is_empty(&self) -> (r: bool)
        ensures
            r == (self@.len() == 0),
    {
        self.nodes.len() == 0
    }

    /// The node at position `i`, in insertion order.
    pub fn get(&self, i: usize) -> (r: &String)
        requires
            i < self@.len(),
        ensures
            r@ == self@[i as int],
    {
        &self.nodes[i]
    }

    /// Whether `node` is in the set.
    pub fn contains(&self, node: &String) -> (r: bool)
        ensures
            r == self@.contains(node@),
    {
        let mut i: usize = 0;
        while i < self.nodes.len()
            invariant
                i <= self.nodes@.len(),
                forall|j: int| 0 <= j < i ==> self@[j] != node@,
            decreases self.nodes@.len() - i,
        {
            if self.nodes[i] == *node {
                assert(self@[i as int] == node@);
                return true;
            }
            i = i + 1;
        }
        false
    }

    /// Adds `node` at the end unless it is already present; returns whether it was added.
    pub fn insert(&mut self, node: String) -> (r: bool)
        ensures
            r == !old(self)@.contains(node@),
            final(self)@ == (if r {
                old(self)@.push(node@)
            } else {
                old(self)@
            }),
    {
        proof {
            use_type_invariant(&*self);
        }
        if self.contains(&node) {
            false
        } else {
            let ghost before = self@;
            let mut nodes = Vec::new();
            std::mem::swap(&mut nodes, &mut self.nodes);
            let ghost nv = node@;
            nodes.push(node);
            assert(ids_view(nodes@) =~= before.push(nv));
            self.nodes = nodes;
            true
        }
    }

    /// The set of the distinct identifiers of `v`, in the order of their first occurrence.
    pub fn from_vec(v: Vec<String>) -> (r: NodeSet)
        ensures
            r@ == dedup(ids_view(v@)),
            r@.to_set() == ids_view(v@).to_set(),
    {
        let mut r = NodeSet::new();
        let mut i: usize = 0;
        while i < v.len()
            invariant
                i <= v@.len(),
                r@ == dedup(ids_view(v@).take(i as int)),
            decreases v@.len() - i,
        {
            assert(ids_view(v@).take(i as int + 1).drop_last() =~= ids_view(v@).take(i as int));
            r.insert(v[i].clone());
            i = i + 1;
        }
        assert(ids_view(v@).take(v@.len() as int) =~= ids_view(v@));
        proof {
            lemma_dedup(ids_view(v@));
        }
        r
    }

    /// The identifiers, in insertion order.
    pub fn to_vec(&self) -> (r: Vec<String>)
        ensures
            ids_view(r@) == self@,
    {
        let mut r: Vec<String> = Vec::new();
        let mut i: usize = 0;
        while i < self.nodes.len()
            invariant
                i <= self.nodes@.len(),
                ids_view(r@) == self@.take(i as int),
            decreases self.nodes@.len() - i,
        {
            let node = self.nodes[i].clone();
            assert(node@ == self@[i as int]);
            let ghost before = r@;
            r.push(node);
            assert(ids_view(r@) =~= ids_view(before).push(node@));
            i = i + 1;
            assert(ids_view(r@) =~= self@.take(i as int));
        }
        assert(self@.take(self@.len() as int) =~= self@);
        r
    }

    /// A copy of the set, with the same nodes in the same order.
    pub fn duplicate(&self) -> (r: NodeSet)
        ensures
            r@ == self@,
    {
        proof {
            use_type_invariant(self);
        }
        let nodes = self.to_vec();
        NodeSet { nodes }
    }
}

} // verus!

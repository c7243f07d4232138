use crate::node_set::ids_view;
use vstd::prelude::*;

verus! {

/// A finite map keyed by node identifiers.
///
/// Its view maps each key's characters to the view of its value.
#[derive(Debug, PartialEq, Eq)]
pub struct NodeMap<V: View> {
    keys: Vec<String>,
    values: Vec<V>,
}

impl<V: View> View for NodeMap<V> {
    type V = Map<Seq<char>, V::V>;

    closed spec fn view(&self) -> Map<Seq<char>, V::V> {
        Map::new(
            |k: Seq<char>| self.key_seq().contains(k),
            |k: Seq<char>| self.values@[self.key_seq().index_of(k)]@,
        )
    }
}

impl<V: View> NodeMap<V> {
    #[verifier::type_invariant]
    spec fn well_formed(&self) -> bool {
        &&& self.keys@.len() == self.values@.len()
        &&& self.key_seq().no_duplicates()
    }

    /// The keys, in the order in which they were first inserted.
    pub closed spec fn key_seq(&self) -> Seq<Seq<char>> {
        ids_view(self.keys@)
    }

    /// The value stored at position `i`, in key order.
    pub closed spec fn value_at(&self, i: int) -> V::V {
        self.values@[i]@
    }

    proof fn lemma_index(&self, i: int)
        requires
            self.well_formed(),
            0 <= i < self.keys@.len(),
        ensures
            self@.contains_key(self.key_seq()[i]),
            self@[self.key_seq()[i]] == self.values@[i]@,
    {
        let k = self.key_seq()[i];
        assert(self.key_seq().contains(k));
        let j = self.key_seq().index_of(k);
        assert(self.key_seq()[j] == k);
    }

    /// The empty map.
    pub fn new() -> (r: NodeMap<V>)
        ensures
            r@ == Map::<Seq<char>, V::V>::empty(),
            r.key_seq() == Seq::<Seq<char>>::empty(),
    {
        let r = NodeMap { keys: Vec::new(), values: Vec::new() };
        assert(r.key_seq() =~= Seq::<Seq<char>>::empty());
        assert(r@ =~= Map::<Seq<char>, V::V>::empty());
        r
    }

    /// The number of keys.
    pub fn len(&self) -> (r: usize)
        ensures
            r == self.key_seq().len(),
            r == self@.len(),
            self.key_seq().no_duplicates(),
            self@.dom() == self.key_seq().to_set(),
    {
        proof {
            use_type_invariant(self);
            assert(self@.dom() =~= self.key_seq().to_set());
            self.key_seq().unique_seq_to_set();
        }
        self.keys.len()
    }

    /// The key at position `i`.
    pub fn key_at(&self, i: usize) -> (r: &String)
        requires
            i < self.key_seq().len(),
        ensures
            r@ == self.key_seq()[i as int],
    {
        &self.keys[i]
    }

    /// The value at position `i`.
    pub fn value_at_index(&self, i: usize) -> (r: &V)
        requires
            i < self.key_seq().len(),
        ensures
            r@ == self.value_at(i as int),
            self@.contains_key(self.key_seq()[i as int]),
            self@[self.key_seq()[i as int]] == r@,
    {
        proof {
            use_type_invariant(self);
            self.lemma_index(i as int);
        }
        &self.values[i]
    }

    fn find(&self, key: &String) -> (r: Option<usize>)
        ensures
            match r {
                Some(i) => i < self.keys@.len() && self.key_seq()[i as int] == key@,
                None => !self.key_seq().contains(key@),
            },
    {
        let mut i: usize = 0;
        while i < self.keys.len()
            invariant
                i <= self.keys@.len(),
                forall|j: int| 0 <= j < i ==> self.key_seq()[j] != key@,
            decreases self.keys@.len() - i,
        {
            if self.keys[i] == *key {
                return Some(i);
            }
            i = i + 1;
        }
        None
    }

    /// Whether `key` has a value.
    pub fn contains_key(&self, key: &String) -> (r: bool)
        ensures
            r == self@.contains_key(key@),
    {
        match self.find(key) {
            Some(_) => true,
            None => false,
        }
    }

    /// The value stored under `key`, if any.
    pub fn get(&self, key: &String) -> (r: Option<&V>)
        ensures
            match r {
                Some(v) => self@.contains_key(key@) && v@ == self@[key@],
                None => !self@.contains_key(key@),
            },
    {
        proof {
            use_type_invariant(self);
        }
        match self.find(key) {
            Some(i) => {
                proof {
                    self.lemma_index(i as int);
                }
                Some(&self.values[i])
            },
            None => None,
        }
    }

    /// Stores `value` under `key`, replacing any earlier value.
    pub fn insert(&mut self, key: String, value: V)
        ensures
            final(self)@ == old(self)@.insert(key@, value@),
    {
        proof {
            use_type_invariant(&*self);
        }
        let ghost old_map = self@;
        let ghost old_keys = self.key_seq();
        let ghost kv = key@;
        let ghost vv = value@;
        let mut taken = NodeMap::new();
        std::mem::swap(self, &mut taken);
        let NodeMap { mut keys, mut values } = taken;
        match find_key(&keys, &key) {
            Some(i) => {
                values.set(i, value);
            },
            None => {
                keys.push(key);
                values.push(value);
                assert(ids_view(keys@) =~= old_keys.push(kv));
            },
        }
        *self = NodeMap { keys, values };
        assert(self.key_seq().no_duplicates());
        proof {
            assert forall|k: Seq<char>| #[trigger] self@.contains_key(k) == old_map.insert(kv, vv).contains_key(k) by {
                if old_keys.contains(k) {
                    let j = choose|j: int| 0 <= j < old_keys.len() && old_keys[j] == k;
                    assert(self.key_seq()[j] == k);
                }
                if self.key_seq().contains(k) && k != kv {
                    let j = choose|j: int| 0 <= j < self.key_seq().len() && self.key_seq()[j] == k;
                    assert(old_keys[j] == k);
                }
                if k == kv {
                    assert(self.key_seq().contains(k)) by {
                        if old_keys.contains(k) {
                            let j = choose|j: int| 0 <= j < old_keys.len() && old_keys[j] == k;
                            assert(self.key_seq()[j] == k);
                        } else {
                            assert(self.key_seq()[old_keys.len() as int] == k);
                        }
                    }
                }
            }
            assert forall|k: Seq<char>| #[trigger] self@.contains_key(k) implies self@[k] == old_map.insert(kv, vv)[k] by {
                let j = choose|j: int| 0 <= j < self.key_seq().len() && self.key_seq()[j] == k;
                self.lemma_index(j);
                if k != kv {
                    assert(old_keys[j] == k);
                    assert(old_keys.contains(k));
                    let oj = old_keys.index_of(k);
                    assert(old_keys[oj] == k);
                }
            }
            assert(self@ =~= old_map.insert(kv, vv));
        }
    }
}

fn find_key(keys: &Vec<String>, key: &String) -> (r: Option<usize>)
    ensures
        match r {
            Some(i) => i < keys@.len() && ids_view(keys@)[i as int] == key@,
            None => !ids_view(keys@).contains(key@),
        },
{
    let mut i: usize = 0;
    while i < keys.len()
        invariant
            i <= keys@.len(),
            forall|j: int| 0 <= j < i ==> ids_view(keys@)[j] != key@,
        decreases keys@.len() - i,
    {
        if keys[i] == *key {
            return Some(i);
        }
        i = i + 1;
    }
    None
}

} // verus!

use std::collections::HashSet;
use vstd::prelude::*;
use vstd::std_specs::iter::IteratorSpec;

verus! {

broadcast use vstd::std_specs::hash::group_hash_axioms;

/// A copy of a set of message values.
pub fn copy_set(s: &HashSet<u32>) -> (r: HashSet<u32>)
    ensures
        r@ == s@,
{
    let mut r: HashSet<u32> = HashSet::new();
    extend_set(&mut r, s);
    assert(r@ =~= s@);
    r
}

/// Adds every value of `other` to `target`.
pub fn extend_set(target: &mut HashSet<u32>, other: &HashSet<u32>)
    ensures
        final(target)@ == old(target)@.union(other@),
{
    let ghost start = target@;
    let ghost ks: Seq<u32> = other.iter().remaining().unref();
    for x in it: other.iter()
        invariant
            it.seq().unref() == ks,
            ks.to_set() == other@,
            start.subset_of(target@),
            target@.subset_of(start.union(other@)),
            forall|i: int| 0 <= i < it.index() ==> target@.contains(#[trigger] ks[i]),
    {
        target.insert(*x);
    }
    assert(target@ =~= start.union(other@)) by {
        assert forall|v: u32| other@.contains(v) implies target@.contains(v) by {
            assert(ks.to_set().contains(v));
            let i = choose|i: int| 0 <= i < ks.len() && ks[i] == v;
        }
    }
}

/// Whether every value of `part` is already in `whole`.
pub fn is_subset(part: &HashSet<u32>, whole: &HashSet<u32>) -> (r: bool)
    ensures
        r == part@.subset_of(whole@),
{
    let ghost ks: Seq<u32> = part.iter().remaining().unref();
    for x in it: part.iter()
        invariant
            it.seq().unref() == ks,
            ks.to_set() == part@,
            forall|i: int| 0 <= i < it.index() ==> whole@.contains(#[trigger] ks[i]),
    {
        if !whole.contains(x) {
            assert(part@.contains(*x)) by {
                assert(ks[it.index()] == *x);
                assert(ks.to_set().contains(ks[it.index()]));
            }
            return false;
        }
    }
    assert forall|v: u32| part@.contains(v) implies whole@.contains(v) by {
        assert(ks.to_set().contains(v));
        let i = choose|i: int| 0 <= i < ks.len() && ks[i] == v;
    }
    true
}

/// The values of `all` that are not in `excluded`; with no `excluded` set, all of them.
pub fn difference(all: &HashSet<u32>, excluded: Option<&HashSet<u32>>) -> (r: HashSet<u32>)
    ensures
        r@ == match excluded {
            Some(e) => all@.difference(e@),
            None => all@,
        },
{
    let ghost target = match excluded {
        Some(e) => all@.difference(e@),
        None => all@,
    };
    let mut r: HashSet<u32> = HashSet::new();
    let ghost ks: Seq<u32> = all.iter().remaining().unref();
    for x in it: all.iter()
        invariant
            it.seq().unref() == ks,
            ks.to_set() == all@,
            target == match excluded {
                Some(e) => all@.difference(e@),
                None => all@,
            },
            r@.subset_of(target),
            forall|i: int| 0 <= i < it.index() && target.contains(#[trigger] ks[i]) ==> r@.contains(ks[i]),
    {
        let keep = match excluded {
            Some(e) => !e.contains(x),
            None => true,
        };
        assert(all@.contains(*x)) by {
            assert(ks[it.index()] == *x);
            assert(ks.to_set().contains(ks[it.index()]));
        }
        if keep {
            r.insert(*x);
        }
    }
    assert(r@ =~= target) by {
        assert forall|v: u32| target.contains(v) implies r@.contains(v) by {
            assert(ks.to_set().contains(v));
            let i = choose|i: int| 0 <= i < ks.len() && ks[i] == v;
        }
    }
    r
}

} // verus!

//! Unions and intersections of hash sets.

use std::collections::HashSet;
use vstd::prelude::*;
use vstd::std_specs::iter::IteratorSpec;

verus! {

broadcast use vstd::std_specs::hash::group_hash_axioms;

/// What a walk over a set lists is what the set holds.
proof fn lemma_listed<T>(list: Seq<&T>)
    ensures
        forall|x: T| #[trigger]
            list.unref().to_set().contains(x) <==> exists|j: int|
                0 <= j < list.len() && *#[trigger] list[j] == x,
{
    assert forall|x: T| #[trigger] list.unref().to_set().contains(x) <==> exists|j: int|
        0 <= j < list.len() && *#[trigger] list[j] == x by {
        let plain = list.unref();
        if plain.to_set().contains(x) {
            let j = choose|j: int| 0 <= j < plain.len() && plain[j] == x;
            assert(*list[j] == x);
        }
        if exists|j: int| 0 <= j < list.len() && *#[trigger] list[j] == x {
            let j = choose|j: int| 0 <= j < list.len() && *#[trigger] list[j] == x;
            assert(plain[j] == x);
        }
    }
}

/// Puts everything from `extra` into `target`.
pub(crate) fn add_all(target: &mut HashSet<u32>, extra: &HashSet<u32>)
    ensures
        final(target)@ == old(target)@.union(extra@),
{
    let ghost before = target@;
    proof {
        lemma_listed(vstd::std_specs::hash::spec_hash_keys_iter(extra).remaining());
    }
    for item in it: extra.iter()
        invariant
            forall|x: u32| #[trigger]
                extra@.contains(x) <==> exists|j: int|
                    0 <= j < it.seq().len() && *#[trigger] it.seq()[j] == x,
            forall|x: u32| #[trigger]
                target@.contains(x) <==> before.contains(x) || exists|j: int|
                    0 <= j < it.index() && *#[trigger] it.seq()[j] == x,
    {
        target.insert(*item);
    }
    assert(target@ =~= before.union(extra@));
}

/// What is in both sets.
pub(crate) fn common(set: &HashSet<u64>, keep: &HashSet<u64>) -> (r: HashSet<u64>)
    ensures
        r@ == set@.intersect(keep@),
{
    let mut r: HashSet<u64> = HashSet::new();
    proof {
        lemma_listed(vstd::std_specs::hash::spec_hash_keys_iter(set).remaining());
    }
    for item in it: set.iter()
        invariant
            forall|x: u64| #[trigger]
                set@.contains(x) <==> exists|j: int|
                    0 <= j < it.seq().len() && *#[trigger] it.seq()[j] == x,
            forall|x: u64| #[trigger]
                r@.contains(x) <==> keep@.contains(x) && exists|j: int|
                    0 <= j < it.index() && *#[trigger] it.seq()[j] == x,
    {
        if keep.contains(item) {
            r.insert(*item);
        }
    }
    assert(r@ =~= set@.intersect(keep@));
    r
}

} // verus!

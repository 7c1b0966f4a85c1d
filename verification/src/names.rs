//! Sets of names.

use vstd::prelude::*;

verus! {

/// A set of names.
#[derive(Debug)]
pub struct NameSet {
    pub names: Vec<String>,
}

/// The names in a list.
pub open spec fn names_in(list: Seq<String>) -> Set<Seq<char>> {
    Set::new(|name: Seq<char>| exists|i: int| 0 <= i < list.len() && (#[trigger] list[i])@ == name)
}

impl View for NameSet {
    type V = Set<Seq<char>>;

    open spec fn view(&self) -> Set<Seq<char>> {
        names_in(self.names@)
    }
}

impl NameSet {
    pub fn new() -> (set: NameSet)
        ensures
            set@ == Set::<Seq<char>>::empty(),
    {
        let set: NameSet = NameSet { names: Vec::new() };
        assert(set@ =~= Set::<Seq<char>>::empty());
        set
    }

    pub fn contains(&self, name: &String) -> (b: bool)
        ensures
            b == self@.contains(name@),
    {
        let mut i: usize = 0;
        while i < self.names.len()
            invariant
                i <= self.names.len(),
                forall|j: int| 0 <= j < i ==> (#[trigger] self.names@[j])@ != name@,
            decreases self.names.len() - i,
        {
            if self.names[i] == *name {
                return true;
            }
            i += 1;
        }
        false
    }

    /// Adds a name, unless it is there.
    pub fn insert(&mut self, name: &String)
        ensures
            final(self)@ == old(self)@.insert(name@),
    {
        if !self.contains(name) {
            let ghost before = self.names@;
            self.names.push(name.clone());
            proof {
                let after = self.names@;
                assert forall|other: Seq<char>| names_in(before).contains(other) implies names_in(
                    after,
                ).contains(other) by {
                    let i = choose|i: int| 0 <= i < before.len() && (#[trigger] before[i])@ == other;
                    assert(after[i]@ == other);
                }
                assert(after[before.len() as int]@ == name@);
                assert forall|other: Seq<char>| names_in(after).contains(other) implies names_in(
                    before,
                ).contains(other) || other == name@ by {
                    let i = choose|i: int| 0 <= i < after.len() && (#[trigger] after[i])@ == other;
                    if i < before.len() {
                        assert(before[i]@ == other);
                    }
                }
                assert(names_in(after) =~= names_in(before).insert(name@));
            }
        } else {
            assert(self@ =~= old(self)@.insert(name@));
        }
    }

    /// Takes a name out.
    pub fn remove(&mut self, name: &String)
        ensures
            final(self)@ == old(self)@.remove(name@),
    {
        let mut kept: Vec<String> = Vec::new();
        let mut i: usize = 0;
        while i < self.names.len()
            invariant
                i <= self.names.len(),
                self.names == old(self).names,
                forall|j: int| 0 <= j < kept.len() ==> (#[trigger] kept@[j])@ != name@,
                forall|j: int|
                    0 <= j < kept.len() ==> names_in(self.names@).contains((#[trigger] kept@[j])@),
                forall|j: int|
                    0 <= j < i && (#[trigger] self.names@[j])@ != name@ ==> names_in(
                        kept@,
                    ).contains(self.names@[j]@),
            decreases self.names.len() - i,
        {
            if self.names[i] != *name {
                let ghost before = kept@;
                kept.push(self.names[i].clone());
                proof {
                    let after = kept@;
                    assert(after[before.len() as int]@ == self.names@[i as int]@);
                    assert forall|other: Seq<char>| names_in(before).contains(other) implies
                        names_in(after).contains(other) by {
                        let j = choose|j: int|
                            0 <= j < before.len() && (#[trigger] before[j])@ == other;
                        assert(after[j]@ == other);
                    }
                }
            }
            i += 1;
        }
        proof {
            assert forall|other: Seq<char>|
                names_in(self.names@).contains(other) && other != name@ implies names_in(
                kept@,
            ).contains(other) by {
                let j = choose|j: int|
                    0 <= j < self.names.len() && (#[trigger] self.names@[j])@ == other;
                assert(names_in(kept@).contains(self.names@[j]@));
            }
            assert(names_in(kept@) =~= names_in(self.names@).remove(name@));
        }
        self.names = kept;
    }

    pub fn is_empty(&self) -> (b: bool)
        ensures
            b == (self@ == Set::<Seq<char>>::empty()),
    {
        if self.names.len() == 0 {
            assert(self@ =~= Set::<Seq<char>>::empty());
            true
        } else {
            assert(self@.contains(self.names@[0]@));
            false
        }
    }
}

/// A set of names holds exactly the names that it lists.
pub proof fn lemma_set_holds_its_names(set: NameSet, name: Seq<char>)
    ensures
        set@.contains(name) <==> exists|i: int|
            0 <= i < set.names.len() && (#[trigger] set.names@[i])@ == name,
{
}

} // verus!

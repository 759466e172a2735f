//! A small map from account identifiers to unsigned counters, kept as a
//! vector of entries with distinct keys.

use vstd::prelude::*;

verus! {

/// Storage from account identifier to a `u128` value.
///
/// Each identifier occurs at most once among the entries; entries keep the
/// order in which their keys were first inserted.
pub struct AccountMap {
    entries: Vec<(String, u128)>,
    model: Ghost<Map<Seq<char>, u128>>,
}

impl AccountMap {
    /// The mapping that the entries stand for.
    pub closed spec fn view(&self) -> Map<Seq<char>, u128> {
        self.model@
    }

    /// The entries hold distinct keys and agree with the model.
    pub closed spec fn wf(&self) -> bool {
        &&& forall|i: int, j: int|
            0 <= i < j < self.entries@.len() ==> #[trigger] self.entries@[i].0@
                != #[trigger] self.entries@[j].0@
        &&& forall|i: int|
            0 <= i < self.entries@.len() ==> {
                &&& self.model@.contains_key(#[trigger] self.entries@[i].0@)
                &&& self.model@[self.entries@[i].0@] == self.entries@[i].1
            }
        &&& forall|k: Seq<char>|
            #[trigger] self.model@.contains_key(k) ==> exists|i: int|
                0 <= i < self.entries@.len() && #[trigger] self.entries@[i].0@ == k
    }

    /// An empty map.
    pub fn new() -> (r: AccountMap)
        ensures
            r.wf(),
            r@ == Map::<Seq<char>, u128>::empty(),
    {
        AccountMap { entries: Vec::new(), model: Ghost(Map::empty()) }
    }

    /// Position of the entry for `who`, if there is one.
    fn position(&self, who: &String) -> (r: Option<usize>)
        requires
            self.wf(),
        ensures
            match r {
                Some(i) => i < self.entries@.len() && self.entries@[i as int].0@ == who@,
                None => !self@.contains_key(who@),
            },
    {
        let mut i: usize = 0;
        while i < self.entries.len()
            invariant
                self.wf(),
                i <= self.entries@.len(),
                forall|j: int| 0 <= j < i ==> #[trigger] self.entries@[j].0@ != who@,
            decreases self.entries@.len() - i,
        {
            if self.entries[i].0 == *who {
                return Some(i);
            }
            i = i + 1;
        }
        None
    }

    /// The value stored for `who`, or `None` where `who` has no entry.
    pub fn get(&self, who: &String) -> (r: Option<u128>)
        requires
            self.wf(),
        ensures
            r == (if self@.contains_key(who@) {
                Some(self@[who@])
            } else {
                None::<u128>
            }),
    {
        match self.position(who) {
            Some(i) => Some(self.entries[i].1),
            None => None,
        }
    }

    /// Stores `value` for `who`, replacing any earlier value.
    pub fn insert(&mut self, who: &String, value: u128)
        requires
            old(self).wf(),
        ensures
            final(self).wf(),
            final(self)@ == old(self)@.insert(who@, value),
    {
        match self.position(who) {
            Some(i) => {
                self.entries.set(i, (who.clone(), value));
            },
            None => {
                self.entries.push((who.clone(), value));
            },
        }
        self.model = Ghost(self.model@.insert(who@, value));
        assert forall|k: Seq<char>| #[trigger] self.model@.contains_key(k) implies exists|i: int|
            0 <= i < self.entries@.len() && #[trigger] self.entries@[i].0@ == k by {
            if k != who@ {
                let i = choose|i: int|
                    0 <= i < old(self).entries@.len() && #[trigger] old(self).entries@[i].0@ == k;
                assert(self.entries@[i].0@ == k);
            } else {
                let n = self.entries@.len() - 1;
                if old(self).model@.contains_key(who@) {
                    let i = choose|i: int|
                        0 <= i < old(self).entries@.len() && #[trigger] old(self).entries@[i].0@
                            == k;
                    assert(self.entries@[i].0@ == k);
                } else {
                    assert(self.entries@[n].0@ == k);
                }
            }
        }
    }
}

} // verus!

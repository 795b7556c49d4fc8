//! A store of values under text keys.

use vstd::prelude::*;
use vstd::string::*;

use crate::text::same;

verus! {

/// Values under distinct keys, in the order in which the keys first came.
pub struct KeyedStore<V> {
    entries: Vec<(String, V)>,
}

/// The position of a key among the entries.
pub open spec fn has_key_at<V>(entries: Seq<(String, V)>, key: Seq<char>, i: int) -> bool {
    0 <= i < entries.len() && entries[i].0@ == key
}

impl<V> View for KeyedStore<V> {
    type V = Map<Seq<char>, V>;

    closed spec fn view(&self) -> Map<Seq<char>, V> {
        Map::new(
            |key: Seq<char>| exists|i: int| has_key_at(self.entries@, key, i),
            |key: Seq<char>|
                self.entries@[choose|i: int| has_key_at(self.entries@, key, i)].1,
        )
    }
}

impl<V> KeyedStore<V> {
    /// No key stands twice.
    #[verifier::type_invariant]
    spec fn keys_distinct(self) -> bool {
        forall|i: int, j: int|
            0 <= i < j < self.entries@.len() ==> (#[trigger] self.entries@[i]).0@ != (
            #[trigger] self.entries@[j]).0@
    }

    /// A store without keys.
    pub fn new() -> (r: Self)
        ensures
            r@ == Map::<Seq<char>, V>::empty(),
    {
        let r = KeyedStore { entries: Vec::new() };
        assert(r@ =~= Map::<Seq<char>, V>::empty());
        r
    }

    fn position(&self, key: &str) -> (r: Option<usize>)
        ensures
            match r {
                Some(i) => has_key_at(self.entries@, key@, i as int),
                None => forall|i: int| !has_key_at(self.entries@, key@, i),
            },
    {
        let mut i: usize = 0;
        while i < self.entries.len()
            invariant
                i <= self.entries@.len(),
                forall|j: int| 0 <= j < i ==> !has_key_at(self.entries@, key@, j),
            decreases self.entries@.len() - i,
        {
            if same(self.entries[i].0.as_str(), key) {
                assert(has_key_at(self.entries@, key@, i as int));
                return Some(i);
            }
            i = i + 1;
        }
        None
    }

    /// The value under a key.
    pub fn get(&self, key: &str) -> (r: Option<&V>)
        ensures
            match r {
                Some(v) => self@.contains_key(key@) && self@[key@] == *v,
                None => !self@.contains_key(key@),
            },
    {
        proof {
            use_type_invariant(self);
        }
        match self.position(key) {
            Some(i) => {
                assert(has_key_at(self.entries@, key@, i as int));
                Some(&self.entries[i].1)
            },
            None => None,
        }
    }

    /// Puts a value under a key, in place of the one that was there.
    pub fn insert(&mut self, key: &str, value: V)
        ensures
            final(self)@ == old(self)@.insert(key@, value),
    {
        proof {
            use_type_invariant(&*self);
        }
        let ghost before = self.entries@;
        let ghost old_view = self@;
        match self.position(key) {
            Some(i) => {
                let name = self.entries[i].0.clone();
                let mut entries: Vec<(String, V)> = Vec::new();
                std::mem::swap(&mut entries, &mut self.entries);
                entries.set(i, (name, value));
                self.entries = entries;
                proof {
                    let after = self.entries@;
                    assert(after == before.update(i as int, (name, value)));
                    assert forall|k: Seq<char>, j: int|
                        has_key_at(before, k, j) == has_key_at(after, k, j) by {}
                    assert(has_key_at(after, key@, i as int));
                    assert(self@ =~= old_view.insert(key@, value));
                }
            },
            None => {
                let mut entries: Vec<(String, V)> = Vec::new();
                std::mem::swap(&mut entries, &mut self.entries);
                entries.push((key.to_owned(), value));
                proof {
                    assert forall|j: int| 0 <= j < before.len() implies before[j].0@ != key@ by {
                        assert(!has_key_at(before, key@, j));
                    }
                }
                self.entries = entries;
                proof {
                    let after = self.entries@;
                    let n = before.len() as int;
                    assert forall|k: Seq<char>, j: int| j != n implies has_key_at(before, k, j)
                        == has_key_at(after, k, j) by {}
                    assert(has_key_at(after, key@, n));
                    assert(self@ =~= old_view.insert(key@, value));
                }
            },
        }
    }
}

} // verus!

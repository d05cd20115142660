//! A small map keyed by strings: one entry per key, viewed as a `Map`.

use vstd::prelude::*;

verus! {

/// Values by string key, each key present once.
pub struct KeyedList<V: Copy> {
    entries: Vec<(String, V)>,
}

impl<V: Copy> View for KeyedList<V> {
    type V = Map<Seq<char>, V>;

    closed spec fn view(&self) -> Map<Seq<char>, V> {
        Map::new(
            |k: Seq<char>| exists|i: int| 0 <= i < self.entries@.len() && #[trigger] self.entries@[i].0@ == k,
            |k: Seq<char>|
                self.entries@[choose|i: int| 0 <= i < self.entries@.len() && #[trigger] self.entries@[i].0@ == k].1,
        )
    }
}

impl<V: Copy> KeyedList<V> {
    #[verifier::type_invariant]
    closed spec fn inv(self) -> bool {
        forall|i: int, j: int|
            0 <= i < self.entries@.len() && 0 <= j < self.entries@.len() && #[trigger] self.entries@[i].0@
                == #[trigger] self.entries@[j].0@ ==> i == j
    }

    closed spec fn keys(&self) -> Seq<Seq<char>> {
        self.entries@.map_values(|e: (String, V)| e.0@)
    }

    pub fn new() -> (m: Self)
        ensures
            m@ == Map::<Seq<char>, V>::empty(),
    {
        let m = KeyedList { entries: Vec::new() };
        assert(m@ =~= Map::<Seq<char>, V>::empty());
        m
    }

    fn position(&self, key: &String) -> (r: Option<usize>)
        ensures
            r matches Some(i) ==> i < self.entries@.len() && self.entries@[i as int].0@ == key@,
            r is None ==> forall|i: int| 0 <= i < self.entries@.len() ==> #[trigger] self.entries@[i].0@ != key@,
    {
        let mut i: usize = 0;
        while i < self.entries.len()
            invariant
                i <= self.entries@.len(),
                forall|j: int| 0 <= j < i ==> #[trigger] self.entries@[j].0@ != key@,
            decreases self.entries@.len() - i,
        {
            if self.entries[i].0 == *key {
                return Some(i);
            }
            i = i + 1;
        }
        None
    }

    /// The value under `key`, if any.
    pub fn get(&self, key: &String) -> (r: Option<V>)
        ensures
            r == if self@.contains_key(key@) {
                Some(self@[key@])
            } else {
                None
            },
    {
        proof {
            use_type_invariant(self);
        }
        match self.position(key) {
            Some(i) => {
                assert(self@.contains_key(key@));
                let ghost j = choose|j: int| 0 <= j < self.entries@.len() && #[trigger] self.entries@[j].0@ == key@;
                assert(self.entries@[j].0@ == self.entries@[i as int].0@);
                Some(self.entries[i].1)
            },
            None => None,
        }
    }

    /// Set the value under `key`, adding the key if it is new.
    pub fn insert(&mut self, key: String, value: V)
        ensures
            final(self)@ == old(self)@.insert(key@, value),
    {
        proof {
            use_type_invariant(&*self);
        }
        let ghost k = key@;
        let pos = self.position(&key);
        let mut entries = Vec::new();
        std::mem::swap(&mut entries, &mut self.entries);
        let ghost old_entries = entries@;
        match pos {
            Some(i) => {
                entries.set(i, (key, value));
                assert forall|a: int, b: int|
                    0 <= a < entries@.len() && 0 <= b < entries@.len() && #[trigger] entries@[a].0@
                        == #[trigger] entries@[b].0@ implies a == b by {
                    assert(entries@[a].0@ == old_entries[a].0@);
                    assert(entries@[b].0@ == old_entries[b].0@);
                }
            },
            None => {
                entries.push((key, value));
                assert forall|a: int, b: int|
                    0 <= a < entries@.len() && 0 <= b < entries@.len() && #[trigger] entries@[a].0@
                        == #[trigger] entries@[b].0@ implies a == b by {
                    if a < old_entries.len() {
                        assert(entries@[a] == old_entries[a]);
                    }
                    if b < old_entries.len() {
                        assert(entries@[b] == old_entries[b]);
                    }
                }
            },
        }
        self.entries = entries;
        proof {
            let target = old(self)@.insert(k, value);
            assert forall|w: Seq<char>| #[trigger] self@.contains_key(w) == target.contains_key(w) by {
                if old(self)@.contains_key(w) {
                    let j = choose|j: int| 0 <= j < old_entries.len() && #[trigger] old_entries[j].0@ == w;
                    assert(self.entries@[j].0@ == w);
                }
                if w == k {
                    match pos {
                        Some(i) => {
                            assert(self.entries@[i as int].0@ == w);
                        },
                        None => {
                            assert(self.entries@[old_entries.len() as int].0@ == w);
                        },
                    }
                }
                if self@.contains_key(w) && w != k {
                    let j = choose|j: int| 0 <= j < self.entries@.len() && #[trigger] self.entries@[j].0@ == w;
                    assert(j < old_entries.len());
                    assert(old_entries[j].0@ == w);
                }
            }
            assert forall|w: Seq<char>| self@.contains_key(w) implies #[trigger] self@[w] == target[w] by {
                let j = choose|j: int| 0 <= j < self.entries@.len() && #[trigger] self.entries@[j].0@ == w;
                if w == k {
                    match pos {
                        Some(i) => {
                            assert(self.entries@[i as int].0@ == w);
                        },
                        None => {
                            assert(self.entries@[old_entries.len() as int].0@ == w);
                        },
                    }
                } else {
                    assert(j < old_entries.len());
                    assert(old_entries[j].0@ == w);
                    let j0 = choose|j0: int| 0 <= j0 < old_entries.len() && #[trigger] old_entries[j0].0@ == w;
                    assert(self.entries@[j0].0@ == w);
                }
            }
            assert(self@ =~= target);
        }
    }

    /// Forget every entry.
    pub fn clear(&mut self)
        ensures
            final(self)@ == Map::<Seq<char>, V>::empty(),
    {
        self.entries = Vec::new();
        assert(self@ =~= Map::<Seq<char>, V>::empty());
    }

    /// The number of keys.
    pub fn len(&self) -> (r: usize)
        ensures
            self@.dom().finite(),
            r == self@.len(),
    {
        proof {
            use_type_invariant(self);
            let ks = self.keys();
            assert(ks.no_duplicates()) by {
                assert forall|i: int, j: int| 0 <= i < ks.len() && 0 <= j < ks.len() && i != j implies ks[i]
                    != ks[j] by {
                    assert(ks[i] == self.entries@[i].0@);
                    assert(ks[j] == self.entries@[j].0@);
                }
            }
            assert(self@.dom() =~= ks.to_set()) by {
                assert forall|w: Seq<char>| self@.dom().contains(w) <==> ks.to_set().contains(w) by {
                    if self@.dom().contains(w) {
                        let j = choose|j: int| 0 <= j < self.entries@.len() && #[trigger] self.entries@[j].0@ == w;
                        assert(ks[j] == w);
                    }
                    if ks.to_set().contains(w) {
                        let j = choose|j: int| 0 <= j < ks.len() && ks[j] == w;
                        assert(self.entries@[j].0@ == w);
                    }
                }
            }
            ks.unique_seq_to_set();
        }
        self.entries.len()
    }
}

} // verus!

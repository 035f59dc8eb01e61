//! A small map keyed by text, kept as a list of distinct keys.
use vstd::prelude::*;
use vstd::string::*;

verus! {

/// A map from text keys to values.
pub struct StrMap<V> {
    entries: Vec<(String, V)>,
}

impl<V: Copy> StrMap<V> {
    /// Whether some entry at or after position 0 has key `k`.
    pub closed spec fn has_key(&self, k: Seq<char>) -> bool {
        exists|i: int| 0 <= i < self.entries@.len() && (#[trigger] self.entries@[i]).0@ == k
    }

    /// The map the entries stand for.
    pub closed spec fn view(&self) -> Map<Seq<char>, V> {
        Map::new(
            |k: Seq<char>| self.has_key(k),
            |k: Seq<char>|
                self.entries@[choose|i: int|
                    0 <= i < self.entries@.len() && (#[trigger] self.entries@[i]).0@ == k].1,
        )
    }

    /// No key occurs twice.
    pub closed spec fn wf(&self) -> bool {
        forall|i: int, j: int|
            0 <= i < self.entries@.len() && 0 <= j < self.entries@.len() && i != j
                ==> (#[trigger] self.entries@[i]).0@ != (#[trigger] self.entries@[j]).0@
    }

    proof fn lemma_at(&self, i: int)
        requires
            self.wf(),
            0 <= i < self.entries@.len(),
        ensures
            self@.contains_key(self.entries@[i].0@),
            self@[self.entries@[i].0@] == self.entries@[i].1,
    {
        assert(self.has_key(self.entries@[i].0@));
    }

    /// The empty map.
    pub fn new() -> (m: Self)
        ensures
            m.wf(),
            m@ == Map::<Seq<char>, V>::empty(),
    {
        let m = StrMap { entries: Vec::new() };
        assert(m@ =~= Map::<Seq<char>, V>::empty());
        m
    }

    /// Position of `key`, if present.
    fn find(&self, key: &str) -> (r: Option<usize>)
        requires
            self.wf(),
        ensures
            r matches Some(i) ==> i < self.entries@.len() && self.entries@[i as int].0@ == key@,
            r is None ==> !self@.contains_key(key@),
    {
        let mut i: usize = 0;
        while i < self.entries.len()
            invariant
                i <= self.entries@.len(),
                forall|j: int| 0 <= j < i ==> (#[trigger] self.entries@[j]).0@ != key@,
            decreases self.entries@.len() - i,
        {
            if crate::text::same_text(self.entries[i].0.as_str(), key) {
                return Some(i);
            }
            i = i + 1;
        }
        None
    }

    /// The value stored under `key`.
    pub fn get(&self, key: &str) -> (r: Option<V>)
        requires
            self.wf(),
        ensures
            r == (if self@.contains_key(key@) {
                Some(self@[key@])
            } else {
                None::<V>
            }),
    {
        match self.find(key) {
            Some(i) => {
                proof {
                    self.lemma_at(i as int);
                }
                Some(self.entries[i].1)
            },
            None => None,
        }
    }

    /// Stores `value` under `key`, replacing what was there.
    pub fn insert(&mut self, key: String, value: V)
        requires
            old(self).wf(),
        ensures
            final(self).wf(),
            final(self)@ == old(self)@.insert(key@, value),
    {
        let ghost k = key@;
        match self.find(key.as_str()) {
            Some(i) => {
                self.entries.set(i, (key, value));
                proof {
                    assert forall|q: Seq<char>| #[trigger] self@.contains_key(q) implies old(
                        self,
                    )@.insert(k, value).contains_key(q) by {
                        let j = choose|j: int|
                            0 <= j < self.entries@.len() && (#[trigger] self.entries@[j]).0@ == q;
                        if j != i {
                            assert(old(self).entries@[j] == self.entries@[j]);
                            old(self).lemma_at(j);
                        }
                    }
                    assert forall|q: Seq<char>|
                        #[trigger] old(self)@.insert(k, value).contains_key(q) implies self@.contains_key(
                        q,
                    ) && self@[q] == old(self)@.insert(k, value)[q] by {
                        if q == k {
                            self.lemma_at(i as int);
                        } else {
                            let j = choose|j: int|
                                0 <= j < old(self).entries@.len() && (#[trigger] old(
                                    self,
                                ).entries@[j]).0@ == q;
                            assert(self.entries@[j] == old(self).entries@[j]);
                            self.lemma_at(j);
                            old(self).lemma_at(j);
                        }
                    }
                    assert(self@ =~= old(self)@.insert(k, value));
                }
            },
            None => {
                self.entries.push((key, value));
                proof {
                    let n = old(self).entries@.len() as int;
                    assert forall|q: Seq<char>| #[trigger] self@.contains_key(q) implies old(
                        self,
                    )@.insert(k, value).contains_key(q) by {
                        let j = choose|j: int|
                            0 <= j < self.entries@.len() && (#[trigger] self.entries@[j]).0@ == q;
                        if j != n {
                            assert(old(self).entries@[j] == self.entries@[j]);
                            old(self).lemma_at(j);
                        }
                    }
                    assert forall|q: Seq<char>|
                        #[trigger] old(self)@.insert(k, value).contains_key(q) implies self@.contains_key(
                        q,
                    ) && self@[q] == old(self)@.insert(k, value)[q] by {
                        if q == k {
                            self.lemma_at(n);
                        } else {
                            let j = choose|j: int|
                                0 <= j < old(self).entries@.len() && (#[trigger] old(
                                    self,
                                ).entries@[j]).0@ == q;
                            assert(self.entries@[j] == old(self).entries@[j]);
                            self.lemma_at(j);
                            old(self).lemma_at(j);
                        }
                    }
                    assert(self@ =~= old(self)@.insert(k, value));
                }
            },
        }
    }
}

} // verus!

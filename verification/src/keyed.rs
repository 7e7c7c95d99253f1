//! A small map from string keys to values, kept as two parallel vectors in
//! insertion order. No key occurs twice.

use vstd::prelude::*;
use vstd::string::StringExecFns;

verus! {

/// A map from text keys to values of type `V`.
pub struct KeyedStore<V> {
    keys: Vec<String>,
    values: Vec<V>,
}

impl<V> KeyedStore<V> {
    /// Both vectors have one length and the keys are pairwise distinct.
    pub closed spec fn wf(&self) -> bool {
        &&& self.keys.len() == self.values.len()
        &&& forall|i: int, j: int|
            0 <= i < j < self.keys.len() ==> self.keys[i]@ != self.keys[j]@
    }

    spec fn has(&self, k: Seq<char>) -> bool {
        exists|i: int| 0 <= i < self.keys.len() && #[trigger] self.keys[i]@ == k
    }

    spec fn index_of(&self, k: Seq<char>) -> int {
        choose|i: int| 0 <= i < self.keys.len() && #[trigger] self.keys[i]@ == k
    }

    /// The store as a mathematical map from key text to value.
    pub closed spec fn view(&self) -> Map<Seq<char>, V> {
        Map::new(|k: Seq<char>| self.has(k), |k: Seq<char>| self.values[self.index_of(k)])
    }

    proof fn lemma_slot(&self, i: int)
        requires
            self.wf(),
            0 <= i < self.keys.len(),
        ensures
            self.has(self.keys[i]@),
            self.index_of(self.keys[i]@) == i,
            self@.contains_key(self.keys[i]@),
            self@[self.keys[i]@] == self.values[i],
    {
        let k = self.keys[i]@;
        assert(0 <= i < self.keys.len() && self.keys[i]@ == k);
        let j = self.index_of(k);
        assert(0 <= j < self.keys.len() && self.keys[j]@ == k);
        if j < i {
            assert(self.keys[j]@ != self.keys[i]@);
        } else if i < j {
            assert(self.keys[i]@ != self.keys[j]@);
        }
    }

    /// A store without entries.
    pub fn new() -> (s: Self)
        ensures
            s.wf(),
            s@ == Map::<Seq<char>, V>::empty(),
    {
        let s = KeyedStore { keys: Vec::new(), values: Vec::new() };
        assert(s@ =~= Map::<Seq<char>, V>::empty());
        s
    }

    fn position(&self, key: &str) -> (r: Option<usize>)
        requires
            self.wf(),
        ensures
            match r {
                Some(i) => i < self.keys.len() && self.keys[i as int]@ == key@,
                None => !self.has(key@),
            },
    {
        let wanted = String::from_str(key);
        let mut i: usize = 0;
        while i < self.keys.len()
            invariant
                i <= self.keys.len(),
                wanted@ == key@,
                forall|j: int| 0 <= j < i ==> self.keys[j]@ != key@,
            decreases self.keys.len() - i,
        {
            if self.keys[i] == wanted {
                return Some(i);
            }
            i += 1;
        }
        None
    }

    /// Whether `key` is bound.
    pub fn contains(&self, key: &str) -> (b: bool)
        requires
            self.wf(),
        ensures
            b == self@.contains_key(key@),
    {
        match self.position(key) {
            Some(i) => {
                proof {
                    self.lemma_slot(i as int);
                }
                true
            },
            None => false,
        }
    }

    /// The value that `key` is bound to, if it is bound.
    pub fn get(&self, key: &str) -> (r: Option<&V>)
        requires
            self.wf(),
        ensures
            match r {
                Some(v) => self@.contains_key(key@) && *v == self@[key@],
                None => !self@.contains_key(key@),
            },
    {
        match self.position(key) {
            Some(i) => {
                proof {
                    self.lemma_slot(i as int);
                }
                Some(&self.values[i])
            },
            None => None,
        }
    }

    /// Binds `key` to `value`, replacing what the key was bound to before.
    pub fn insert(&mut self, key: &str, value: V)
        requires
            old(self).wf(),
        ensures
            final(self).wf(),
            final(self)@ == old(self)@.insert(key@, value),
    {
        let found = self.position(key);
        match found {
            Some(i) => {
                self.values.set(i, value);
                proof {
                    let before = *old(self);
                    let after = *self;
                    assert(after.keys == before.keys);
                    assert(after.wf());
                    assert forall|k: Seq<char>| after.has(k) == before.has(k) by {}
                    assert forall|k: Seq<char>| after.index_of(k) == before.index_of(k) by {}
                    before.lemma_slot(i as int);
                    after.lemma_slot(i as int);
                    assert forall|k: Seq<char>| #[trigger]
                        before@.insert(key@, value).contains_key(k) implies after@[k]
                        == before@.insert(key@, value)[k] by {
                        if k != key@ {
                            let j = before.index_of(k);
                            assert(before.has(k));
                            assert(j != i);
                        }
                    }
                    assert(after@ =~= before@.insert(key@, value));
                }
            },
            None => {
                let owned = String::from_str(key);
                self.keys.push(owned);
                self.values.push(value);
                proof {
                    let before = *old(self);
                    let after = *self;
                    let n = before.keys.len() as int;
                    assert(after.keys@ == before.keys@.push(owned));
                    assert(after.values@ == before.values@.push(value));
                    assert forall|i: int, j: int| 0 <= i < j < after.keys.len() implies
                        after.keys[i]@ != after.keys[j]@ by {
                        if j == n {
                            if after.keys[i]@ == key@ {
                                assert(before.keys[i]@ == key@);
                                assert(before.has(key@));
                            }
                        } else {
                            assert(before.keys[i]@ != before.keys[j]@);
                        }
                    }
                    assert(after.wf());
                    after.lemma_slot(n);
                    assert forall|k: Seq<char>| after.has(k) == (before.has(k) || k == key@) by {
                        if before.has(k) {
                            let j = before.index_of(k);
                            assert(after.keys[j]@ == k);
                        }
                        if after.has(k) && k != key@ {
                            let j = after.index_of(k);
                            assert(j != n);
                            assert(before.keys[j]@ == k);
                        }
                    }
                    assert forall|k: Seq<char>| #[trigger]
                        before@.insert(key@, value).contains_key(k) implies after@[k]
                        == before@.insert(key@, value)[k] by {
                        if k != key@ {
                            let j = before.index_of(k);
                            assert(before.has(k));
                            assert(after.keys[j]@ == k);
                            after.lemma_slot(j);
                        }
                    }
                    assert(after@ =~= before@.insert(key@, value));
                }
            },
        }
    }

    /// Unbinds `key`; a key that is not bound leaves the store as it was.
    pub fn remove(&mut self, key: &str)
        requires
            old(self).wf(),
        ensures
            final(self).wf(),
            final(self)@ == old(self)@.remove(key@),
    {
        let found = self.position(key);
        match found {
            Some(i) => {
                self.keys.remove(i);
                self.values.remove(i);
                proof {
                    let before = *old(self);
                    let after = *self;
                    let p = i as int;
                    assert(after.keys@ == before.keys@.remove(p));
                    assert(after.values@ == before.values@.remove(p));
                    assert forall|a: int, b: int| 0 <= a < b < after.keys.len() implies
                        after.keys[a]@ != after.keys[b]@ by {
                        let a0 = if a < p { a } else { a + 1 };
                        let b0 = if b < p { b } else { b + 1 };
                        assert(before.keys[a0]@ != before.keys[b0]@);
                    }
                    assert(after.wf());
                    before.lemma_slot(p);
                    assert forall|k: Seq<char>| after.has(k) == (before.has(k) && k != key@) by {
                        if after.has(k) {
                            let j = after.index_of(k);
                            let j0 = if j < p { j } else { j + 1 };
                            assert(before.keys[j0]@ == k);
                            before.lemma_slot(j0);
                        }
                        if before.has(k) && k != key@ {
                            let j = before.index_of(k);
                            let j1 = if j < p { j } else { j - 1 };
                            assert(after.keys[j1]@ == k);
                        }
                    }
                    assert forall|k: Seq<char>| #[trigger]
                        before@.remove(key@).contains_key(k) implies after@[k] == before@.remove(
                        key@,
                    )[k] by {
                        let j = before.index_of(k);
                        assert(before.has(k));
                        before.lemma_slot(j);
                        let j1 = if j < p { j } else { j - 1 };
                        assert(after.keys[j1]@ == k);
                        after.lemma_slot(j1);
                    }
                    assert(after@ =~= before@.remove(key@));
                }
            },
            None => {
                assert(self@ =~= old(self)@.remove(key@));
            },
        }
    }
}

} // verus!

//! A map with string keys, verified down to its list of entries.

use vstd::prelude::*;

verus! {

/// A map from strings to values, kept as a list of distinct keys with one
/// value each. Which key was inserted first cannot be observed: the map is
/// known to its users only through its view.
pub struct StrMap<V> {
    keys: Vec<String>,
    values: Vec<V>,
}

impl<V> View for StrMap<V> {
    type V = Map<Seq<char>, V>;

    closed spec fn view(&self) -> Map<Seq<char>, V> {
        Map::new(|k: Seq<char>| self.has_key(k), |k: Seq<char>| self.values@[self.index_of(k)])
    }
}

impl<V> StrMap<V> {
    spec fn key_at(&self, i: int) -> Seq<char> {
        self.keys@[i]@
    }

    spec fn has_key_below(&self, k: Seq<char>, n: int) -> bool {
        exists|i: int| 0 <= i < n && #[trigger] self.key_at(i) == k
    }

    spec fn has_key(&self, k: Seq<char>) -> bool {
        self.has_key_below(k, self.keys@.len() as int)
    }

    spec fn index_of(&self, k: Seq<char>) -> int {
        choose|i: int| 0 <= i < self.keys@.len() && #[trigger] self.key_at(i) == k
    }

    /// The keys are distinct and each has its value.
    pub closed spec fn wf(&self) -> bool {
        &&& self.keys@.len() == self.values@.len()
        &&& forall|i: int, j: int|
            0 <= i < j < self.keys@.len() ==> #[trigger] self.key_at(i) != #[trigger] self.key_at(
                j,
            )
    }

    proof fn lemma_at(&self, i: int)
        requires
            self.wf(),
            0 <= i < self.keys@.len(),
        ensures
            self@.contains_key(self.key_at(i)),
            self@[self.key_at(i)] == self.values@[i],
            self.index_of(self.key_at(i)) == i,
    {
        let k = self.key_at(i);
        assert(self.has_key(k));
        let j = self.index_of(k);
        assert(self.key_at(j) == k);
        if j < i {
            assert(self.key_at(j) != self.key_at(i));
        } else if i < j {
            assert(self.key_at(i) != self.key_at(j));
        }
    }

    proof fn lemma_keys_below_finite(&self, n: int)
        requires
            0 <= n <= self.keys@.len(),
        ensures
            Set::new(|k: Seq<char>| self.has_key_below(k, n)).finite(),
        decreases n,
    {
        let s = Set::new(|k: Seq<char>| self.has_key_below(k, n));
        if n == 0 {
            assert(s =~= Set::<Seq<char>>::empty());
        } else {
            self.lemma_keys_below_finite(n - 1);
            let t = Set::new(|k: Seq<char>| self.has_key_below(k, n - 1));
            assert forall|k: Seq<char>| s.contains(k) <==> t.insert(self.key_at(n - 1)).contains(
                k,
            ) by {
                if self.has_key_below(k, n) {
                    let i = choose|i: int| 0 <= i < n && #[trigger] self.key_at(i) == k;
                    if i < n - 1 {
                        assert(self.has_key_below(k, n - 1));
                    }
                }
                if self.has_key_below(k, n - 1) {
                    let i = choose|i: int| 0 <= i < n - 1 && #[trigger] self.key_at(i) == k;
                    assert(0 <= i < n && self.key_at(i) == k);
                }
                if k == self.key_at(n - 1) {
                    assert(0 <= n - 1 < n && self.key_at(n - 1) == k);
                }
            }
            assert(s =~= t.insert(self.key_at(n - 1)));
        }
    }

    /// A map holds finitely many keys.
    pub proof fn lemma_finite(&self)
        ensures
            self@.dom().finite(),
    {
        self.lemma_keys_below_finite(self.keys@.len() as int);
        assert(self@.dom() =~= Set::new(
            |k: Seq<char>| self.has_key_below(k, self.keys@.len() as int),
        ));
    }

    /// The keys in the order in which [`StrMap::entry`] hands them out.
    pub closed spec fn keys(&self) -> Seq<Seq<char>> {
        Seq::new(self.keys@.len(), |i: int| self.key_at(i))
    }

    /// The keys are listed once each, and they are the keys of the view.
    pub proof fn lemma_keys(&self)
        requires
            self.wf(),
        ensures
            self.keys().no_duplicates(),
            self.keys().to_set() == self@.dom(),
            self.keys().len() == self@.dom().len(),
            self@.dom().finite(),
    {
        let keys = self.keys();
        assert forall|k: Seq<char>| keys.to_set().contains(k) <==> self@.dom().contains(k) by {
            if keys.contains(k) {
                let i = choose|i: int| 0 <= i < keys.len() && keys[i] == k;
                assert(self.key_at(i) == k);
            }
            if self.has_key(k) {
                let i = self.index_of(k);
                assert(keys[i] == k);
            }
        }
        assert(keys.to_set() =~= self@.dom());
        keys.unique_seq_to_set();
        self.lemma_finite();
    }

    /// The empty map.
    pub fn new() -> (m: Self)
        ensures
            m.wf(),
            m@ == Map::<Seq<char>, V>::empty(),
    {
        let m = StrMap { keys: Vec::new(), values: Vec::new() };
        assert(m@ =~= Map::<Seq<char>, V>::empty());
        m
    }

    fn find(&self, key: &String) -> (r: Option<usize>)
        requires
            self.wf(),
        ensures
            match r {
                Some(i) => i < self.keys@.len() && self.key_at(i as int) == key@,
                None => !self@.contains_key(key@),
            },
    {
        let mut i: usize = 0;
        while i < self.keys.len()
            invariant
                i <= self.keys@.len(),
                forall|j: int| 0 <= j < i ==> #[trigger] self.key_at(j) != key@,
            decreases self.keys@.len() - i,
        {
            if self.keys[i] == *key {
                return Some(i);
            }
            i = i + 1;
        }
        None
    }

    /// Whether `key` has a value.
    pub fn contains_key(&self, key: &String) -> (r: bool)
        requires
            self.wf(),
        ensures
            r == self@.contains_key(key@),
    {
        match self.find(key) {
            Some(i) => {
                proof {
                    self.lemma_at(i as int);
                }
                true
            },
            None => false,
        }
    }

    /// The value of `key`, if it has one.
    pub fn get(&self, key: &String) -> (r: Option<&V>)
        requires
            self.wf(),
        ensures
            match r {
                Some(v) => self@.contains_key(key@) && *v == self@[key@],
                None => !self@.contains_key(key@),
            },
    {
        match self.find(key) {
            Some(i) => {
                proof {
                    self.lemma_at(i as int);
                }
                Some(&self.values[i])
            },
            None => None,
        }
    }

    /// The number of keys.
    pub fn len(&self) -> (n: usize)
        requires
            self.wf(),
        ensures
            n == self.keys().len(),
            n == self@.dom().len(),
    {
        proof {
            self.lemma_keys();
        }
        self.keys.len()
    }

    /// The key at position `i` and its value. Walking the positions from
    /// zero to [`StrMap::len`] visits every key once.
    pub fn entry(&self, i: usize) -> (e: (&String, &V))
        requires
            self.wf(),
            i < self.keys().len(),
        ensures
            e.0@ == self.keys()[i as int],
            self@.contains_key(e.0@),
            *e.1 == self@[e.0@],
    {
        proof {
            self.lemma_at(i as int);
        }
        (&self.keys[i], &self.values[i])
    }

    /// Gives `key` the value `value`, whether or not it had one.
    pub fn insert(&mut self, key: String, value: V)
        requires
            old(self).wf(),
        ensures
            final(self).wf(),
            final(self)@ == old(self)@.insert(key@, value),
    {
        let _ = self.remove(&key);
        let ghost mid = *self;
        self.keys.push(key);
        self.values.push(value);
        proof {
            let n = mid.keys@.len() as int;
            assert forall|i: int| 0 <= i < n implies #[trigger] self.key_at(i) == mid.key_at(
                i,
            ) && self.key_at(i) != key@ by {
                mid.lemma_at(i);
            }
            assert(self.key_at(n) == key@);
            assert(self.wf());
            assert forall|k: Seq<char>| #[trigger]
                self@.contains_key(k) <==> (k == key@ || mid@.contains_key(k)) by {
                if mid.has_key(k) {
                    let i = mid.index_of(k);
                    assert(self.key_at(i) == k);
                }
                if self.has_key(k) {
                    let i = self.index_of(k);
                    if i < n {
                        assert(mid.key_at(i) == k);
                    }
                }
            }
            assert forall|k: Seq<char>| #[trigger]
                self@.contains_key(k) implies self@[k] == mid@.insert(key@, value)[k] by {
                let i = self.index_of(k);
                self.lemma_at(i);
                if i < n {
                    mid.lemma_at(i);
                }
            }
            assert(self@ =~= mid@.insert(key@, value));
            assert(mid@.insert(key@, value) =~= old(self)@.insert(key@, value));
        }
    }

    /// Takes `key` and its value out of the map.
    pub fn remove(&mut self, key: &String) -> (r: Option<V>)
        requires
            old(self).wf(),
        ensures
            final(self).wf(),
            final(self)@ == old(self)@.remove(key@),
            match r {
                Some(v) => old(self)@.contains_key(key@) && v == old(self)@[key@],
                None => !old(self)@.contains_key(key@),
            },
    {
        match self.find(key) {
            Some(i) => {
                let ghost before = *self;
                proof {
                    before.lemma_at(i as int);
                }
                let _ = self.keys.remove(i);
                let v = self.values.remove(i);
                proof {
                    let n = before.keys@.len() as int;
                    assert forall|j: int| 0 <= j < n - 1 implies #[trigger] self.key_at(j) == (
                    if j < i {
                        before.key_at(j)
                    } else {
                        before.key_at(j + 1)
                    }) by {}
                    assert forall|a: int, b: int| 0 <= a < b < n - 1 implies #[trigger]
                        self.key_at(a) != #[trigger] self.key_at(b) by {
                        let a1 = if a < i {
                            a
                        } else {
                            a + 1
                        };
                        let b1 = if b < i {
                            b
                        } else {
                            b + 1
                        };
                        assert(before.key_at(a1) != before.key_at(b1));
                    }
                    assert(self.wf());
                    assert forall|k: Seq<char>| #[trigger]
                        self@.contains_key(k) <==> (k != key@ && before@.contains_key(k)) by {
                        if self.has_key(k) {
                            let j = self.index_of(k);
                            let j1 = if j < i {
                                j
                            } else {
                                j + 1
                            };
                            assert(before.key_at(j1) == k);
                            if j1 < i {
                                assert(before.key_at(j1) != before.key_at(i as int));
                            } else {
                                assert(before.key_at(i as int) != before.key_at(j1));
                            }
                        }
                        if k != key@ && before.has_key(k) {
                            let j = before.index_of(k);
                            let j0 = if j < i {
                                j
                            } else {
                                j - 1
                            };
                            assert(self.key_at(j0) == k);
                        }
                    }
                    assert forall|k: Seq<char>| #[trigger]
                        self@.contains_key(k) implies self@[k] == before@[k] by {
                        let j = self.index_of(k);
                        self.lemma_at(j);
                        let j1 = if j < i {
                            j
                        } else {
                            j + 1
                        };
                        before.lemma_at(j1);
                    }
                    assert(self@ =~= before@.remove(key@));
                }
                Some(v)
            },
            None => {
                assert(self@ =~= self@.remove(key@));
                None
            },
        }
    }
}

} // verus!

//! A small map from identifiers to values that keeps the order of insertion.
use vstd::prelude::*;

verus! {

/// Values keyed by identifier. No identifier occurs twice, and an
/// identifier keeps the place at which it was first inserted.
#[derive(Debug, Clone)]
pub struct Table<T> {
    pub keys: Vec<String>,
    pub values: Vec<T>,
}

impl<T> Table<T> {
    /// One value per key, and no key twice.
    pub open spec fn wf(self) -> bool {
        &&& self.keys@.len() == self.values@.len()
        &&& forall|i: int, j: int|
            0 <= i < j < self.keys@.len() ==> (#[trigger] self.keys@[i])@ != (
            #[trigger] self.keys@[j])@
    }

    /// Whether the `i`-th key is `key`.
    pub open spec fn key_is(self, i: int, key: Seq<char>) -> bool {
        0 <= i < self.keys@.len() && self.keys@[i]@ == key
    }

    /// Whether `key` has a value.
    pub open spec fn has(self, key: Seq<char>) -> bool {
        exists|i: int| self.key_is(i, key)
    }

    /// The place of `key`.
    pub open spec fn place(self, key: Seq<char>) -> int {
        choose|i: int| self.key_is(i, key)
    }

    /// The value of `key`.
    pub open spec fn at(self, key: Seq<char>) -> T {
        self.values@[self.place(key)]
    }

    /// The table as a map.
    pub open spec fn view(self) -> Map<Seq<char>, T> {
        Map::new(|key: Seq<char>| self.has(key), |key: Seq<char>| self.at(key))
    }

    /// The key at place `i` has the value at place `i`.
    pub proof fn lemma_place(self, i: int)
        requires
            self.wf(),
            0 <= i < self.keys@.len(),
        ensures
            self.has(self.keys@[i]@),
            self.place(self.keys@[i]@) == i,
            self.at(self.keys@[i]@) == self.values@[i],
    {
        let key = self.keys@[i]@;
        assert(self.key_is(i, key));
        let p = self.place(key);
        assert(self.key_is(p, key));
        if p < i {
            assert(self.keys@[p]@ != self.keys@[i]@);
        } else if i < p {
            assert(self.keys@[i]@ != self.keys@[p]@);
        }
    }

    /// A table without entries.
    pub fn new() -> (t: Table<T>)
        ensures
            t.wf(),
            t@ == Map::<Seq<char>, T>::empty(),
            t.keys@.len() == 0,
    {
        let t = Table { keys: Vec::new(), values: Vec::new() };
        proof {
            assert forall|key: Seq<char>| !t.has(key) by {
                if t.has(key) {
                    let i = choose|i: int| t.key_is(i, key);
                    assert(t.key_is(i, key));
                }
            }
            assert(t@ =~= Map::<Seq<char>, T>::empty());
        }
        t
    }

    /// The number of entries.
    pub fn len(&self) -> (n: usize)
        requires
            self.wf(),
        ensures
            n == self.keys@.len(),
    {
        self.keys.len()
    }

    /// The place of `key`, if it has a value.
    pub fn find(&self, key: &str) -> (r: Option<usize>)
        requires
            self.wf(),
        ensures
            match r {
                Some(i) => self.key_is(i as int, key@) && self.place(key@) == i,
                None => !self.has(key@),
            },
    {
        let mut i: usize = 0;
        while i < self.keys.len()
            invariant
                self.wf(),
                i <= self.keys@.len(),
                forall|j: int| 0 <= j < i ==> !self.key_is(j, key@),
            decreases self.keys@.len() - i,
        {
            let candidate = key.to_owned();
            if self.keys[i] == candidate {
                proof {
                    self.lemma_place(i as int);
                }
                return Some(i);
            }
            i += 1;
        }
        proof {
            if self.has(key@) {
                let j = choose|j: int| self.key_is(j, key@);
                assert(self.key_is(j, key@));
            }
        }
        None
    }

    /// The value of `key`.
    pub fn get(&self, key: &str) -> (r: Option<&T>)
        requires
            self.wf(),
        ensures
            match r {
                Some(v) => self@.contains_key(key@) && *v == self@[key@],
                None => !self@.contains_key(key@),
            },
    {
        match self.find(key) {
            Some(i) => Some(&self.values[i]),
            None => None,
        }
    }

    /// The key at place `i`.
    pub fn key(&self, i: usize) -> (k: &String)
        requires
            self.wf(),
            i < self.keys@.len(),
        ensures
            *k == self.keys@[i as int],
            self@.contains_key(k@),
    {
        proof {
            self.lemma_place(i as int);
        }
        &self.keys[i]
    }

    /// The value at place `i`.
    pub fn value(&self, i: usize) -> (v: &T)
        requires
            self.wf(),
            i < self.keys@.len(),
        ensures
            *v == self.values@[i as int],
            *v == self@[self.keys@[i as int]@],
    {
        proof {
            self.lemma_place(i as int);
        }
        &self.values[i]
    }

    /// Gives `key` the value `value`, in place of the one it had.
    pub fn insert(&mut self, key: String, value: T)
        requires
            old(self).wf(),
        ensures
            final(self).wf(),
            final(self)@ == old(self)@.insert(key@, value),
            old(self).has(key@) ==> final(self).keys@ == old(self).keys@,
            !old(self).has(key@) ==> final(self).keys@ == old(self).keys@.push(key),
    {
        let ghost before = *self;
        match self.find(key.as_str()) {
            Some(i) => {
                self.values.set(i, value);
                proof {
                    let after = *self;
                    assert forall|k: Seq<char>| after.has(k) == before.has(k) by {
                        if after.has(k) {
                            let j = choose|j: int| after.key_is(j, k);
                            assert(before.key_is(j, k));
                        }
                        if before.has(k) {
                            let j = choose|j: int| before.key_is(j, k);
                            assert(after.key_is(j, k));
                        }
                    }
                    assert forall|k: Seq<char>| after.has(k) implies after.at(k) == before@.insert(
                        key@,
                        value,
                    )[k] by {
                        let j = choose|j: int| after.key_is(j, k);
                        assert(after.key_is(j, k));
                        after.lemma_place(j);
                        before.lemma_place(j);
                        before.lemma_place(i as int);
                    }
                    assert(after@ =~= before@.insert(key@, value));
                }
            },
            None => {
                self.keys.push(key);
                self.values.push(value);
                proof {
                    let after = *self;
                    let n = before.keys@.len() as int;
                    assert forall|a: int, b: int| 0 <= a < b < after.keys@.len() implies (
                    #[trigger] after.keys@[a])@ != (#[trigger] after.keys@[b])@ by {
                        if b == n {
                            assert(!before.key_is(a, key@));
                        } else {
                            assert(before.keys@[a]@ != before.keys@[b]@);
                        }
                    }
                    assert(after.key_is(n, key@));
                    assert forall|k: Seq<char>| after.has(k) == (before.has(k) || k == key@) by {
                        if after.has(k) {
                            let j = choose|j: int| after.key_is(j, k);
                            if j < n {
                                assert(before.key_is(j, k));
                            }
                        }
                        if before.has(k) {
                            let j = choose|j: int| before.key_is(j, k);
                            assert(after.key_is(j, k));
                        }
                    }
                    assert forall|k: Seq<char>| after.has(k) implies after.at(k) == before@.insert(
                        key@,
                        value,
                    )[k] by {
                        let j = choose|j: int| after.key_is(j, k);
                        assert(after.key_is(j, k));
                        after.lemma_place(j);
                        if j < n {
                            assert(before.key_is(j, k));
                            before.lemma_place(j);
                        }
                    }
                    assert(after@ =~= before@.insert(key@, value));
                }
            },
        }
    }
}

} // verus!

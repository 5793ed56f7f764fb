//! A small keyed store, modelled as a map.
use vstd::prelude::*;

verus! {

/// A value that can be copied without changing what it stands for.
pub trait Stored: View + Sized {
    fn duplicate(&self) -> (copy: Self)
        ensures
            copy@ == self@,
    ;
}

/// A value by which records are found again.
pub trait Key: Stored {
    fn same(&self, other: &Self) -> (equal: bool)
        ensures
            equal == (self@ == other@),
    ;
}

impl Stored for u64 {
    fn duplicate(&self) -> (copy: u64) {
        *self
    }
}

/// Records under distinct keys, in the order in which their keys first came.
pub struct Table<K, V> {
    keys: Vec<K>,
    values: Vec<V>,
}

impl<K: Key, V: Stored> View for Table<K, V> {
    type V = Map<K::V, V::V>;

    closed spec fn view(&self) -> Map<K::V, V::V> {
        Map::new(|k: K::V| self.holds(k), |k: K::V| self.values[self.slot(k)]@)
    }
}

impl<K: Key, V: Stored> Table<K, V> {
    /// Every key has one value and occurs once.
    pub closed spec fn wf(&self) -> bool {
        &&& self.keys.len() == self.values.len()
        &&& forall|i: int, j: int|
            0 <= i < j < self.keys.len() ==> (#[trigger] self.keys[i])@ != (#[trigger] self.keys[j])@
    }

    spec fn holds(&self, k: K::V) -> bool {
        exists|i: int| 0 <= i < self.keys.len() && (#[trigger] self.keys[i])@ == k
    }

    spec fn slot(&self, k: K::V) -> int {
        choose|i: int| 0 <= i < self.keys.len() && (#[trigger] self.keys[i])@ == k
    }

    proof fn lemma_slot(&self, i: int)
        requires
            self.wf(),
            0 <= i < self.keys.len(),
        ensures
            self.holds(self.keys[i]@),
            self.slot(self.keys[i]@) == i,
    {
        let k = self.keys[i]@;
        let j = self.slot(k);
        assert(0 <= j < self.keys.len() && self.keys[j]@ == k);
        if j < i {
            assert(self.keys[j]@ != self.keys[i]@);
        }
        if i < j {
            assert(self.keys[i]@ != self.keys[j]@);
        }
    }

    pub fn new() -> (table: Self)
        ensures
            table.wf(),
            table@ == Map::<K::V, V::V>::empty(),
    {
        let table = Table { keys: Vec::new(), values: Vec::new() };
        assert(table@ =~= Map::<K::V, V::V>::empty());
        table
    }

    fn position(&self, key: &K) -> (found: Option<usize>)
        requires
            self.wf(),
        ensures
            match found {
                Some(i) => i < self.keys.len() && self.keys[i as int]@ == key@,
                None => !self.holds(key@),
            },
    {
        let mut i: usize = 0;
        while i < self.keys.len()
            invariant
                i <= self.keys.len(),
                forall|j: int| 0 <= j < i ==> (#[trigger] self.keys[j])@ != key@,
            decreases self.keys.len() - i,
        {
            if self.keys[i].same(key) {
                return Some(i);
            }
            i += 1;
        }
        None
    }

    /// Whether a record stands under `key`.
    pub fn contains(&self, key: &K) -> (present: bool)
        requires
            self.wf(),
        ensures
            present == self@.contains_key(key@),
    {
        match self.position(key) {
            Some(i) => {
                proof {
                    self.lemma_slot(i as int);
                }
                true
            },
            None => false,
        }
    }

    /// The record under `key`, if there is one.
    pub fn get(&self, key: &K) -> (found: Option<&V>)
        requires
            self.wf(),
        ensures
            match found {
                Some(value) => self@.contains_key(key@) && self@[key@] == value@,
                None => !self@.contains_key(key@),
            },
    {
        match self.position(key) {
            Some(i) => {
                proof {
                    self.lemma_slot(i as int);
                }
                Some(&self.values[i])
            },
            None => None,
        }
    }

    /// Stores `value` under `key`, in place of what stood there.
    pub fn put(&mut self, key: K, value: V)
        requires
            old(self).wf(),
        ensures
            final(self).wf(),
            final(self)@ == old(self)@.insert(key@, value@),
    {
        let ghost before = *self;
        match self.position(&key) {
            Some(i) => {
                self.values.set(i, value);
                proof {
                    assert(self.keys == before.keys);
                    assert forall|k: K::V| self.holds(k) == before.holds(k) by {}
                    before.lemma_slot(i as int);
                    assert(self@ =~= before@.insert(key@, value@)) by {
                        assert forall|k: K::V| #[trigger] self@.contains_key(k) implies self@[k]
                            == before@.insert(key@, value@)[k] by {
                            let j = before.slot(k);
                            assert(self.slot(k) == j);
                        }
                    }
                }
            },
            None => {
                self.keys.push(key);
                self.values.push(value);
                proof {
                    let n = before.keys.len() as int;
                    assert(self.wf()) by {
                        assert forall|i: int, j: int| 0 <= i < j < self.keys.len() implies (
                        #[trigger] self.keys[i])@ != (#[trigger] self.keys[j])@ by {
                            if j < n {
                                assert(before.keys[i]@ != before.keys[j]@);
                            } else {
                                assert(before.keys[i]@ != key@);
                            }
                        }
                    }
                    self.lemma_slot(n);
                    assert forall|k: K::V| self.holds(k) == (before.holds(k) || k == key@) by {
                        if before.holds(k) {
                            let j = before.slot(k);
                            assert(self.keys[j]@ == k);
                        }
                        if self.holds(k) && k != key@ {
                            let j = self.slot(k);
                            assert(before.keys[j]@ == k);
                        }
                    }
                    assert(self@ =~= before@.insert(key@, value@)) by {
                        assert forall|k: K::V| #[trigger]
                            self@.contains_key(k) && k != key@ implies self@[k] == before@[k] by {
                            let j = before.slot(k);
                            assert(before.keys[j]@ == k);
                            assert(self.keys[j]@ == k);
                            self.lemma_slot(j);
                        }
                    }
                }
            },
        }
    }

    /// A copy that stands for the same map.
    pub fn snapshot(&self) -> (copy: Self)
        requires
            self.wf(),
        ensures
            copy.wf(),
            copy@ == self@,
    {
        let mut copy: Self = Table { keys: Vec::new(), values: Vec::new() };
        let mut i: usize = 0;
        while i < self.keys.len()
            invariant
                self.wf(),
                i <= self.keys.len(),
                copy.keys.len() == i,
                copy.values.len() == i,
                forall|j: int| 0 <= j < i ==> (#[trigger] copy.keys[j])@ == self.keys[j]@,
                forall|j: int| 0 <= j < i ==> (#[trigger] copy.values[j])@ == self.values[j]@,
            decreases self.keys.len() - i,
        {
            copy.keys.push(self.keys[i].duplicate());
            copy.values.push(self.values[i].duplicate());
            i += 1;
        }
        proof {
            assert(copy.wf()) by {
                assert forall|a: int, b: int| 0 <= a < b < copy.keys.len() implies (
                #[trigger] copy.keys[a])@ != (#[trigger] copy.keys[b])@ by {
                    assert(self.keys[a]@ != self.keys[b]@);
                }
            }
            assert forall|k: K::V| copy.holds(k) == self.holds(k) by {
                if copy.holds(k) {
                    let j = copy.slot(k);
                    assert(self.keys[j]@ == k);
                }
                if self.holds(k) {
                    let j = self.slot(k);
                    assert(copy.keys[j]@ == k);
                }
            }
            assert(copy@ =~= self@) by {
                assert forall|k: K::V| #[trigger] self@.contains_key(k) implies copy@[k]
                    == self@[k] by {
                    let j = self.slot(k);
                    assert(copy.keys[j]@ == k);
                    copy.lemma_slot(j);
                }
            }
        }
        copy
    }
}


} // verus!

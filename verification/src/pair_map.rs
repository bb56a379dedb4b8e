//! A map whose keys are pairs of texts.

use vstd::prelude::*;
use crate::text::text_eq;

verus! {

/// A key made of two texts.
#[derive(Debug)]
pub struct PairKey {
    pub first: String,
    pub second: String,
}

impl PairKey {
    pub open spec fn view(self) -> (Seq<char>, Seq<char>) {
        (self.first@, self.second@)
    }
}

/// A map from pairs of texts to values. No key occurs twice.
#[derive(Debug)]
pub struct PairMap<V> {
    pub entries: Vec<(PairKey, V)>,
}

pub open spec fn distinct_keys<V>(entries: Seq<(PairKey, V)>) -> bool {
    forall|i: int, j: int|
        0 <= i < j < entries.len() ==> (#[trigger] entries[i]).0@ != (#[trigger] entries[j]).0@
}

pub open spec fn pair_index<V>(entries: Seq<(PairKey, V)>, key: (Seq<char>, Seq<char>)) -> int {
    choose|i: int| 0 <= i < entries.len() && (#[trigger] entries[i]).0@ == key
}

pub open spec fn holds_pair<V>(entries: Seq<(PairKey, V)>, key: (Seq<char>, Seq<char>)) -> bool {
    exists|i: int| 0 <= i < entries.len() && (#[trigger] entries[i]).0@ == key
}

impl<V> PairMap<V> {
    pub open spec fn wf(self) -> bool {
        distinct_keys(self.entries@)
    }

    pub open spec fn view(self) -> Map<(Seq<char>, Seq<char>), V> {
        Map::new(
            |k: (Seq<char>, Seq<char>)| holds_pair(self.entries@, k),
            |k: (Seq<char>, Seq<char>)| self.entries@[pair_index(self.entries@, k)].1,
        )
    }

    pub proof fn lemma_entry(self, i: int)
        requires
            self.wf(),
            0 <= i < self.entries@.len(),
        ensures
            self@.contains_key(self.entries@[i].0@),
            self@[self.entries@[i].0@] == self.entries@[i].1,
    {
        let k = self.entries@[i].0@;
        let j = pair_index(self.entries@, k);
        assert(holds_pair(self.entries@, k));
        assert(i == j) by {
            if i < j {
                assert(self.entries@[i].0@ != self.entries@[j].0@);
            } else if j < i {
                assert(self.entries@[j].0@ != self.entries@[i].0@);
            }
        }
    }

    pub fn new() -> (r: Self)
        ensures
            r.wf(),
            r@ == Map::<(Seq<char>, Seq<char>), V>::empty(),
    {
        let r = PairMap { entries: Vec::new() };
        assert(r@ =~= Map::empty());
        r
    }

    /// The index of a key, if it is there.
    pub fn locate(&self, first: &str, second: &str) -> (r: Option<usize>)
        ensures
            match r {
                Some(i) => i < self.entries@.len() && self.entries@[i as int].0@ == (
                    first@,
                    second@,
                ),
                None => !self@.contains_key((first@, second@)),
            },
    {
        let mut i: usize = 0;
        while i < self.entries.len()
            invariant
                i <= self.entries@.len(),
                forall|j: int|
                    0 <= j < i ==> (#[trigger] self.entries@[j]).0@ != (first@, second@),
            decreases self.entries@.len() - i,
        {
            if text_eq(self.entries[i].0.first.as_str(), first) && text_eq(
                self.entries[i].0.second.as_str(),
                second,
            ) {
                return Some(i);
            }
            i += 1;
        }
        None
    }

    pub fn get(&self, first: &str, second: &str) -> (r: Option<&V>)
        requires
            self.wf(),
        ensures
            match r {
                Some(v) => self@.contains_key((first@, second@)) && *v == self@[(first@, second@)],
                None => !self@.contains_key((first@, second@)),
            },
    {
        match self.locate(first, second) {
            Some(i) => {
                proof {
                    self.lemma_entry(i as int);
                }
                Some(&self.entries[i].1)
            },
            None => None,
        }
    }

    pub fn insert(&mut self, first: &str, second: &str, value: V)
        requires
            old(self).wf(),
        ensures
            final(self).wf(),
            final(self)@ == old(self)@.insert((first@, second@), value),
    {
        let ghost before = *self;
        let ghost key = (first@, second@);
        let entry: (PairKey, V) = (
            PairKey { first: first.to_owned(), second: second.to_owned() },
            value,
        );
        match self.locate(first, second) {
            Some(i) => {
                self.entries.set(i, entry);
                proof {
                    let now = *self;
                    assert(now.wf());
                    assert forall|k: (Seq<char>, Seq<char>)| now@.contains_key(k)
                        == before@.insert(key, value).contains_key(k) by {
                        if before@.contains_key(k) {
                            let j = pair_index(before.entries@, k);
                            assert(now.entries@[j].0@ == k);
                        }
                        if now@.contains_key(k) {
                            let j = pair_index(now.entries@, k);
                            assert(before.entries@[j].0@ == k);
                        }
                    }
                    assert forall|k: (Seq<char>, Seq<char>)| now@.contains_key(k) implies now@[k]
                        == before@.insert(key, value)[k] by {
                        let j = pair_index(now.entries@, k);
                        now.lemma_entry(j);
                        before.lemma_entry(j);
                        now.lemma_entry(i as int);
                        if j != i && k == key {
                            assert(now.entries@[i as int].0@ == now.entries@[j].0@);
                        }
                    }
                    assert(now@ =~= before@.insert(key, value));
                }
            },
            None => {
                self.entries.push(entry);
                proof {
                    let now = *self;
                    let n = before.entries@.len() as int;
                    assert forall|i: int, j: int| 0 <= i < j < now.entries@.len() implies (
                    #[trigger] now.entries@[i]).0@ != (#[trigger] now.entries@[j]).0@ by {
                        if j == n {
                            if now.entries@[i].0@ == key {
                                assert(before.entries@[i].0@ == key);
                                assert(holds_pair(before.entries@, key));
                            }
                        } else {
                            assert(before.entries@[i].0@ != before.entries@[j].0@);
                        }
                    }
                    assert forall|k: (Seq<char>, Seq<char>)| now@.contains_key(k)
                        == before@.insert(key, value).contains_key(k) by {
                        if before@.contains_key(k) {
                            let j = pair_index(before.entries@, k);
                            assert(now.entries@[j].0@ == k);
                        }
                        if k == key {
                            assert(now.entries@[n].0@ == k);
                        }
                        if now@.contains_key(k) && k != key {
                            let j = pair_index(now.entries@, k);
                            assert(before.entries@[j].0@ == k);
                        }
                    }
                    assert forall|k: (Seq<char>, Seq<char>)| now@.contains_key(k) implies now@[k]
                        == before@.insert(key, value)[k] by {
                        let j = pair_index(now.entries@, k);
                        now.lemma_entry(j);
                        if j < n {
                            before.lemma_entry(j);
                        }
                    }
                    assert(now@ =~= before@.insert(key, value));
                }
            },
        }
    }

    /// Setting the value of an entry sets the value of its key.
    proof fn lemma_set_value(self, now: Self, i: int)
        requires
            self.wf(),
            0 <= i < self.entries@.len(),
            now.entries@ == self.entries@.update(i, now.entries@[i]),
            now.entries@[i].0@ == self.entries@[i].0@,
        ensures
            now.wf(),
            now@ == self@.insert(self.entries@[i].0@, now.entries@[i].1),
    {
        let key = self.entries@[i].0@;
        let value = now.entries@[i].1;
        assert forall|a: int, b: int| 0 <= a < b < now.entries@.len() implies (
        #[trigger] now.entries@[a]).0@ != (#[trigger] now.entries@[b]).0@ by {
            assert(self.entries@[a].0@ != self.entries@[b].0@);
        }
        assert forall|k: (Seq<char>, Seq<char>)| now@.contains_key(k) == self@.insert(
            key,
            value,
        ).contains_key(k) by {
            if self@.contains_key(k) {
                let j = pair_index(self.entries@, k);
                assert(now.entries@[j].0@ == k);
            }
            if k == key {
                assert(now.entries@[i].0@ == k);
            }
            if now@.contains_key(k) {
                let j = pair_index(now.entries@, k);
                assert(self.entries@[j].0@ == k);
            }
        }
        assert forall|k: (Seq<char>, Seq<char>)| now@.contains_key(k) implies now@[k]
            == self@.insert(key, value)[k] by {
            let j = pair_index(now.entries@, k);
            now.lemma_entry(j);
            self.lemma_entry(j);
            now.lemma_entry(i);
        }
        assert(now@ =~= self@.insert(key, value));
    }

    /// The value of a key, to be changed. A key that was not there gets the given value
    /// first.
    pub fn slot(&mut self, first: &str, second: &str, value: V) -> (r: &mut V)
        requires
            old(self).wf(),
        ensures
            *r == if old(self)@.contains_key((first@, second@)) {
                old(self)@[(first@, second@)]
            } else {
                value
            },
            final(self).wf(),
            final(self)@ == old(self)@.insert((first@, second@), *final(r)),
    {
        let ghost before = *self;
        let ghost key = (first@, second@);
        if self.locate(first, second).is_none() {
            self.insert(first, second, value);
        }
        let i: usize = match self.locate(first, second) {
            Some(i) => i,
            None => 0,
        };
        proof {
            self.lemma_entry(i as int);
            let mid = *self;
            assert forall|now: Self|
                #![trigger now.wf()]
                #![trigger now@]
                now.entries@ == mid.entries@.update(i as int, now.entries@[i as int])
                    && now.entries@[i as int].0@ == mid.entries@[i as int].0@ implies now.wf()
                && now@ == before@.insert(key, now.entries@[i as int].1) by {
                mid.lemma_set_value(now, i as int);
                assert(mid@.insert(key, now.entries@[i as int].1) =~= before@.insert(
                    key,
                    now.entries@[i as int].1,
                ));
            }
        }
        &mut self.entries[i].1
    }

    pub fn remove(&mut self, first: &str, second: &str)
        requires
            old(self).wf(),
        ensures
            final(self).wf(),
            final(self)@ == old(self)@.remove((first@, second@)),
    {
        let ghost before = *self;
        let ghost key = (first@, second@);
        match self.locate(first, second) {
            Some(i) => {
                let _ = self.entries.remove(i);
                proof {
                    let now = *self;
                    assert forall|a: int, b: int| 0 <= a < b < now.entries@.len() implies (
                    #[trigger] now.entries@[a]).0@ != (#[trigger] now.entries@[b]).0@ by {
                        let p = if a < i {
                            a
                        } else {
                            a + 1
                        };
                        let q = if b < i {
                            b
                        } else {
                            b + 1
                        };
                        assert(before.entries@[p].0@ != before.entries@[q].0@);
                    }
                    assert forall|k: (Seq<char>, Seq<char>)| now@.contains_key(k) == before@.remove(
                        key,
                    ).contains_key(k) by {
                        if before@.contains_key(k) && k != key {
                            let j = pair_index(before.entries@, k);
                            if j < i {
                                assert(now.entries@[j].0@ == k);
                            } else {
                                assert(now.entries@[j - 1].0@ == k);
                            }
                        }
                        if now@.contains_key(k) {
                            let j = pair_index(now.entries@, k);
                            if j < i {
                                assert(before.entries@[j].0@ == k);
                                assert(before.entries@[j].0@ != before.entries@[i as int].0@);
                            } else {
                                assert(before.entries@[j + 1].0@ == k);
                                assert(before.entries@[i as int].0@ != before.entries@[j + 1].0@);
                            }
                        }
                    }
                    assert forall|k: (Seq<char>, Seq<char>)| now@.contains_key(k) implies now@[k]
                        == before@[k] by {
                        let j = pair_index(now.entries@, k);
                        now.lemma_entry(j);
                        if j < i {
                            before.lemma_entry(j);
                        } else {
                            before.lemma_entry(j + 1);
                        }
                    }
                    assert(now@ =~= before@.remove(key));
                }
            },
            None => {
                assert(self@ =~= before@.remove(key));
            },
        }
    }
}

} // verus!

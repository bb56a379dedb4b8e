//! A map from text to values that keeps its entries in the order of their keys.

use vstd::prelude::*;
use crate::text::{chars_of, text_eq};

verus! {

/// The lexicographic order of text, by code points.
pub open spec fn less(a: Seq<char>, b: Seq<char>) -> bool
    decreases a.len(),
{
    if b.len() == 0 {
        false
    } else if a.len() == 0 {
        true
    } else if a[0] != b[0] {
        a[0] < b[0]
    } else {
        less(a.drop_first(), b.drop_first())
    }
}

pub proof fn less_is_transitive(a: Seq<char>, b: Seq<char>, c: Seq<char>)
    requires
        less(a, b),
        less(b, c),
    ensures
        less(a, c),
    decreases a.len(),
{
    if a.len() > 0 && a[0] == b[0] && b[0] == c[0] {
        less_is_transitive(a.drop_first(), b.drop_first(), c.drop_first());
    }
}

pub proof fn less_is_irreflexive(a: Seq<char>)
    ensures
        !less(a, a),
    decreases a.len(),
{
    if a.len() > 0 {
        less_is_irreflexive(a.drop_first());
    }
}

pub proof fn less_is_total(a: Seq<char>, b: Seq<char>)
    ensures
        less(a, b) || less(b, a) || a == b,
    decreases a.len(),
{
    if a.len() == 0 && b.len() == 0 {
        assert(a =~= b);
    } else if a.len() > 0 && b.len() > 0 && a[0] == b[0] {
        less_is_total(a.drop_first(), b.drop_first());
        if a.drop_first() == b.drop_first() {
            assert(a =~= seq![a[0]] + a.drop_first());
            assert(b =~= seq![b[0]] + b.drop_first());
        }
    }
}

/// Whether the first text comes before the second.
pub fn text_less(a: &str, b: &str) -> (r: bool)
    ensures
        r == less(a@, b@),
{
    let x: Vec<char> = chars_of(a);
    let y: Vec<char> = chars_of(b);
    let mut i: usize = 0;
    assert(x@.skip(0) =~= x@);
    assert(y@.skip(0) =~= y@);
    loop
        invariant
            i <= x@.len(),
            i <= y@.len(),
            less(x@.skip(i as int), y@.skip(i as int)) == less(x@, y@),
            x@ == a@,
            y@ == b@,
        decreases x@.len() - i,
    {
        if i == y.len() {
            return false;
        }
        if i == x.len() {
            return true;
        }
        if x[i] != y[i] {
            return x[i] < y[i];
        }
        assert(x@.skip(i as int).drop_first() =~= x@.skip(i + 1));
        assert(y@.skip(i as int).drop_first() =~= y@.skip(i + 1));
        i += 1;
    }
}

/// A map from text to values. The entries are kept sorted by key and no key occurs twice.
#[derive(Debug)]
pub struct TextMap<V> {
    pub entries: Vec<(String, V)>,
}

pub open spec fn sorted_keys<V>(entries: Seq<(String, V)>) -> bool {
    forall|i: int, j: int|
        0 <= i < j < entries.len() ==> less(#[trigger] entries[i].0@, #[trigger] entries[j].0@)
}

pub open spec fn holds_key<V>(entries: Seq<(String, V)>, key: Seq<char>) -> bool {
    exists|i: int| 0 <= i < entries.len() && #[trigger] entries[i].0@ == key
}

pub open spec fn value_of<V>(entries: Seq<(String, V)>, key: Seq<char>) -> V {
    let i = choose|i: int| 0 <= i < entries.len() && #[trigger] entries[i].0@ == key;
    entries[i].1
}

impl<V> TextMap<V> {
    /// Keys strictly increase along the entries.
    pub open spec fn wf(self) -> bool {
        sorted_keys(self.entries@)
    }

    /// The map from keys to values.
    pub open spec fn view(self) -> Map<Seq<char>, V> {
        Map::new(|k: Seq<char>| holds_key(self.entries@, k), |k: Seq<char>| value_of(self.entries@, k))
    }

    /// The keys in order.
    pub open spec fn keys(self) -> Seq<Seq<char>> {
        self.entries@.map_values(|e: (String, V)| e.0@)
    }

    pub proof fn lemma_entry(self, i: int)
        requires
            self.wf(),
            0 <= i < self.entries@.len(),
        ensures
            self@.contains_key(self.entries@[i].0@),
            self@[self.entries@[i].0@] == self.entries@[i].1,
    {
        let k = self.entries@[i].0@;
        let j = choose|j: int| 0 <= j < self.entries@.len() && #[trigger] self.entries@[j].0@ == k;
        less_is_irreflexive(k);
        assert(i == j);
    }

    pub fn new() -> (r: Self)
        ensures
            r.wf(),
            r@ == Map::<Seq<char>, V>::empty(),
            r.entries@.len() == 0,
    {
        let r = TextMap { entries: Vec::new() };
        assert(r@ =~= Map::empty());
        r
    }

    pub fn len(&self) -> (n: usize)
        ensures
            n == self.entries@.len(),
    {
        self.entries.len()
    }

    pub fn is_empty(&self) -> (b: bool)
        ensures
            b == (self.entries@.len() == 0),
            b == (self@.dom() =~= Set::<Seq<char>>::empty()),
    {
        proof {
            if self.entries@.len() > 0 {
                assert(holds_key(self.entries@, self.entries@[0].0@));
                assert(self@.dom().contains(self.entries@[0].0@));
            }
        }
        self.entries.len() == 0
    }

    /// The index of the key, if it is there; else the index at which it belongs.
    pub fn locate(&self, key: &str) -> (r: (usize, bool))
        requires
            self.wf(),
        ensures
            r.0 <= self.entries@.len(),
            forall|i: int| 0 <= i < r.0 ==> less(#[trigger] self.entries@[i].0@, key@),
            r.1 ==> r.0 < self.entries@.len() && self.entries@[r.0 as int].0@ == key@,
            !r.1 ==> forall|i: int|
                r.0 <= i < self.entries@.len() ==> less(key@, #[trigger] self.entries@[i].0@),
            r.1 == self@.contains_key(key@),
    {
        let mut i: usize = 0;
        while i < self.entries.len() && text_less(self.entries[i].0.as_str(), key)
            invariant
                i <= self.entries@.len(),
                forall|j: int| 0 <= j < i ==> less(#[trigger] self.entries@[j].0@, key@),
            decreases self.entries@.len() - i,
        {
            i += 1;
        }
        let found: bool = i < self.entries.len() && text_eq(self.entries[i].0.as_str(), key);
        proof {
            if found {
                assert(holds_key(self.entries@, key@));
            } else {
                assert forall|j: int| i <= j < self.entries@.len() implies less(
                    key@,
                    #[trigger] self.entries@[j].0@,
                ) by {
                    less_is_total(self.entries@[i as int].0@, key@);
                    if j > i {
                        less_is_transitive(key@, self.entries@[i as int].0@, self.entries@[j].0@);
                    }
                }
                if holds_key(self.entries@, key@) {
                    let j = choose|j: int|
                        0 <= j < self.entries@.len() && #[trigger] self.entries@[j].0@ == key@;
                    less_is_irreflexive(key@);
                }
            }
        }
        (i, found)
    }

    pub fn get(&self, key: &str) -> (r: Option<&V>)
        requires
            self.wf(),
        ensures
            match r {
                Some(v) => self@.contains_key(key@) && *v == self@[key@],
                None => !self@.contains_key(key@),
            },
    {
        let (i, found) = self.locate(key);
        if found {
            proof {
                self.lemma_entry(i as int);
            }
            Some(&self.entries[i].1)
        } else {
            None
        }
    }

    pub fn contains_key(&self, key: &str) -> (b: bool)
        requires
            self.wf(),
        ensures
            b == self@.contains_key(key@),
    {
        self.locate(key).1
    }

    proof fn lemma_set_value(self, now: Self, i: int)
        requires
            self.wf(),
            0 <= i < self.entries@.len(),
            now.entries@ == self.entries@.update(i, now.entries@[i]),
            now.entries@[i].0@ == self.entries@[i].0@,
        ensures
            now.wf(),
            now@ == self@.insert(self.entries@[i].0@, now.entries@[i].1),
    {
        let key = self.entries@[i].0@;
        let value = now.entries@[i].1;
        assert forall|a: int, b: int| 0 <= a < b < now.entries@.len() implies less(
            #[trigger] now.entries@[a].0@,
            #[trigger] now.entries@[b].0@,
        ) by {
            assert(less(self.entries@[a].0@, self.entries@[b].0@));
        }
        assert forall|k: Seq<char>| now@.contains_key(k) == self@.insert(key, value).contains_key(
            k,
        ) by {
            if holds_key(self.entries@, k) {
                let j = choose|j: int|
                    0 <= j < self.entries@.len() && #[trigger] self.entries@[j].0@ == k;
                assert(now.entries@[j].0@ == k);
            }
            if k == key {
                assert(now.entries@[i].0@ == k);
            }
            if holds_key(now.entries@, k) {
                let j = choose|j: int|
                    0 <= j < now.entries@.len() && #[trigger] now.entries@[j].0@ == k;
                assert(self.entries@[j].0@ == k);
            }
        }
        assert forall|k: Seq<char>| now@.contains_key(k) implies now@[k] == self@.insert(
            key,
            value,
        )[k] by {
            let j = choose|j: int|
                0 <= j < now.entries@.len() && #[trigger] now.entries@[j].0@ == k;
            now.lemma_entry(j);
            self.lemma_entry(j);
            if k == key {
                now.lemma_entry(i);
            }
        }
        assert(now@ =~= self@.insert(key, value));
    }

    /// The value of a key, to be changed.
    pub fn value_mut(&mut self, key: &str) -> (r: &mut V)
        requires
            old(self).wf(),
            old(self)@.contains_key(key@),
        ensures
            *r == old(self)@[key@],
            final(self).wf(),
            final(self)@ == old(self)@.insert(key@, *final(r)),
    {
        let (i, _found) = self.locate(key);
        proof {
            self.lemma_entry(i as int);
            let before = *self;
            assert forall|now: Self|
                #![trigger now.wf()]
                #![trigger now@]
                now.entries@ == before.entries@.update(i as int, now.entries@[i as int])
                    && now.entries@[i as int].0@ == before.entries@[i as int].0@ implies now.wf()
                && now@ == before@.insert(key@, now.entries@[i as int].1) by {
                before.lemma_set_value(now, i as int);
            }
        }
        &mut self.entries[i].1
    }

    /// Sets the value of a key.
    pub fn insert(&mut self, key: &str, value: V)
        requires
            old(self).wf(),
        ensures
            final(self).wf(),
            final(self)@ == old(self)@.insert(key@, value),
    {
        let (i, found) = self.locate(key);
        let entry: (String, V) = (key.to_owned(), value);
        let ghost before = *self;
        if found {
            self.entries.set(i, entry);
        } else {
            self.entries.insert(i, entry);
        }
        proof {
            let now = *self;
            let e = now.entries@;
            let b = before.entries@;
            assert forall|x: int, y: int| 0 <= x < y < e.len() implies less(
                #[trigger] e[x].0@,
                #[trigger] e[y].0@,
            ) by {
                let p = if found || x < i {
                    x
                } else {
                    x - 1
                };
                let q = if found || y < i {
                    y
                } else {
                    y - 1
                };
                if x == i {
                    assert(e[x].0@ == key@);
                } else {
                    assert(e[x].0@ == b[p].0@);
                }
                if y == i {
                    assert(e[y].0@ == key@);
                } else {
                    assert(e[y].0@ == b[q].0@);
                }
                if !found && (x == i || y == i) {
                } else {
                    assert(less(b[p].0@, b[q].0@));
                }
            }
            assert forall|k: Seq<char>| now@.contains_key(k) == before@.insert(key@, value).contains_key(k) by {
                if holds_key(b, k) {
                    let j = choose|j: int| 0 <= j < b.len() && #[trigger] b[j].0@ == k;
                    if found || j < i {
                        assert(e[j].0@ == k);
                    } else {
                        assert(e[j + 1].0@ == k);
                    }
                }
                if k == key@ {
                    assert(e[i as int].0@ == k);
                }
                if holds_key(e, k) && k != key@ {
                    let j = choose|j: int| 0 <= j < e.len() && #[trigger] e[j].0@ == k;
                    if found || j < i {
                        assert(b[j].0@ == k);
                    } else {
                        assert(b[j - 1].0@ == k);
                    }
                }
            }
            assert forall|k: Seq<char>| now@.contains_key(k) implies now@[k] == before@.insert(
                key@,
                value,
            )[k] by {
                let j = choose|j: int| 0 <= j < e.len() && #[trigger] e[j].0@ == k;
                now.lemma_entry(j);
                less_is_irreflexive(k);
                if k == key@ {
                    assert(e[i as int].0@ == k);
                    assert(j == i) by {
                        if j < i {
                            assert(less(e[j].0@, e[i as int].0@));
                        } else if i < j {
                            assert(less(e[i as int].0@, e[j].0@));
                        }
                    }
                } else if found || j < i {
                    before.lemma_entry(j);
                } else {
                    before.lemma_entry(j - 1);
                }
            }
            assert(now@ =~= before@.insert(key@, value));
        }
    }

    /// Removes a key; nothing happens when it is not there.
    pub fn remove(&mut self, key: &str)
        requires
            old(self).wf(),
        ensures
            final(self).wf(),
            final(self)@ == old(self)@.remove(key@),
    {
        let (i, found) = self.locate(key);
        let ghost before = *self;
        if found {
            let _ = self.entries.remove(i);
        }
        proof {
            let now = *self;
            let e = now.entries@;
            let b = before.entries@;
            if found {
                assert forall|x: int, y: int| 0 <= x < y < e.len() implies less(
                    #[trigger] e[x].0@,
                    #[trigger] e[y].0@,
                ) by {
                    let p = if x < i {
                        x
                    } else {
                        x + 1
                    };
                    let q = if y < i {
                        y
                    } else {
                        y + 1
                    };
                    assert(less(b[p].0@, b[q].0@));
                }
                assert forall|k: Seq<char>| now@.contains_key(k) == before@.remove(key@).contains_key(k) by {
                    less_is_irreflexive(k);
                    if holds_key(b, k) && k != key@ {
                        let j = choose|j: int| 0 <= j < b.len() && #[trigger] b[j].0@ == k;
                        if j < i {
                            assert(e[j].0@ == k);
                        } else {
                            assert(e[j - 1].0@ == k);
                        }
                    }
                    if holds_key(e, k) {
                        let j = choose|j: int| 0 <= j < e.len() && #[trigger] e[j].0@ == k;
                        if j < i {
                            assert(b[j].0@ == k);
                            assert(less(b[j].0@, b[i as int].0@));
                        } else {
                            assert(b[j + 1].0@ == k);
                            assert(less(b[i as int].0@, b[j + 1].0@));
                        }
                    }
                }
                assert forall|k: Seq<char>| now@.contains_key(k) implies now@[k] == before@[k] by {
                    let j = choose|j: int| 0 <= j < e.len() && #[trigger] e[j].0@ == k;
                    now.lemma_entry(j);
                    if j < i {
                        before.lemma_entry(j);
                    } else {
                        before.lemma_entry(j + 1);
                    }
                }
            }
            assert(now@ =~= before@.remove(key@));
        }
    }
}

} // verus!

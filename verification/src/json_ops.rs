//! Reading and building JSON values.

use vstd::prelude::*;
use crate::json::{
    array_view, group_json, number_or_null, object_view, or_null, Json, JsonNumber, JsonView,
};
use crate::text::{opt_str_view, opt_view, text_eq};

verus! {

broadcast use group_json;

pub open spec fn opt_json(v: Option<Json>) -> Option<JsonView> {
    match v {
        Some(j) => Some(j@),
        None => None,
    }
}

pub open spec fn opt_json_ref(v: Option<&Json>) -> Option<JsonView> {
    match v {
        Some(j) => Some(j@),
        None => None,
    }
}

proof fn lemma_object_keys(s: Seq<(String, Json)>, key: Seq<char>)
    requires
        forall|i: int| 0 <= i < s.len() ==> (#[trigger] s[i]).0@ != key,
    ensures
        !object_view(s).contains_key(key),
    decreases s.len(),
{
    if s.len() > 0 {
        assert(s[s.len() - 1].0@ != key);
        assert forall|i: int| 0 <= i < s.drop_last().len() implies (#[trigger] s.drop_last()[i]).0@
            != key by {
            assert(s[i].0@ != key);
        }
        lemma_object_keys(s.drop_last(), key);
    }
}

proof fn lemma_object_last(s: Seq<(String, Json)>, k: int)
    requires
        0 <= k < s.len(),
        forall|i: int| k < i < s.len() ==> (#[trigger] s[i]).0@ != s[k].0@,
    ensures
        object_view(s).contains_key(s[k].0@),
        object_view(s)[s[k].0@] == s[k].1.view(),
    decreases s.len(),
{
    if k < s.len() - 1 {
        assert(s[s.len() - 1].0@ != s[k].0@);
        let t = s.drop_last();
        assert forall|i: int| k < i < t.len() implies (#[trigger] t[i]).0@ != t[k].0@ by {
            assert(s[i].0@ != s[k].0@);
        }
        lemma_object_last(t, k);
    }
}

/// Replacing the last entry of a key sets the key.
proof fn lemma_object_update(s: Seq<(String, Json)>, k: int, e: (String, Json))
    requires
        0 <= k < s.len(),
        e.0@ == s[k].0@,
        forall|i: int| k < i < s.len() ==> (#[trigger] s[i]).0@ != s[k].0@,
    ensures
        object_view(s.update(k, e)) == object_view(s).insert(e.0@, e.1.view()),
    decreases s.len(),
{
    let u = s.update(k, e);
    if k == s.len() - 1 {
        assert(u.drop_last() =~= s.drop_last());
        assert(object_view(u) =~= object_view(s).insert(e.0@, e.1.view()));
    } else {
        let t = s.drop_last();
        assert forall|i: int| k < i < t.len() implies (#[trigger] t[i]).0@ != t[k].0@ by {
            assert(s[i].0@ != s[k].0@);
        }
        lemma_object_update(t, k, e);
        assert(u.drop_last() =~= t.update(k, e));
        assert(s[s.len() - 1].0@ != s[k].0@);
        assert(object_view(u) =~= object_view(s).insert(e.0@, e.1.view()));
    }
}

proof fn lemma_object_views_agree(a: Seq<(String, Json)>, b: Seq<(String, Json)>)
    requires
        a.len() == b.len(),
        forall|i: int|
            0 <= i < a.len() ==> (#[trigger] a[i]).0@ == b[i].0@ && a[i].1.view() == b[i].1.view(),
    ensures
        object_view(a) == object_view(b),
    decreases a.len(),
{
    if a.len() > 0 {
        let s = a.drop_last();
        let t = b.drop_last();
        assert forall|i: int| 0 <= i < s.len() implies (#[trigger] s[i]).0@ == t[i].0@
            && s[i].1.view() == t[i].1.view() by {
            assert(a[i].0@ == b[i].0@);
        }
        lemma_object_views_agree(s, t);
        assert(a[a.len() - 1].0@ == b[b.len() - 1].0@);
    }
}

/// Finds the entry of a key that counts.
fn find_entry(entries: &Vec<(String, Json)>, key: &str) -> (r: Option<usize>)
    ensures
        match r {
            Some(k) => k < entries@.len() && entries@[k as int].0@ == key@ && forall|i: int|
                k < i < entries@.len() ==> (#[trigger] entries@[i]).0@ != key@,
            None => forall|i: int|
                0 <= i < entries@.len() ==> (#[trigger] entries@[i]).0@ != key@,
        },
{
    let mut k: usize = entries.len();
    while k > 0
        invariant
            k <= entries@.len(),
            forall|i: int| k <= i < entries@.len() ==> (#[trigger] entries@[i]).0@ != key@,
        decreases k,
    {
        if text_eq(entries[k - 1].0.as_str(), key) {
            return Some(k - 1);
        }
        k -= 1;
    }
    None
}

impl Json {
    pub fn object() -> (r: Self)
        ensures
            r@ == JsonView::empty_object(),
    {
        Json::Object(Vec::new())
    }

    pub fn text(t: &str) -> (r: Self)
        ensures
            r@ == JsonView::Text(t@),
    {
        Json::Text(t.to_owned())
    }

    pub fn opt_text(t: Option<&str>) -> (r: Self)
        ensures
            r@ == or_null(opt_str_view(t)),
    {
        match t {
            Some(t) => Json::Text(t.to_owned()),
            None => Json::Null,
        }
    }

    pub fn opt_string(t: &Option<String>) -> (r: Self)
        ensures
            r@ == or_null(opt_view(*t)),
    {
        match t {
            Some(t) => Json::Text(t.clone()),
            None => Json::Null,
        }
    }

    pub fn number(n: u64) -> (r: Self)
        ensures
            r@ == JsonView::number(n as nat),
    {
        Json::Number(JsonNumber::Unsigned(n))
    }

    pub fn count(n: usize) -> (r: Self)
        ensures
            r@ == JsonView::number(n as nat),
    {
        Json::Number(JsonNumber::Unsigned(n as u64))
    }

    pub fn signed(n: i64) -> (r: Self)
        ensures
            r@ == JsonView::signed(n),
    {
        if n < 0 {
            Json::Number(JsonNumber::Negative(n))
        } else {
            Json::Number(JsonNumber::Unsigned(n as u64))
        }
    }

    pub fn opt_number(n: Option<u64>) -> (r: Self)
        ensures
            r@ == number_or_null(n),
    {
        match n {
            Some(n) => Json::Number(JsonNumber::Unsigned(n)),
            None => Json::Null,
        }
    }

    /// The member of an object.
    pub fn get(&self, key: &str) -> (r: Option<&Json>)
        ensures
            opt_json_ref(r) == self@.field(key@),
    {
        match self {
            Json::Object(entries) => match find_entry(entries, key) {
                Some(k) => {
                    proof {
                        lemma_object_last(entries@, k as int);
                    }
                    Some(&entries[k].1)
                },
                None => {
                    proof {
                        lemma_object_keys(entries@, key@);
                    }
                    None
                },
            },
            _ => None,
        }
    }

    /// Sets a member of an object; another value stays as it is.
    pub fn put(&mut self, key: &str, value: Json)
        ensures
            final(self)@ == old(self)@.with(key@, value@),
    {
        match self {
            Json::Object(entries) => {
                let ghost before = entries@;
                match find_entry(entries, key) {
                    Some(k) => {
                        let entry: (String, Json) = (key.to_owned(), value);
                        proof {
                            lemma_object_update(before, k as int, entry);
                        }
                        entries.set(k, entry);
                        assert(object_view(entries@) == object_view(before).insert(key@, value@));
                    },
                    None => {
                        let entry: (String, Json) = (key.to_owned(), value);
                        entries.push(entry);
                        assert(entries@ == before.push(entry));
                        assert(object_view(entries@) == object_view(before).insert(key@, value@));
                    },
                }
            },
            _ => {},
        }
    }

    pub fn as_text(&self) -> (r: Option<&str>)
        ensures
            opt_str_view(r) == self@.as_text(),
    {
        match self {
            Json::Text(t) => Some(t.as_str()),
            _ => None,
        }
    }

    pub fn as_unsigned(&self) -> (r: Option<u64>)
        ensures
            r == self@.as_unsigned(),
    {
        match self {
            Json::Number(JsonNumber::Unsigned(n)) => Some(*n),
            _ => None,
        }
    }

    pub fn as_signed(&self) -> (r: Option<i64>)
        ensures
            r == self@.as_signed(),
    {
        match self {
            Json::Number(JsonNumber::Unsigned(n)) => if *n <= i64::MAX as u64 {
                Some(*n as i64)
            } else {
                None
            },
            Json::Number(JsonNumber::Negative(n)) => Some(*n),
            _ => None,
        }
    }

    pub fn text_field(&self, key: &str) -> (r: Option<&str>)
        ensures
            opt_str_view(r) == self@.text_field(key@),
    {
        match self.get(key) {
            Some(v) => v.as_text(),
            None => None,
        }
    }

    pub fn unsigned_field(&self, key: &str) -> (r: Option<u64>)
        ensures
            r == self@.unsigned_field(key@),
    {
        match self.get(key) {
            Some(v) => v.as_unsigned(),
            None => None,
        }
    }

    pub fn signed_field(&self, key: &str) -> (r: Option<i64>)
        ensures
            r == self@.signed_field(key@),
    {
        match self.get(key) {
            Some(v) => v.as_signed(),
            None => None,
        }
    }

    pub fn bool_field(&self, key: &str) -> (r: Option<bool>)
        ensures
            r == self@.bool_field(key@),
    {
        match self.get(key) {
            Some(Json::Bool(b)) => Some(*b),
            _ => None,
        }
    }

    /// Whether the member is the given text.
    pub fn field_is(&self, key: &str, value: &str) -> (b: bool)
        ensures
            b == (self@.text_field(key@) == Some(value@)),
    {
        match self.text_field(key) {
            Some(t) => text_eq(t, value),
            None => false,
        }
    }

    pub fn copy(&self) -> (r: Self)
        ensures
            r@ == self@,
        decreases self,
    {
        match self {
            Json::Null => Json::Null,
            Json::Bool(b) => Json::Bool(*b),
            Json::Number(JsonNumber::Unsigned(n)) => Json::Number(JsonNumber::Unsigned(*n)),
            Json::Number(JsonNumber::Negative(n)) => Json::Number(JsonNumber::Negative(*n)),
            Json::Number(JsonNumber::Other(t)) => Json::Number(JsonNumber::Other(t.clone())),
            Json::Text(t) => Json::Text(t.clone()),
            Json::Array(list) => Json::Array(copy_array(list)),
            Json::Object(entries) => {
                let mut r: Vec<(String, Json)> = Vec::new();
                let mut i: usize = 0;
                while i < entries.len()
                    invariant
                        i <= entries@.len(),
                        r@.len() == i,
                        decreases_to!(self => entries),
                        forall|j: int|
                            0 <= j < i ==> (#[trigger] r@[j]).0@ == entries@[j].0@
                                && r@[j].1.view() == entries@[j].1.view(),
                    decreases entries@.len() - i,
                {
                    let e: &(String, Json) = &entries[i];
                    assert(decreases_to!(entries => entries@[i as int]));
                    let value: Json = e.1.copy();
                    r.push((e.0.clone(), value));
                    i += 1;
                }
                proof {
                    lemma_object_views_agree(r@, entries@);
                }
                Json::Object(r)
            },
        }
    }
}

pub fn copy_array(list: &Vec<Json>) -> (r: Vec<Json>)
    ensures
        array_view(r@) == array_view(list@),
    decreases list,
{
    let mut r: Vec<Json> = Vec::new();
    let mut i: usize = 0;
    while i < list.len()
        invariant
            i <= list@.len(),
            array_view(r@) =~= array_view(list@).take(i as int),
        decreases list@.len() - i,
    {
        let x: Json = list[i].copy();
        r.push(x);
        i += 1;
    }
    assert(array_view(list@).take(list@.len() as int) =~= array_view(list@));
    r
}

/// Every key of an object view has an entry.
proof fn lemma_object_entry(s: Seq<(String, Json)>, key: Seq<char>)
    requires
        object_view(s).contains_key(key),
    ensures
        exists|i: int| 0 <= i < s.len() && (#[trigger] s[i]).0@ == key,
{
    if forall|i: int| 0 <= i < s.len() ==> (#[trigger] s[i]).0@ != key {
        lemma_object_keys(s, key);
    }
}

impl Json {
    /// Whether two values are equal.
    pub fn same(&self, other: &Json) -> (b: bool)
        ensures
            b == (self@ == other@),
        decreases self,
    {
        match (self, other) {
            (Json::Null, Json::Null) => true,
            (Json::Bool(a), Json::Bool(b)) => *a == *b,
            (Json::Number(JsonNumber::Unsigned(a)), Json::Number(JsonNumber::Unsigned(b))) => *a
                == *b,
            (Json::Number(JsonNumber::Negative(a)), Json::Number(JsonNumber::Negative(b))) => *a
                == *b,
            (Json::Number(JsonNumber::Other(a)), Json::Number(JsonNumber::Other(b))) => text_eq(
                a.as_str(),
                b.as_str(),
            ),
            (Json::Text(a), Json::Text(b)) => text_eq(a.as_str(), b.as_str()),
            (Json::Array(a), Json::Array(b)) => {
                assert(array_view(a@).len() == a@.len());
                assert(array_view(b@).len() == b@.len());
                if a.len() != b.len() {
                    return false;
                }
                let mut i: usize = 0;
                while i < a.len()
                    invariant
                        i <= a@.len(),
                        a@.len() == b@.len(),
                        *self == Json::Array(*a),
                        *other == Json::Array(*b),
                        decreases_to!(self => a),
                        forall|j: int| 0 <= j < i ==> array_view(a@)[j] == array_view(b@)[j],
                    decreases a@.len() - i,
                {
                    if !a[i].same(&b[i]) {
                        assert(array_view(a@)[i as int] != array_view(b@)[i as int]);
                        return false;
                    }
                    i += 1;
                }
                assert(array_view(a@) =~= array_view(b@));
                true
            },
            (Json::Object(a), Json::Object(b)) => {
                let ghost va = object_view(a@);
                let ghost vb = object_view(b@);
                let mut i: usize = 0;
                while i < a.len()
                    invariant
                        i <= a@.len(),
                        va == object_view(a@),
                        vb == object_view(b@),
                        *self == Json::Object(*a),
                        *other == Json::Object(*b),
                        decreases_to!(self => a),
                        forall|j: int|
                            0 <= j < i ==> vb.contains_key(#[trigger] a@[j].0@) && va[a@[j].0@]
                                == vb[a@[j].0@],
                    decreases a@.len() - i,
                {
                    let key: &str = a[i].0.as_str();
                    let k: usize = match find_entry(a, key) {
                        Some(k) => k,
                        None => {
                            assert(a@[i as int].0@ != key@);
                            i
                        },
                    };
                    proof {
                        lemma_object_last(a@, k as int);
                        assert(decreases_to!(a => a@[k as int]));
                    }
                    match other.get(key) {
                        Some(v) => {
                            if !a[k].1.same(v) {
                                assert(va[key@] != vb[key@]);
                                return false;
                            }
                        },
                        None => {
                            assert(va.contains_key(key@) && !vb.contains_key(key@));
                            return false;
                        },
                    }
                    i += 1;
                }
                let mut i: usize = 0;
                while i < b.len()
                    invariant
                        i <= b@.len(),
                        va == object_view(a@),
                        vb == object_view(b@),
                        *self == Json::Object(*a),
                        *other == Json::Object(*b),
                        forall|j: int| 0 <= j < i ==> va.contains_key(#[trigger] b@[j].0@),
                    decreases b@.len() - i,
                {
                    let key: &str = b[i].0.as_str();
                    if self.get(key).is_none() {
                        proof {
                            if !vb.contains_key(key@) {
                                lemma_object_has(b@, i as int);
                            }
                        }
                        return false;
                    }
                    i += 1;
                }
                proof {
                    assert forall|k: Seq<char>| va.contains_key(k) == vb.contains_key(k) by {
                        if va.contains_key(k) {
                            lemma_object_entry(a@, k);
                        }
                        if vb.contains_key(k) {
                            lemma_object_entry(b@, k);
                        }
                    }
                    assert forall|k: Seq<char>| va.contains_key(k) implies va[k] == vb[k] by {
                        lemma_object_entry(a@, k);
                    }
                    assert(va =~= vb);
                }
                true
            },
            _ => false,
        }
    }
}

proof fn lemma_object_has(s: Seq<(String, Json)>, i: int)
    requires
        0 <= i < s.len(),
    ensures
        object_view(s).contains_key(s[i].0@),
    decreases s.len(),
{
    if i < s.len() - 1 {
        lemma_object_has(s.drop_last(), i);
        assert(s.drop_last()[i] == s[i]);
    }
}

} // verus!

//! JSON values: the trees that requests, events and payloads are made of.

use vstd::prelude::*;

verus! {

/// A number: a natural number, a negative one, or any other by its text.
#[derive(Debug)]
pub enum JsonNumber {
    Unsigned(u64),
    Negative(i64),
    Other(String),
}

/// A JSON value. Where a key occurs twice in an object the later entry counts.
#[derive(Debug)]
pub enum Json {
    Null,
    Bool(bool),
    Number(JsonNumber),
    Text(String),
    Array(Vec<Json>),
    Object(Vec<(String, Json)>),
}

pub enum NumberView {
    Unsigned(u64),
    Negative(i64),
    Other(Seq<char>),
}

/// The mathematical value of a JSON value.
pub enum JsonView {
    Null,
    Bool(bool),
    Number(NumberView),
    Text(Seq<char>),
    Array(Seq<JsonView>),
    Object(Map<Seq<char>, JsonView>),
}

impl JsonNumber {
    pub open spec fn view(self) -> NumberView {
        match self {
            JsonNumber::Unsigned(n) => NumberView::Unsigned(n),
            JsonNumber::Negative(n) => NumberView::Negative(n),
            JsonNumber::Other(t) => NumberView::Other(t@),
        }
    }
}

impl Json {
    pub open spec fn view(self) -> JsonView
        decreases self,
    {
        match self {
            Json::Null => JsonView::Null,
            Json::Bool(b) => JsonView::Bool(b),
            Json::Number(n) => JsonView::Number(n@),
            Json::Text(t) => JsonView::Text(t@),
            Json::Array(list) => JsonView::Array(array_view(list@)),
            Json::Object(entries) => JsonView::Object(object_view(entries@)),
        }
    }
}

pub open spec fn array_view(s: Seq<Json>) -> Seq<JsonView>
    decreases s,
{
    if s.len() == 0 {
        Seq::empty()
    } else {
        array_view(s.drop_last()).push(s.last().view())
    }
}

pub open spec fn object_view(s: Seq<(String, Json)>) -> Map<Seq<char>, JsonView>
    decreases s,
{
    if s.len() == 0 {
        Map::empty()
    } else {
        object_view(s.drop_last()).insert(s.last().0@, s.last().1.view())
    }
}

pub broadcast proof fn lemma_array_index(s: Seq<Json>)
    ensures
        (#[trigger] array_view(s)).len() == s.len(),
        forall|i: int| 0 <= i < s.len() ==> (#[trigger] array_view(s)[i]) == s[i].view(),
    decreases s.len(),
{
    if s.len() > 0 {
        lemma_array_index(s.drop_last());
    }
}

pub broadcast proof fn lemma_array_push(s: Seq<Json>, x: Json)
    ensures
        #[trigger] array_view(s.push(x)) == array_view(s).push(x.view()),
{
    assert(s.push(x).drop_last() =~= s);
}

pub broadcast proof fn lemma_object_push(s: Seq<(String, Json)>, e: (String, Json))
    ensures
        #[trigger] object_view(s.push(e)) == object_view(s).insert(e.0@, e.1.view()),
{
    assert(s.push(e).drop_last() =~= s);
}

pub broadcast group group_json {
    lemma_array_index,
    lemma_array_push,
    lemma_object_push,
}

// ---------------------------------------------------------------------------
// What a value holds
// ---------------------------------------------------------------------------
impl JsonView {
    /// The member of an object.
    pub open spec fn field(self, key: Seq<char>) -> Option<JsonView> {
        match self {
            JsonView::Object(m) => if m.contains_key(key) {
                Some(m[key])
            } else {
                None
            },
            _ => None,
        }
    }

    pub open spec fn as_text(self) -> Option<Seq<char>> {
        match self {
            JsonView::Text(t) => Some(t),
            _ => None,
        }
    }

    pub open spec fn as_unsigned(self) -> Option<u64> {
        match self {
            JsonView::Number(NumberView::Unsigned(n)) => Some(n),
            _ => None,
        }
    }

    pub open spec fn as_signed(self) -> Option<i64> {
        match self {
            JsonView::Number(NumberView::Unsigned(n)) => if n <= i64::MAX {
                Some(n as i64)
            } else {
                None
            },
            JsonView::Number(NumberView::Negative(n)) => Some(n),
            _ => None,
        }
    }

    pub open spec fn as_bool(self) -> Option<bool> {
        match self {
            JsonView::Bool(b) => Some(b),
            _ => None,
        }
    }

    pub open spec fn text_field(self, key: Seq<char>) -> Option<Seq<char>> {
        match self.field(key) {
            Some(v) => v.as_text(),
            None => None,
        }
    }

    pub open spec fn unsigned_field(self, key: Seq<char>) -> Option<u64> {
        match self.field(key) {
            Some(v) => v.as_unsigned(),
            None => None,
        }
    }

    pub open spec fn signed_field(self, key: Seq<char>) -> Option<i64> {
        match self.field(key) {
            Some(v) => v.as_signed(),
            None => None,
        }
    }

    pub open spec fn bool_field(self, key: Seq<char>) -> Option<bool> {
        match self.field(key) {
            Some(v) => v.as_bool(),
            None => None,
        }
    }

    /// The object with one member set; another value stays as it is.
    pub open spec fn with(self, key: Seq<char>, value: JsonView) -> Self {
        match self {
            JsonView::Object(m) => JsonView::Object(m.insert(key, value)),
            _ => self,
        }
    }

    pub open spec fn without(self, key: Seq<char>) -> Self {
        match self {
            JsonView::Object(m) => JsonView::Object(m.remove(key)),
            _ => self,
        }
    }

    pub open spec fn empty_object() -> Self {
        JsonView::Object(Map::empty())
    }

    pub open spec fn number(n: nat) -> Self {
        JsonView::Number(NumberView::Unsigned(n as u64))
    }

    pub open spec fn signed(n: i64) -> Self {
        if n < 0 {
            JsonView::Number(NumberView::Negative(n))
        } else {
            JsonView::Number(NumberView::Unsigned(n as u64))
        }
    }
}

pub open spec fn or_null(t: Option<Seq<char>>) -> JsonView {
    match t {
        Some(s) => JsonView::Text(s),
        None => JsonView::Null,
    }
}

pub open spec fn number_or_null(n: Option<u64>) -> JsonView {
    match n {
        Some(k) => JsonView::Number(NumberView::Unsigned(k)),
        None => JsonView::Null,
    }
}

/// A member that was set is read back, and the other members keep their values.
pub proof fn set_member_is_read_back(v: JsonView, key: Seq<char>, value: JsonView, other: Seq<char>)
    requires
        v is Object,
    ensures
        v.with(key, value).field(key) == Some(value),
        other != key ==> v.with(key, value).field(other) == v.field(other),
{
}

} // verus!

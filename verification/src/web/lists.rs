//! Lists of values: sorted by a key, and cut into pages.

use vstd::prelude::*;
use crate::json::{array_view, group_json, Json, JsonView};
use crate::text_map::{less, less_is_irreflexive, less_is_total, less_is_transitive, text_less};
use crate::web::http::{page_bounds, page_window};
use crate::web::live_model::or_empty;

verus! {

broadcast use group_json;

/// The text by which a value is sorted.
pub open spec fn sort_key(v: JsonView, field: Seq<char>) -> Seq<char> {
    or_empty(v.text_field(field))
}

/// The values of a key, in order.
pub open spec fn of_key(s: Seq<JsonView>, field: Seq<char>, key: Seq<char>) -> Seq<JsonView>
    decreases s.len(),
{
    if s.len() == 0 {
        Seq::empty()
    } else {
        let rest = of_key(s.drop_last(), field, key);
        if sort_key(s.last(), field) == key {
            rest.push(s.last())
        } else {
            rest
        }
    }
}

/// Whether no value comes before one of a lesser key.
pub open spec fn is_sorted(s: Seq<JsonView>, field: Seq<char>) -> bool {
    forall|i: int, j: int|
        0 <= i < j < s.len() ==> !less(
            sort_key(#[trigger] s[j], field),
            sort_key(#[trigger] s[i], field),
        )
}

proof fn lemma_of_key_add(a: Seq<JsonView>, b: Seq<JsonView>, field: Seq<char>, key: Seq<char>)
    ensures
        of_key(a + b, field, key) == of_key(a, field, key) + of_key(b, field, key),
    decreases b.len(),
{
    if b.len() == 0 {
        assert(a + b =~= a);
        assert(of_key(a, field, key) + Seq::empty() =~= of_key(a, field, key));
    } else {
        lemma_of_key_add(a, b.drop_last(), field, key);
        assert((a + b).drop_last() =~= a + b.drop_last());
        assert((a + b).last() == b.last());
        if sort_key(b.last(), field) == key {
            assert((of_key(a, field, key) + of_key(b.drop_last(), field, key)).push(b.last())
                =~= of_key(a, field, key) + of_key(b, field, key));
        }
    }
}

proof fn lemma_of_key_none(s: Seq<JsonView>, field: Seq<char>, key: Seq<char>)
    requires
        forall|i: int| 0 <= i < s.len() ==> sort_key(#[trigger] s[i], field) != key,
    ensures
        of_key(s, field, key).len() == 0,
    decreases s.len(),
{
    if s.len() > 0 {
        assert(sort_key(s[s.len() - 1], field) != key);
        assert forall|i: int| 0 <= i < s.drop_last().len() implies sort_key(
            #[trigger] s.drop_last()[i],
            field,
        ) != key by {
            assert(sort_key(s[i], field) != key);
        }
        lemma_of_key_none(s.drop_last(), field, key);
    }
}

/// Putting a value behind all that do not come after it keeps the values of each key in
/// order.
proof fn lemma_insert(s: Seq<JsonView>, p: int, x: JsonView, field: Seq<char>)
    requires
        0 <= p <= s.len(),
        is_sorted(s, field),
        forall|i: int| 0 <= i < p ==> !less(sort_key(x, field), sort_key(#[trigger] s[i], field)),
        p < s.len() ==> less(sort_key(x, field), sort_key(s[p], field)),
    ensures
        is_sorted(s.insert(p, x), field),
        forall|key: Seq<char>| #[trigger]
            of_key(s.insert(p, x), field, key) == of_key(s.push(x), field, key),
{
    let t = s.insert(p, x);
    let k = sort_key(x, field);
    assert forall|i: int| p <= i < s.len() implies less(k, sort_key(#[trigger] s[i], field)) by {
        if i > p {
            let a = sort_key(s[p], field);
            let b = sort_key(s[i], field);
            assert(!less(b, a));
            less_is_total(a, b);
            if a == b {
            } else {
                less_is_transitive(k, a, b);
            }
        }
    }
    assert forall|i: int, j: int| 0 <= i < j < t.len() implies !less(
        sort_key(#[trigger] t[j], field),
        sort_key(#[trigger] t[i], field),
    ) by {
        if j < p {
            assert(t[i] == s[i] && t[j] == s[j]);
        } else if j == p {
            assert(t[i] == s[i]);
        } else {
            assert(t[j] == s[j - 1]);
            let b = sort_key(s[j - 1], field);
            if i == p {
                if less(b, k) {
                    less_is_transitive(k, b, k);
                    less_is_irreflexive(k);
                }
            } else if i > p {
                assert(t[i] == s[i - 1]);
            } else {
                assert(t[i] == s[i]);
            }
        }
    }
    assert forall|key: Seq<char>| #[trigger]
        of_key(t, field, key) == of_key(s.push(x), field, key) by {
        let a = s.take(p);
        let b = s.skip(p);
        assert(t =~= a.push(x) + b);
        assert(s =~= a + b);
        lemma_of_key_add(a.push(x), b, field, key);
        lemma_of_key_add(a, b, field, key);
        assert(a.push(x).drop_last() =~= a);
        assert(s.push(x).drop_last() =~= s);
        if key == k {
            assert forall|i: int| 0 <= i < b.len() implies sort_key(#[trigger] b[i], field)
                != key by {
                assert(b[i] == s[p + i]);
                assert(less(k, sort_key(s[p + i], field)));
                less_is_irreflexive(k);
            }
            lemma_of_key_none(b, field, key);
            assert(of_key(b, field, key) =~= Seq::empty());
            assert(of_key(t, field, key) =~= of_key(s.push(x), field, key));
        } else {
            assert(of_key(t, field, key) =~= of_key(s.push(x), field, key));
        }
    }
}

fn key_of<'a>(value: &'a Json, field: &str) -> (r: &'a str)
    ensures
        r@ == sort_key(value@, field@),
{
    match value.text_field(field) {
        Some(t) => t,
        None => {
            proof {
                reveal_strlit("");
                assert(""@ =~= Seq::<char>::empty());
            }
            ""
        },
    }
}

/// Where a value belongs among sorted ones, from an index on: before the first that comes
/// after it.
pub open spec fn place(s: Seq<JsonView>, x: JsonView, field: Seq<char>, i: int) -> int
    decreases s.len() - i,
{
    if i < 0 || i >= s.len() {
        s.len() as int
    } else if less(sort_key(x, field), sort_key(s[i], field)) {
        i
    } else {
        place(s, x, field, i + 1)
    }
}

/// The values sorted by the text of a field. Values of the same text keep their order.
pub open spec fn sorted_by(s: Seq<JsonView>, field: Seq<char>) -> Seq<JsonView>
    decreases s.len(),
{
    if s.len() == 0 {
        Seq::empty()
    } else {
        let rest = sorted_by(s.drop_last(), field);
        rest.insert(place(rest, s.last(), field, 0), s.last())
    }
}

proof fn lemma_place(s: Seq<JsonView>, x: JsonView, field: Seq<char>, i: int)
    requires
        0 <= i <= s.len(),
    ensures
        ({
            let p = place(s, x, field, i);
            &&& i <= p <= s.len()
            &&& forall|k: int|
                i <= k < p ==> !less(sort_key(x, field), sort_key(#[trigger] s[k], field))
            &&& p < s.len() ==> less(sort_key(x, field), sort_key(s[p], field))
        }),
    decreases s.len() - i,
{
    if i < s.len() && !less(sort_key(x, field), sort_key(s[i], field)) {
        lemma_place(s, x, field, i + 1);
    }
}

/// What is sorted holds the same values as before: those of each text in their order, and
/// none of a lesser text behind one of a greater.
pub proof fn sorting_only_orders(s: Seq<JsonView>, field: Seq<char>)
    ensures
        sorted_by(s, field).len() == s.len(),
        is_sorted(sorted_by(s, field), field),
        forall|key: Seq<char>| #[trigger]
            of_key(sorted_by(s, field), field, key) == of_key(s, field, key),
    decreases s.len(),
{
    if s.len() > 0 {
        let front = s.drop_last();
        let rest = sorted_by(front, field);
        let x = s.last();
        sorting_only_orders(front, field);
        lemma_place(rest, x, field, 0);
        lemma_insert(rest, place(rest, x, field, 0), x, field);
        assert forall|key: Seq<char>| #[trigger]
            of_key(sorted_by(s, field), field, key) == of_key(s, field, key) by {
            assert(rest.push(x).drop_last() =~= rest);
            assert(of_key(rest, field, key) == of_key(front, field, key));
        }
    }
}

/// Sorts values by the text of a field.
pub fn sort_by_field(values: Vec<Json>, field: &str) -> (r: Vec<Json>)
    ensures
        array_view(r@) == sorted_by(array_view(values@), field@),
{
    let ghost all = array_view(values@);
    let n: usize = values.len();
    let mut r: Vec<Json> = Vec::new();
    let mut i: usize = 0;
    assert(all.take(0) =~= Seq::empty());
    assert(array_view(r@) =~= Seq::empty());
    while i < n
        invariant
            i <= n,
            n == values@.len(),
            all == array_view(values@),
            all.len() == n,
            array_view(r@) == sorted_by(all.take(i as int), field@),
        decreases n - i,
    {
        let x: Json = values[i].copy();
        let mut p: usize = 0;
        while p < r.len() && !text_less(key_of(&x, field), key_of(&r[p], field))
            invariant
                p <= r@.len(),
                place(array_view(r@), x@, field@, 0) == place(
                    array_view(r@),
                    x@,
                    field@,
                    p as int,
                ),
            decreases r@.len() - p,
        {
            assert(array_view(r@)[p as int] == r@[p as int]@);
            p += 1;
        }
        let ghost before = array_view(r@);
        proof {
            if p < r@.len() {
                assert(before[p as int] == r@[p as int]@);
            }
            assert(place(before, x@, field@, 0) == p);
        }
        r.insert(p, x);
        proof {
            assert(array_view(r@) =~= before.insert(p as int, x@));
            assert(all[i as int] == x@);
            assert(all.take(i + 1).drop_last() =~= all.take(i as int));
            assert(all.take(i + 1).last() == x@);
        }
        i += 1;
    }
    assert(all.take(n as int) =~= all);
    r
}

/// The page of a list.
pub open spec fn page_of(s: Seq<JsonView>, offset: nat, limit: nat) -> Seq<JsonView> {
    let (start, end) = page_bounds(offset, limit, s.len());
    s.subrange(start as int, end as int)
}

/// Picks the page of a list.
pub fn take_page(values: &Vec<Json>, offset: usize, limit: usize) -> (r: Vec<Json>)
    ensures
        array_view(r@) == page_of(array_view(values@), offset as nat, limit as nat),
{
    let ghost all = array_view(values@);
    assert(all.len() == values@.len());
    let (start, end) = page_window(offset, limit, values.len());
    let mut r: Vec<Json> = Vec::new();
    let mut i: usize = start;
    while i < end
        invariant
            start <= i <= end,
            end <= values@.len(),
            all == array_view(values@),
            array_view(r@) =~= all.subrange(start as int, i as int),
        decreases end - i,
    {
        assert(all[i as int] == values@[i as int]@);
        r.push(values[i].copy());
        i += 1;
    }
    r
}

} // verus!

//! Splitting text into parts, joining parts, and replacing within text.

use vstd::prelude::*;
use crate::text::{
    char_lower, chars_of, find_char, find_space, index_of, index_of_nonspace, index_of_space,
    is_char, is_space, lemma_position, lemma_position_is, lower_char, match_at, occurs_at, string_range,
    trim_start_seq, views,
};

verus! {

/// The parts of `s` between the occurrences of `c`; one more than there are occurrences.
pub open spec fn split_seq(s: Seq<char>, c: char) -> Seq<Seq<char>>
    decreases s.len(),
{
    let i = find_char(s, c);
    if 0 <= i < s.len() {
        seq![s.take(i)] + split_seq(s.skip(i + 1), c)
    } else {
        seq![s]
    }
}

/// The maximal runs of characters that are not white space.
pub open spec fn words_seq(s: Seq<char>) -> Seq<Seq<char>>
    decreases s.len(),
{
    let t = trim_start_seq(s);
    let i = find_space(t);
    if 0 < i <= t.len() <= s.len() {
        seq![t.take(i)] + words_seq(t.skip(i))
    } else {
        Seq::empty()
    }
}

/// The parts in order, with `sep` between each two neighbours.
pub open spec fn join_seq(parts: Seq<Seq<char>>, sep: Seq<char>) -> Seq<char>
    decreases parts.len(),
{
    if parts.len() == 0 {
        Seq::empty()
    } else if parts.len() == 1 {
        parts[0]
    } else {
        parts[0] + sep + join_seq(parts.drop_first(), sep)
    }
}

/// Joining what was split gives the text back.
pub proof fn split_then_join(s: Seq<char>, c: char)
    ensures
        join_seq(split_seq(s, c), seq![c]) == s,
    decreases s.len(),
{
    lemma_position(s, is_char(c));
    let i = find_char(s, c);
    if i < s.len() {
        let rest = s.skip(i + 1);
        split_then_join(rest, c);
        let parts = split_seq(s, c);
        lemma_split_nonempty(rest, c);
        assert(parts.drop_first() =~= split_seq(rest, c));
        assert(join_seq(parts, seq![c]) =~= s);
    } else {
        assert(split_seq(s, c) =~= seq![s]);
    }
}

pub proof fn lemma_split_nonempty(s: Seq<char>, c: char)
    ensures
        split_seq(s, c).len() > 0,
{
}

/// Parts that were joined by a character that none of them holds are split again.
pub proof fn join_then_split(parts: Seq<Seq<char>>, c: char)
    requires
        parts.len() > 0,
        forall|i: int| 0 <= i < parts.len() ==> !(#[trigger] parts[i]).contains(c),
    ensures
        split_seq(join_seq(parts, seq![c]), c) == parts,
    decreases parts.len(),
{
    let s = join_seq(parts, seq![c]);
    let a = parts[0];
    if parts.len() == 1 {
        lemma_position_is(a, is_char(c), a.len() as int);
        assert(split_seq(s, c) =~= parts);
    } else {
        let rest = parts.drop_first();
        assert forall|i: int| 0 <= i < rest.len() implies !(#[trigger] rest[i]).contains(c) by {
            assert(rest[i] == parts[i + 1]);
        }
        join_then_split(rest, c);
        lemma_position_is(s, is_char(c), a.len() as int);
        assert(s.take(a.len() as int) =~= a);
        assert(s.skip(a.len() as int + 1) =~= join_seq(rest, seq![c]));
        assert(split_seq(s, c) =~= parts);
    }
}

/// Whether a text is one word: not empty, and without white space.
pub open spec fn is_one_word(t: Seq<char>) -> bool {
    t.len() > 0 && forall|i: int| 0 <= i < t.len() ==> !is_space(#[trigger] t[i])
}

/// The words of a text are what stands between its white space, in order.
pub proof fn words_stand_between_spaces(parts: Seq<Seq<char>>, before: Seq<char>)
    requires
        parts.len() > 0,
        forall|i: int| 0 <= i < parts.len() ==> is_one_word(#[trigger] parts[i]),
        forall|i: int| 0 <= i < before.len() ==> is_space(#[trigger] before[i]),
    ensures
        words_seq(before + join_seq(parts, " "@)) == parts,
    decreases parts.len(),
{
    reveal_strlit(" ");
    let w = parts[0];
    let j = join_seq(parts, " "@);
    let s = before + j;
    assert(is_one_word(w));
    let p = |x: char| !is_space(x);
    let q = |x: char| is_space(x);
    assert(j[0] == w[0]);
    lemma_position_is(s, p, before.len() as int);
    assert(s.skip(before.len() as int) =~= j);
    if parts.len() == 1 {
        lemma_position_is(j, q, j.len() as int);
        assert(j.take(j.len() as int) =~= w);
        let rest = j.skip(j.len() as int);
        assert(rest =~= Seq::empty());
        lemma_position_is(rest, p, 0);
        assert(rest.skip(0) =~= rest);
        lemma_position_is(rest, q, 0);
        assert(words_seq(rest) =~= Seq::empty());
        assert(words_seq(s) =~= parts);
    } else {
        let more = parts.drop_first();
        assert forall|i: int| 0 <= i < more.len() implies is_one_word(#[trigger] more[i]) by {
            assert(more[i] == parts[i + 1]);
        }
        let n = w.len() as int;
        assert(j[n] == ' ');
        lemma_position_is(j, q, n);
        assert(j.take(n) =~= w);
        assert(j.skip(n) =~= " "@ + join_seq(more, " "@));
        words_stand_between_spaces(more, " "@);
        assert(words_seq(s) =~= parts);
    }
}

/// No part of a split holds the character that it was split at.
pub proof fn split_parts_hold_no_separator(s: Seq<char>, c: char, k: int)
    requires
        0 <= k < split_seq(s, c).len(),
    ensures
        !split_seq(s, c)[k].contains(c),
    decreases s.len(),
{
    lemma_position(s, is_char(c));
    let i = find_char(s, c);
    if i < s.len() {
        if k == 0 {
            assert forall|j: int| 0 <= j < i implies s.take(i)[j] != c by {
                assert(!is_char(c)(s[j]));
            }
        } else {
            split_parts_hold_no_separator(s.skip(i + 1), c, k - 1);
        }
    } else {
        assert forall|j: int| 0 <= j < s.len() implies s[j] != c by {
            assert(!is_char(c)(s[j]));
        }
    }
}

proof fn lemma_views_push(list: Seq<String>, t: String)
    ensures
        views(list.push(t)) == views(list).push(t@),
{
    assert(views(list.push(t)) =~= views(list).push(t@));
}

/// Splits the characters at every `c`.
pub fn split_chars(chars: &[char], c: char) -> (parts: Vec<String>)
    ensures
        views(parts@) == split_seq(chars@, c),
{
    let mut parts: Vec<String> = Vec::new();
    let mut start: usize = 0;
    assert(views(parts@) + split_seq(chars@.skip(0), c) =~= split_seq(chars@, c)) by {
        assert(chars@.skip(0) =~= chars@);
    }
    loop
        invariant
            start <= chars@.len(),
            views(parts@) + split_seq(chars@.skip(start as int), c) == split_seq(chars@, c),
        decreases chars@.len() - start,
    {
        let mut i: usize = start;
        let ghost rest = chars@.skip(start as int);
        while i < chars.len() && chars[i] != c
            invariant
                start <= i <= chars@.len(),
                rest == chars@.skip(start as int),
                forall|j: int| 0 <= j < i - start ==> rest[j] != c,
            decreases chars@.len() - i,
        {
            i += 1;
        }
        proof {
            crate::text::lemma_position_is(rest, is_char(c), i - start);
        }
        let part: String = string_range(chars, start, i);
        let ghost before = parts@;
        assert(part@ =~= rest.take(i - start));
        parts.push(part);
        proof {
            lemma_views_push(before, part);
        }
        if i == chars.len() {
            assert(rest.take(i - start) =~= rest);
            assert(views(parts@) =~= split_seq(chars@, c));
            return parts;
        }
        assert(rest.skip(i - start + 1) =~= chars@.skip(i + 1));
        assert(views(parts@) + split_seq(chars@.skip(i + 1), c) =~= views(before) + split_seq(
            rest,
            c,
        ));
        start = i + 1;
    }
}

pub fn split_char(text: &str, c: char) -> (parts: Vec<String>)
    ensures
        views(parts@) == split_seq(text@, c),
{
    let chars: Vec<char> = chars_of(text);
    split_chars(chars.as_slice(), c)
}

/// The words of the text: what stands between white space.
pub fn split_words(text: &str) -> (parts: Vec<String>)
    ensures
        views(parts@) == words_seq(text@),
{
    let chars: Vec<char> = chars_of(text);
    let mut parts: Vec<String> = Vec::new();
    let mut start: usize = 0;
    assert(views(parts@) + words_seq(chars@.skip(0)) =~= words_seq(chars@)) by {
        assert(chars@.skip(0) =~= chars@);
    }
    loop
        invariant
            start <= chars@.len(),
            chars@ == text@,
            views(parts@) + words_seq(chars@.skip(start as int)) == words_seq(chars@),
        decreases chars@.len() - start,
    {
        let a: usize = index_of_nonspace(chars.as_slice(), start);
        let ghost rest = chars@.skip(start as int);
        let ghost t = trim_start_seq(rest);
        assert(t =~= chars@.skip(a as int));
        let b: usize = index_of_space(chars.as_slice(), a);
        proof {
            lemma_position(rest, |x: char| !is_space(x));
            lemma_position(t, |x: char| is_space(x));
            if a < chars@.len() {
                assert(t[0] == rest[a - start]);
            }
        }
        if a == chars.len() {
            assert(words_seq(rest) =~= Seq::empty());
            assert(views(parts@) =~= words_seq(chars@));
            return parts;
        }
        let part: String = string_range(chars.as_slice(), a, b);
        let ghost before = parts@;
        assert(part@ =~= t.take(b - a));
        parts.push(part);
        proof {
            lemma_views_push(before, part);
            assert(t.skip(b - a) =~= chars@.skip(b as int));
            assert(views(parts@) + words_seq(chars@.skip(b as int)) =~= views(before) + words_seq(
                rest,
            ));
        }
        start = b;
    }
}

/// The parts in order, with `sep` between each two neighbours.
pub fn join(parts: &[String], sep: &str) -> (r: String)
    ensures
        r@ == join_seq(views(parts@), sep@),
{
    let mut r: String = String::new();
    let mut i: usize = parts.len();
    let ghost all = views(parts@);
    assert(all.skip(all.len() as int) =~= Seq::empty());
    while i > 0
        invariant
            i <= parts@.len(),
            all == views(parts@),
            r@ == join_seq(all.skip(i as int), sep@),
        decreases i,
    {
        let ghost rest = all.skip(i as int);
        let mut s: String = parts[i - 1].clone();
        if i < parts.len() {
            s.append(sep);
            s.append(r.as_str());
        }
        proof {
            let now = all.skip(i - 1);
            assert(now.drop_first() =~= rest);
            assert(now[0] == parts@[i - 1]@);
        }
        r = s;
        i -= 1;
    }
    assert(all.skip(0) =~= all);
    r
}

/// ASCII letters in lower case, every other character as it is.
pub open spec fn lower_seq(s: Seq<char>) -> Seq<char> {
    s.map_values(|c: char| lower_char(c))
}

pub fn to_lower(text: &str) -> (r: String)
    ensures
        r@ == lower_seq(text@),
{
    let mut r: String = String::new();
    let chars: Vec<char> = chars_of(text);
    let mut i: usize = 0;
    while i < chars.len()
        invariant
            i <= chars@.len(),
            chars@ == text@,
            r@ =~= lower_seq(text@).take(i as int),
        decreases chars@.len() - i,
    {
        r.push(char_lower(chars[i]));
        i += 1;
    }
    assert(lower_seq(text@).take(text@.len() as int) =~= lower_seq(text@));
    r
}

/// Every `c` replaced by `with`.
pub open spec fn replace_seq(s: Seq<char>, c: char, with: Seq<char>) -> Seq<char>
    decreases s.len(),
{
    if s.len() == 0 {
        Seq::empty()
    } else {
        replace_seq(s.drop_last(), c, with) + (if s.last() == c {
            with
        } else {
            seq![s.last()]
        })
    }
}

pub fn replace_char(text: &str, c: char, with: &str) -> (r: String)
    ensures
        r@ == replace_seq(text@, c, with@),
{
    let mut r: String = String::new();
    let chars: Vec<char> = chars_of(text);
    let mut i: usize = 0;
    while i < chars.len()
        invariant
            i <= chars@.len(),
            chars@ == text@,
            r@ == replace_seq(text@.take(i as int), c, with@),
        decreases chars@.len() - i,
    {
        assert(text@.take(i + 1).drop_last() =~= text@.take(i as int));
        let ghost before = r@;
        if chars[i] == c {
            r.append(with);
        } else {
            r.push(chars[i]);
            assert(r@ =~= before + seq![chars@[i as int]]);
        }
        i += 1;
    }
    assert(text@.take(text@.len() as int) =~= text@);
    r
}

/// The first index at which `pattern` stands in `s`, if any.
pub open spec fn find_seq(s: Seq<char>, pattern: Seq<char>) -> Option<int>
    decreases s.len(),
{
    if pattern.is_prefix_of(s) {
        Some(0)
    } else if s.len() == 0 {
        None
    } else {
        match find_seq(s.drop_first(), pattern) {
            Some(i) => Some(i + 1),
            None => None,
        }
    }
}

pub open spec fn no_occurrence_before(s: Seq<char>, pattern: Seq<char>, i: int) -> bool {
    forall|j: int| 0 <= j < i ==> !#[trigger] occurs_at(s, pattern, j)
}

pub proof fn lemma_find_seq_is(s: Seq<char>, pattern: Seq<char>, i: int)
    requires
        0 <= i,
        occurs_at(s, pattern, i),
        no_occurrence_before(s, pattern, i),
    ensures
        find_seq(s, pattern) == Some(i),
    decreases s.len(),
{
    if i == 0 {
        assert(s.subrange(0, pattern.len() as int) =~= s.take(pattern.len() as int));
    } else {
        assert(!occurs_at(s, pattern, 0));
        if pattern.is_prefix_of(s) {
            assert(s.subrange(0, pattern.len() as int) =~= pattern);
        }
        let t = s.drop_first();
        assert(t.subrange(i - 1, i - 1 + pattern.len()) =~= s.subrange(i, i + pattern.len()));
        assert forall|j: int| 0 <= j < i - 1 implies !#[trigger] occurs_at(t, pattern, j) by {
            assert(!occurs_at(s, pattern, j + 1));
            if j + pattern.len() <= t.len() {
                assert(t.subrange(j, j + pattern.len()) =~= s.subrange(
                    j + 1,
                    j + 1 + pattern.len(),
                ));
            }
        }
        lemma_find_seq_is(t, pattern, i - 1);
    }
}

pub proof fn lemma_find_seq_none(s: Seq<char>, pattern: Seq<char>)
    requires
        no_occurrence_before(s, pattern, s.len() as int + 1),
    ensures
        find_seq(s, pattern) is None,
    decreases s.len(),
{
    assert(!occurs_at(s, pattern, 0));
    if pattern.is_prefix_of(s) {
        assert(s.subrange(0, pattern.len() as int) =~= pattern);
    }
    if s.len() > 0 {
        let t = s.drop_first();
        assert forall|j: int| 0 <= j < t.len() + 1 implies !#[trigger] occurs_at(t, pattern, j) by {
            assert(!occurs_at(s, pattern, j + 1));
            if j + pattern.len() <= t.len() {
                assert(t.subrange(j, j + pattern.len()) =~= s.subrange(
                    j + 1,
                    j + 1 + pattern.len(),
                ));
            }
        }
        lemma_find_seq_none(t, pattern);
    }
}

/// Where `find_seq` gives an index, the pattern stands there and nowhere before.
pub proof fn lemma_find_seq(s: Seq<char>, pattern: Seq<char>)
    ensures
        find_seq(s, pattern) matches Some(i) ==> occurs_at(s, pattern, i) && no_occurrence_before(
            s,
            pattern,
            i,
        ),
        find_seq(s, pattern) is None ==> no_occurrence_before(s, pattern, s.len() as int + 1),
    decreases s.len(),
{
    if pattern.is_prefix_of(s) {
        assert(s.subrange(0, pattern.len() as int) =~= pattern);
    } else if s.len() == 0 {
        assert forall|j: int| 0 <= j < 1 implies !#[trigger] occurs_at(s, pattern, j) by {
            if occurs_at(s, pattern, j) {
                assert(pattern =~= s);
            }
        }
    } else {
        let t = s.drop_first();
        lemma_find_seq(t, pattern);
        assert(!occurs_at(s, pattern, 0)) by {
            if occurs_at(s, pattern, 0) {
                assert(s.take(pattern.len() as int) =~= s.subrange(0, pattern.len() as int));
            }
        }
        let bound = match find_seq(s, pattern) {
            Some(i) => i,
            None => s.len() as int + 1,
        };
        assert forall|j: int| 0 <= j < bound implies !#[trigger] occurs_at(s, pattern, j) by {
            if j > 0 {
                assert(!occurs_at(t, pattern, j - 1));
                if j + pattern.len() <= s.len() {
                    assert(t.subrange(j - 1, j - 1 + pattern.len()) =~= s.subrange(
                        j,
                        j + pattern.len(),
                    ));
                }
            }
        }
        if let Some(i) = find_seq(s, pattern) {
            assert(t.subrange(i - 1, i - 1 + pattern.len()) =~= s.subrange(i, i + pattern.len()));
        }
    }
}

/// Finds the first occurrence of `pattern` at or after `from`.
pub fn index_of_text(chars: &[char], from: usize, pattern: &[char]) -> (r: Option<usize>)
    requires
        from <= chars@.len(),
    ensures
        match (r, find_seq(chars@.skip(from as int), pattern@)) {
            (Some(i), Some(k)) => i == from + k && from <= i && i + pattern@.len() <= chars@.len(),
            (None, None) => true,
            _ => false,
        },
{
    let mut i: usize = from;
    let ghost rest = chars@.skip(from as int);
    while i <= chars.len() && pattern.len() <= chars.len() - i
        invariant
            from <= i <= chars@.len() + 1,
            rest == chars@.skip(from as int),
            no_occurrence_before(rest, pattern@, i - from),
        decreases chars@.len() + 1 - i,
    {
        if match_at(chars, i, pattern) {
            proof {
                assert(rest.subrange(i - from, i - from + pattern@.len()) =~= chars@.subrange(
                    i as int,
                    i + pattern@.len(),
                ));
                lemma_find_seq_is(rest, pattern@, i - from);
            }
            return Some(i);
        }
        assert(!occurs_at(rest, pattern@, i - from)) by {
            if occurs_at(rest, pattern@, i - from) {
                assert(rest.subrange(i - from, i - from + pattern@.len()) =~= chars@.subrange(
                    i as int,
                    i + pattern@.len(),
                ));
            }
        }
        if i == chars.len() {
            proof {
                lemma_find_seq_none(rest, pattern@);
            }
            return None;
        }
        i += 1;
    }
    proof {
        assert forall|j: int| 0 <= j < rest.len() + 1 implies !#[trigger] occurs_at(
            rest,
            pattern@,
            j,
        ) by {
            if j >= i - from {
                assert(j + pattern@.len() > rest.len());
            }
        }
        lemma_find_seq_none(rest, pattern@);
    }
    None
}

/// Whether `pattern` occurs in the text.
pub fn contains(text: &str, pattern: &str) -> (b: bool)
    ensures
        b == (find_seq(text@, pattern@) is Some),
{
    let chars: Vec<char> = chars_of(text);
    let p: Vec<char> = chars_of(pattern);
    assert(chars@.skip(0) =~= chars@);
    index_of_text(chars.as_slice(), 0, p.as_slice()).is_some()
}

/// Whether the character occurs in the text.
pub fn contains_char(text: &str, c: char) -> (b: bool)
    ensures
        b == text@.contains(c),
{
    let chars: Vec<char> = chars_of(text);
    let i: usize = index_of(chars.as_slice(), c);
    proof {
        lemma_position(text@, is_char(c));
        if i < chars@.len() {
            assert(text@[i as int] == c);
        } else if text@.contains(c) {
            let k = choose|k: int| 0 <= k < text@.len() && text@[k] == c;
            assert(!is_char(c)(text@[k]));
        }
    }
    i < chars.len()
}

} // verus!

//! Lengths of text in UTF-16 code units.

use vstd::prelude::*;
use vstd::utf8::encode_utf8;
use crate::text::chars_of;

verus! {

/// The number of UTF-16 code units of one character.
pub open spec fn units(c: char) -> nat {
    if (c as u32) < 0x10000 {
        1
    } else {
        2
    }
}

/// The number of UTF-16 code units of a text.
pub open spec fn utf16(s: Seq<char>) -> nat
    decreases s.len(),
{
    if s.len() == 0 {
        0
    } else {
        units(s[0]) + utf16(s.drop_first())
    }
}

pub proof fn lemma_utf16_concat(a: Seq<char>, b: Seq<char>)
    ensures
        utf16(a + b) == utf16(a) + utf16(b),
    decreases a.len(),
{
    if a.len() == 0 {
        assert(a + b =~= b);
    } else {
        assert((a + b).drop_first() =~= a.drop_first() + b);
        lemma_utf16_concat(a.drop_first(), b);
    }
}

proof fn lemma_utf16_push(a: Seq<char>, c: char)
    ensures
        utf16(a.push(c)) == utf16(a) + units(c),
{
    assert(a.push(c) =~= a + seq![c]);
    lemma_utf16_concat(a, seq![c]);
    assert(seq![c].drop_first() =~= Seq::empty());
    assert(utf16(seq![c]) == units(c) + utf16(Seq::empty()));
}

/// A text with a prefix cut off: the units of the two parts add up.
pub proof fn lemma_utf16_split(s: Seq<char>, i: int)
    requires
        0 <= i <= s.len(),
    ensures
        utf16(s) == utf16(s.take(i)) + utf16(s.skip(i)),
{
    assert(s =~= s.take(i) + s.skip(i));
    lemma_utf16_concat(s.take(i), s.skip(i));
}

proof fn lemma_utf16_positive(s: Seq<char>)
    ensures
        s.len() <= utf16(s) <= 2 * s.len(),
    decreases s.len(),
{
    if s.len() > 0 {
        lemma_utf16_positive(s.drop_first());
    }
}

/// UTF-8 never takes fewer bytes than UTF-16 takes units.
proof fn lemma_utf16_within_utf8(s: Seq<char>)
    ensures
        utf16(s) <= encode_utf8(s).len(),
    decreases s.len(),
{
    if s.len() > 0 {
        lemma_utf16_within_utf8(s.drop_first());
    }
}

/// The number of UTF-16 code units of a text.
pub fn utf16_len(value: &str) -> (n: usize)
    ensures
        n == utf16(value@),
{
    let bytes: &[u8] = value.as_bytes();
    let bound: usize = bytes.len();
    proof {
        lemma_utf16_within_utf8(value@);
    }
    let chars: Vec<char> = chars_of(value);
    let mut n: usize = 0;
    let mut i: usize = 0;
    assert(value@.take(0) =~= Seq::empty());
    while i < chars.len()
        invariant
            i <= chars@.len(),
            chars@ == value@,
            n == utf16(value@.take(i as int)),
            utf16(value@) <= bound,
        decreases chars@.len() - i,
    {
        proof {
            assert(value@.take(i + 1) =~= value@.take(i as int).push(value@[i as int]));
            lemma_utf16_push(value@.take(i as int), value@[i as int]);
            lemma_utf16_split(value@, i + 1);
        }
        if (chars[i] as u32) < 0x10000 {
            n += 1;
        } else {
            n += 2;
        }
        i += 1;
    }
    assert(value@.take(value@.len() as int) =~= value@);
    n
}

} // verus!

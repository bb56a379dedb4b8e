//! Laws of texts, numbers and values: what the other laws rest on.

use vstd::prelude::*;
use crate::cache::{cache_key, hash_of, hex_text, preview_files, small_hex_digit, thumbnail_place};
use crate::json::JsonView;
use crate::number::{decimal, digit_char, signed_decimal};
use crate::path_laws::joined_path_ends_in_the_name;
use crate::text::{is_ascii_word, is_digit, is_space, lower_char};
use crate::text_map::less;
use crate::utf16::{lemma_utf16_concat, units, utf16};
use crate::words::{lower_seq, replace_seq};

verus! {

/// White space is blanks, tabs and line breaks, and never a letter, a digit or a mark of
/// ASCII.
pub proof fn white_space_is_invisible(c: char)
    ensures
        is_space(' ') && is_space('\t') && is_space('\n') && is_space('\r'),
        0x21 <= c as u32 <= 0x7e ==> !is_space(c),
        is_space(c) ==> !is_ascii_word(c),
{
}

/// Words are written in letters of ASCII and digits.
pub proof fn words_are_letters_and_digits(c: char)
    ensures
        is_ascii_word(c) <==> ('a' <= c && c <= 'z') || ('A' <= c && c <= 'Z') || ('0' <= c && c
            <= '9'),
        is_digit(c) <==> '0' <= c && c <= '9',
{
}

/// Capital letters of ASCII become small ones; nothing else changes, and the length stays.
pub proof fn small_letters_are_kept(s: Seq<char>, i: int)
    requires
        0 <= i < s.len(),
    ensures
        lower_seq(s).len() == s.len(),
        'A' <= s[i] && s[i] <= 'Z' ==> lower_seq(s)[i] as u32 == s[i] as u32 + 32,
        !('A' <= s[i] && s[i] <= 'Z') ==> lower_seq(s)[i] == s[i],
        lower_seq(lower_seq(s)) == lower_seq(s),
{
    assert forall|k: int| 0 <= k < s.len() implies lower_char(#[trigger] lower_char(s[k]))
        == lower_char(s[k]) by {}
    assert(lower_seq(lower_seq(s)) =~= lower_seq(s));
}

/// Each occurrence of a character is replaced, and the text around it stays.
pub proof fn each_occurrence_is_replaced(a: Seq<char>, c: char, with: Seq<char>, d: char)
    requires
        d != c,
    ensures
        replace_seq(a.push(c), c, with) == replace_seq(a, c, with) + with,
        replace_seq(a.push(d), c, with) == replace_seq(a, c, with).push(d),
        replace_seq(Seq::empty(), c, with).len() == 0,
{
    assert(a.push(c).drop_last() =~= a);
    assert(a.push(d).drop_last() =~= a);
    assert(replace_seq(a, c, with) + seq![d] =~= replace_seq(a, c, with).push(d));
}

/// A character takes one unit of UTF-16, but for those beyond the first 65536, which take
/// two; the units of a text are those of its characters.
pub proof fn units_are_those_of_the_characters(a: Seq<char>, c: char)
    ensures
        (c as u32) < 0x10000 ==> utf16(a.push(c)) == utf16(a) + 1,
        (c as u32) >= 0x10000 ==> utf16(a.push(c)) == utf16(a) + 2,
        utf16(Seq::empty()) == 0,
{
    assert(a.push(c) =~= a + seq![c]);
    lemma_utf16_concat(a, seq![c]);
    assert(seq![c].drop_first() =~= Seq::empty());
    assert(utf16(seq![c]) == units(c) + utf16(Seq::empty()));
}

/// A number is written in decimal, the highest digit first, and a negative one behind a dash.
pub proof fn numbers_are_written_in_decimal(n: nat, d: nat)
    requires
        d < 10,
        n > 0,
    ensures
        decimal(d).len() == 1,
        decimal(d)[0] as u32 == 0x30 + d,
        decimal(n * 10 + d) == decimal(n) + decimal(d),
        signed_decimal(n as int) == decimal(n),
        signed_decimal(-(n as int)) == seq!['-'] + decimal(n),
{
    let m = n * 10 + d;
    assert(m / 10 == n && m % 10 == d);
    assert(decimal(n).push(digit_char(d)) =~= decimal(n) + decimal(d));
}

/// Texts are ordered by their first character that differs; the start of a text comes before
/// it.
pub proof fn texts_are_ordered_by_characters(
    p: Seq<char>,
    c: char,
    d: char,
    x: Seq<char>,
    y: Seq<char>,
)
    requires
        c < d,
    ensures
        less(p + seq![c] + x, p + seq![d] + y),
        !less(p + seq![d] + y, p + seq![c] + x),
        less(p, p + seq![c] + x),
    decreases p.len(),
{
    let (a, b) = (p + seq![c] + x, p + seq![d] + y);
    if p.len() > 0 {
        let q = p.drop_first();
        texts_are_ordered_by_characters(q, c, d, x, y);
        assert(a.drop_first() =~= q + seq![c] + x);
        assert(b.drop_first() =~= q + seq![d] + y);
    }
}

/// A number in a value is read back, and so are texts and truth values.
pub proof fn values_are_read_back(n: u64, i: i64, t: Seq<char>, b: bool)
    ensures
        JsonView::number(n as nat).as_unsigned() == Some(n),
        JsonView::signed(i).as_signed() == Some(i),
        JsonView::Text(t).as_text() == Some(t),
        JsonView::Bool(b).as_bool() == Some(b),
        JsonView::Null.as_text() is None,
        JsonView::Text(t).as_unsigned() is None,
{
}

/// A member that is taken out is gone, and the others stay.
pub proof fn removed_member_is_gone(v: JsonView, key: Seq<char>, other: Seq<char>)
    requires
        v is Object,
        other != key,
    ensures
        v.without(key).field(key) is None,
        v.without(key).field(other) == v.field(other),
        JsonView::empty_object().field(key) is None,
{
}

proof fn lemma_hex_len(n: nat, k: nat)
    ensures
        hex_text(n, k).len() == k,
    decreases k,
{
    if k > 0 {
        lemma_hex_len(n / 16, (k - 1) as nat);
    }
}

spec fn power16(k: nat) -> nat
    decreases k,
{
    if k == 0 {
        1
    } else {
        16 * power16((k - 1) as nat)
    }
}

proof fn lemma_power16()
    ensures
        power16(16) == 0x1_0000_0000_0000_0000,
{
    reveal_with_fuel(power16, 17);
}

proof fn lemma_hex_differs(m: nat, n: nat, k: nat)
    requires
        m < power16(k),
        n < power16(k),
        hex_text(m, k) == hex_text(n, k),
    ensures
        m == n,
    decreases k,
{
    if k > 0 {
        let j = (k - 1) as nat;
        lemma_hex_len(m / 16, j);
        lemma_hex_len(n / 16, j);
        let (a, b) = (hex_text(m, k), hex_text(n, k));
        assert(a.drop_last() =~= hex_text(m / 16, j));
        assert(b.drop_last() =~= hex_text(n / 16, j));
        assert(a.last() == small_hex_digit((m % 16) as int));
        assert(b.last() == small_hex_digit((n % 16) as int));
        assert(m % 16 == n % 16);
        assert(m / 16 < power16(j) && n / 16 < power16(j)) by {
            assert(power16(k) == 16 * power16(j));
        }
        lemma_hex_differs(m / 16, n / 16, j);
    }
}

/// Previews of files with different hashes are kept apart, under sixteen hexadecimal digits,
/// the image and what is noted of it side by side below the conversation.
pub proof fn previews_are_kept_apart(
    workdir: Seq<char>,
    conversation_id: Seq<char>,
    a: Seq<char>,
    b: Seq<char>,
)
    requires
        workdir.len() > 0,
        hash_of("web-thumbnail-v1"@, a) != hash_of("web-thumbnail-v1"@, b),
    ensures
        cache_key(a) != cache_key(b),
        cache_key(a).len() == 16,
        preview_files(workdir, conversation_id, a) == (
            thumbnail_place(workdir, conversation_id) + seq!['/'] + cache_key(a) + ".jpg"@,
            thumbnail_place(workdir, conversation_id) + seq!['/'] + cache_key(a) + ".json"@,
        ),
{
    let (m, n) = (
        hash_of("web-thumbnail-v1"@, a) as nat,
        hash_of("web-thumbnail-v1"@, b) as nat,
    );
    lemma_hex_len(m, 16);
    lemma_power16();
    if cache_key(a) == cache_key(b) {
        lemma_hex_differs(m, n, 16);
    }
    let dir = thumbnail_place(workdir, conversation_id);
    reveal_strlit("thumbnails");
    assert(dir.len() > 0 && dir.last() != '/');
    let key = cache_key(a);
    lemma_hex_first(m, 16);
    joined_path_ends_in_the_name(dir, key + ".jpg"@);
    joined_path_ends_in_the_name(dir, key + ".json"@);
    assert(dir + seq!['/'] + (key + ".jpg"@) =~= dir + seq!['/'] + key + ".jpg"@);
    assert(dir + seq!['/'] + (key + ".json"@) =~= dir + seq!['/'] + key + ".json"@);
}

proof fn lemma_hex_first(n: nat, k: nat)
    requires
        k > 0,
    ensures
        hex_text(n, k).len() == k,
        hex_text(n, k)[0] != '/',
    decreases k,
{
    lemma_hex_len(n, k);
    if k > 1 {
        lemma_hex_first(n / 16, (k - 1) as nat);
    } else {
        assert(hex_text(n / 16, 0) =~= Seq::empty());
    }
}

} // verus!

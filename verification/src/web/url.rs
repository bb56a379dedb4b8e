//! Addresses: percent notation, queries and path segments.

use vstd::prelude::*;
use vstd::utf8::{
    decode_utf8, encode_utf8, encode_utf8_decode_utf8, encode_utf8_valid_utf8, is_ascii_chars,
    is_ascii_chars_encode_utf8, is_char_boundary, is_char_boundary_iff_not_is_continuation_byte,
    is_char_boundary_start_end_of_seq, valid_utf8,
};
use crate::encoding::{from_utf8_lossy, shown_text, text_of_bytes, utf8_bytes};
use crate::text::{chars_of, opt_view, split_once, split_once_seq, views};
use crate::text_map::TextMap;
use crate::words::{split_char, split_seq};

verus! {

// ---------------------------------------------------------------------------
// Hexadecimal digits
// ---------------------------------------------------------------------------
pub open spec fn hex_value(b: u8) -> Option<u8> {
    if 0x30 <= b <= 0x39 {
        Some((b - 0x30) as u8)
    } else if 0x41 <= b <= 0x46 {
        Some((b - 0x41 + 10) as u8)
    } else if 0x61 <= b <= 0x66 {
        Some((b - 0x61 + 10) as u8)
    } else {
        None
    }
}

/// The byte that two hexadecimal digits write; a plus sign may stand for the first.
pub open spec fn hex_pair(high: u8, low: u8) -> Option<u8> {
    match hex_value(low) {
        None => None,
        Some(l) => if high == 0x2b {
            Some(l)
        } else {
            match hex_value(high) {
                None => None,
                Some(h) => Some((h * 16 + l) as u8),
            }
        },
    }
}

fn read_hex(b: u8) -> (r: Option<u8>)
    ensures
        r == hex_value(b),
{
    if 0x30 <= b && b <= 0x39 {
        Some(b - 0x30)
    } else if 0x41 <= b && b <= 0x46 {
        Some(b - 0x41 + 10)
    } else if 0x61 <= b && b <= 0x66 {
        Some(b - 0x61 + 10)
    } else {
        None
    }
}

fn read_hex_pair(high: u8, low: u8) -> (r: Option<u8>)
    ensures
        r == hex_pair(high, low),
{
    match read_hex(low) {
        None => None,
        Some(l) => {
            if high == 0x2b {
                Some(l)
            } else {
                match read_hex(high) {
                    None => None,
                    Some(h) => Some(h * 16 + l),
                }
            }
        },
    }
}

pub open spec fn plus_as_space(b: u8) -> u8 {
    if b == 0x2b {
        0x20
    } else {
        b
    }
}

// ---------------------------------------------------------------------------
// Strict percent notation
// ---------------------------------------------------------------------------
/// The bytes behind percent notation; none where a percent sign is not followed by two
/// digits.
pub open spec fn percent_bytes(b: Seq<u8>) -> Option<Seq<u8>>
    decreases b.len(),
{
    if b.len() == 0 {
        Some(Seq::empty())
    } else if b[0] == 0x25 {
        if b.len() < 3 {
            None
        } else {
            match (hex_pair(b[1], b[2]), percent_bytes(b.skip(3))) {
                (Some(x), Some(rest)) => Some(seq![x] + rest),
                _ => None,
            }
        }
    } else {
        match percent_bytes(b.skip(1)) {
            Some(rest) => Some(seq![plus_as_space(b[0])] + rest),
            None => None,
        }
    }
}

/// The text behind percent notation, if it is one.
pub open spec fn percent_decoded(s: Seq<char>) -> Option<Seq<char>> {
    match percent_bytes(encode_utf8(s)) {
        Some(bytes) => if valid_utf8(bytes) {
            Some(decode_utf8(bytes))
        } else {
            None
        },
        None => None,
    }
}

pub fn percent_decode(value: &str) -> (r: Option<String>)
    ensures
        opt_view(r) == percent_decoded(value@),
{
    let bytes: Vec<u8> = utf8_bytes(value);
    let mut output: Vec<u8> = Vec::new();
    let n: usize = bytes.len();
    let mut i: usize = 0;
    let ghost whole = percent_bytes(bytes@);
    proof {
        assert(bytes@.skip(0) =~= bytes@);
        if let Some(t) = whole {
            assert(output@ + t =~= t);
        }
    }
    while i < n
        invariant
            i <= n,
            n == bytes@.len(),
            whole == percent_bytes(bytes@),
            bytes@ == encode_utf8(value@),
            match percent_bytes(bytes@.skip(i as int)) {
                Some(t) => whole == Some(output@ + t),
                None => whole is None,
            },
        decreases n - i,
    {
        let ghost rest = bytes@.skip(i as int);
        let ghost before = output@;
        if bytes[i] == 0x25 {
            if n - i < 3 {
                return None;
            }
            match read_hex_pair(bytes[i + 1], bytes[i + 2]) {
                Some(x) => {
                    output.push(x);
                    proof {
                        assert(rest.skip(3) =~= bytes@.skip(i + 3));
                        if let Some(t) = percent_bytes(bytes@.skip(i + 3)) {
                            assert(before + (seq![x] + t) =~= output@ + t);
                        }
                    }
                },
                None => {
                    return None;
                },
            }
            i += 3;
        } else {
            let b: u8 = if bytes[i] == 0x2b {
                0x20
            } else {
                bytes[i]
            };
            output.push(b);
            proof {
                assert(rest.skip(1) =~= bytes@.skip(i + 1));
                if let Some(t) = percent_bytes(bytes@.skip(i + 1)) {
                    assert(before + (seq![b] + t) =~= output@ + t);
                }
            }
            i += 1;
        }
    }
    proof {
        assert(bytes@.skip(i as int) =~= Seq::empty());
        assert(output@ + Seq::<u8>::empty() =~= output@);
    }
    text_of_bytes(output)
}

// ---------------------------------------------------------------------------
// Lenient percent notation
// ---------------------------------------------------------------------------
/// The bytes behind percent notation; a percent sign that is not followed by two digits
/// and is not one of the last two bytes stands for itself.
pub open spec fn lenient_bytes(b: Seq<u8>) -> Seq<u8>
    decreases b.len(),
{
    if b.len() == 0 {
        Seq::empty()
    } else if b[0] == 0x25 && b.len() > 2 && hex_pair(b[1], b[2]) is Some {
        seq![hex_pair(b[1], b[2])->0] + lenient_bytes(b.skip(3))
    } else {
        seq![plus_as_space(b[0])] + lenient_bytes(b.skip(1))
    }
}

/// Whether no percent sign is followed by one byte and then by the start of a longer
/// character: two characters can be cut out behind each.
pub open spec fn cuts_cleanly(s: Seq<char>) -> bool {
    let b = encode_utf8(s);
    forall|i: int|
        0 <= i < b.len() && #[trigger] b[i] == 0x25 && i + 2 < b.len() ==> is_char_boundary(
            b,
            i + 3,
        )
}

/// Whether every percent sign can be cut off together with the two bytes behind it.
pub fn can_be_cut(value: &str) -> (b: bool)
    ensures
        b == cuts_cleanly(value@),
{
    let bytes: Vec<u8> = utf8_bytes(value);
    let n: usize = bytes.len();
    let mut i: usize = 0;
    while i < n
        invariant
            i <= n,
            n == bytes@.len(),
            bytes@ == encode_utf8(value@),
            forall|j: int|
                0 <= j < i && #[trigger] bytes@[j] == 0x25 && j + 2 < n ==> is_char_boundary(
                    bytes@,
                    j + 3,
                ),
        decreases n - i,
    {
        if bytes[i] == 0x25 && n - i > 2 && !value.is_char_boundary(i + 3) {
            assert(bytes@[i as int] == 0x25);
            return false;
        }
        i += 1;
    }
    true
}

/// The text behind percent notation, with faults tolerated: the bytes as UTF-8, with
/// replacements only where they are none.
pub open spec fn lenient_decoded(s: Seq<char>) -> Seq<char> {
    shown_text(lenient_bytes(encode_utf8(s)))
}

pub fn percent_decode_lenient(value: &str) -> (r: String)
    requires
        cuts_cleanly(value@),
    ensures
        r@ == lenient_decoded(value@),
{
    let bytes: Vec<u8> = utf8_bytes(value);
    let mut output: Vec<u8> = Vec::new();
    let n: usize = bytes.len();
    let mut i: usize = 0;
    proof {
        assert(bytes@.skip(0) =~= bytes@);
        assert(output@ + lenient_bytes(bytes@) =~= lenient_bytes(bytes@));
    }
    while i < n
        invariant
            i <= n,
            n == bytes@.len(),
            bytes@ == encode_utf8(value@),
            output@ + lenient_bytes(bytes@.skip(i as int)) == lenient_bytes(bytes@),
        decreases n - i,
    {
        let ghost rest = bytes@.skip(i as int);
        let ghost before = output@;
        let pair: Option<u8> = if bytes[i] == 0x25 && n - i > 2 {
            read_hex_pair(bytes[i + 1], bytes[i + 2])
        } else {
            None
        };
        match pair {
            Some(x) => {
                output.push(x);
                proof {
                    assert(rest.skip(3) =~= bytes@.skip(i + 3));
                    assert(before + (seq![x] + lenient_bytes(bytes@.skip(i + 3))) =~= output@
                        + lenient_bytes(bytes@.skip(i + 3)));
                }
                i += 3;
            },
            None => {
                let b: u8 = if bytes[i] == 0x2b {
                    0x20
                } else {
                    bytes[i]
                };
                output.push(b);
                proof {
                    assert(rest.skip(1) =~= bytes@.skip(i + 1));
                    assert(before + (seq![b] + lenient_bytes(bytes@.skip(i + 1))) =~= output@
                        + lenient_bytes(bytes@.skip(i + 1)));
                }
                i += 1;
            },
        }
    }
    proof {
        assert(bytes@.skip(i as int) =~= Seq::empty());
        assert(output@ + Seq::<u8>::empty() =~= output@);
    }
    from_utf8_lossy(output.as_slice())
}

// ---------------------------------------------------------------------------
// Writing percent notation
// ---------------------------------------------------------------------------
/// The bytes that stand for themselves in a query.
pub open spec fn unreserved(b: u8) -> bool {
    (0x30 <= b <= 0x39) || (0x41 <= b <= 0x5a) || (0x61 <= b <= 0x7a) || b == 0x2d || b == 0x5f
        || b == 0x2e || b == 0x7e
}

pub open spec fn hex_digit(n: int) -> char {
    if n < 10 {
        (0x30 + n) as char
    } else {
        (0x41 + n - 10) as char
    }
}

pub open spec fn percent_byte(b: u8) -> Seq<char> {
    if unreserved(b) {
        seq![b as char]
    } else {
        seq!['%', hex_digit(b as int / 16), hex_digit(b as int % 16)]
    }
}

pub open spec fn percent_text(bytes: Seq<u8>) -> Seq<char>
    decreases bytes.len(),
{
    if bytes.len() == 0 {
        Seq::empty()
    } else {
        percent_byte(bytes[0]) + percent_text(bytes.skip(1))
    }
}

/// A text in percent notation, as the value of a query.
pub open spec fn percent_encoded(s: Seq<char>) -> Seq<char> {
    percent_text(encode_utf8(s))
}

fn write_hex(n: u8) -> (c: char)
    requires
        n < 16,
    ensures
        c == hex_digit(n as int),
{
    if n < 10 {
        (0x30 + n) as char
    } else {
        (0x41 + (n - 10)) as char
    }
}

pub fn percent_encode_query_value(value: &str) -> (r: String)
    ensures
        r@ == percent_encoded(value@),
{
    let bytes: Vec<u8> = utf8_bytes(value);
    let n: usize = bytes.len();
    let mut r: String = String::new();
    let mut i: usize = 0;
    proof {
        assert(bytes@.skip(0) =~= bytes@);
        assert(r@ + percent_text(bytes@) =~= percent_text(bytes@));
    }
    while i < n
        invariant
            i <= n,
            n == bytes@.len(),
            bytes@ == encode_utf8(value@),
            r@ + percent_text(bytes@.skip(i as int)) == percent_text(bytes@),
        decreases n - i,
    {
        let b: u8 = bytes[i];
        let ghost rest = bytes@.skip(i as int);
        let ghost before = r@;
        if (0x30 <= b && b <= 0x39) || (0x41 <= b && b <= 0x5a) || (0x61 <= b && b <= 0x7a) || b
            == 0x2d || b == 0x5f || b == 0x2e || b == 0x7e {
            r.push(b as char);
        } else {
            r.push('%');
            r.push(write_hex(b / 16));
            r.push(write_hex(b % 16));
        }
        proof {
            assert(rest.skip(1) =~= bytes@.skip(i + 1));
            assert(r@ =~= before + percent_byte(b));
            assert(before + (percent_byte(b) + percent_text(bytes@.skip(i + 1))) =~= r@
                + percent_text(bytes@.skip(i + 1)));
        }
        i += 1;
    }
    proof {
        assert(bytes@.skip(i as int) =~= Seq::empty());
        assert(r@ + Seq::<char>::empty() =~= r@);
    }
    r
}

proof fn lemma_percent_text_ascii(bytes: Seq<u8>)
    ensures
        is_ascii_chars(percent_text(bytes)),
    decreases bytes.len(),
{
    if bytes.len() > 0 {
        lemma_percent_text_ascii(bytes.skip(1));
        let a = percent_byte(bytes[0]);
        let b = percent_text(bytes.skip(1));
        assert forall|i: int| 0 <= i < (a + b).len() implies ((#[trigger] (a + b)[i]) as nat) < 128 by {
            if i >= a.len() {
                assert((a + b)[i] == b[i - a.len()]);
            }
        }
    }
}

pub open spec fn as_bytes(s: Seq<char>) -> Seq<u8> {
    Seq::new(s.len(), |i: int| s[i] as u8)
}

proof fn lemma_hex_pair_back(b: u8)
    ensures
        hex_pair(hex_digit(b as int / 16) as u8, hex_digit(b as int % 16) as u8) == Some(b),
{
    let h = b as int / 16;
    let l = b as int % 16;
    assert(h * 16 + l == b);
    assert(hex_digit(l) as u8 == if l < 10 {
        (0x30 + l) as u8
    } else {
        (0x41 + l - 10) as u8
    });
    assert(hex_digit(h) as u8 == if h < 10 {
        (0x30 + h) as u8
    } else {
        (0x41 + h - 10) as u8
    });
}

proof fn lemma_percent_bytes_back(bytes: Seq<u8>)
    ensures
        percent_bytes(as_bytes(percent_text(bytes))) == Some(bytes),
    decreases bytes.len(),
{
    if bytes.len() == 0 {
        assert(as_bytes(percent_text(bytes)) =~= Seq::empty());
        assert(bytes =~= Seq::empty());
    } else {
        let b = bytes[0];
        let rest = bytes.skip(1);
        lemma_percent_bytes_back(rest);
        let t = as_bytes(percent_text(bytes));
        let head = percent_byte(b);
        if unreserved(b) {
            assert(t[0] == b);
            assert(t.skip(1) =~= as_bytes(percent_text(rest)));
            assert(seq![plus_as_space(b)] + rest =~= bytes);
        } else {
            lemma_hex_pair_back(b);
            assert(t[0] == 0x25);
            assert(t[1] == hex_digit(b as int / 16) as u8);
            assert(t[2] == hex_digit(b as int % 16) as u8);
            assert(t.skip(3) =~= as_bytes(percent_text(rest)));
            assert(seq![b] + rest =~= bytes);
        }
    }
}

proof fn lemma_lenient_bytes_back(bytes: Seq<u8>)
    ensures
        lenient_bytes(as_bytes(percent_text(bytes))) == bytes,
    decreases bytes.len(),
{
    if bytes.len() == 0 {
        assert(as_bytes(percent_text(bytes)) =~= Seq::empty());
        assert(bytes =~= Seq::empty());
    } else {
        let b = bytes[0];
        let rest = bytes.skip(1);
        lemma_lenient_bytes_back(rest);
        let t = as_bytes(percent_text(bytes));
        if unreserved(b) {
            assert(t[0] == b);
            assert(t.skip(1) =~= as_bytes(percent_text(rest)));
            assert(seq![plus_as_space(b)] + rest =~= bytes);
        } else {
            lemma_hex_pair_back(b);
            assert(t[0] == 0x25);
            assert(t[1] == hex_digit(b as int / 16) as u8);
            assert(t[2] == hex_digit(b as int % 16) as u8);
            assert(t.skip(3) =~= as_bytes(percent_text(rest)));
            assert(seq![b] + rest =~= bytes);
        }
    }
}

/// A text in percent notation is read back, also where faults are tolerated: it can be cut
/// behind every percent sign, and the text comes out.
pub proof fn lenient_reading_gives_the_text_back(s: Seq<char>)
    ensures
        cuts_cleanly(percent_encoded(s)),
        lenient_decoded(percent_encoded(s)) == s,
{
    let bytes = encode_utf8(s);
    let t = percent_encoded(s);
    let b = encode_utf8(t);
    lemma_percent_text_ascii(bytes);
    is_ascii_chars_encode_utf8(t);
    encode_utf8_valid_utf8(t);
    assert(b =~= as_bytes(t));
    lemma_lenient_bytes_back(bytes);
    encode_utf8_valid_utf8(s);
    encode_utf8_decode_utf8(s);
    assert forall|i: int|
        0 <= i < b.len() && #[trigger] b[i] == 0x25 && i + 2 < b.len() implies is_char_boundary(
        b,
        i + 3,
    ) by {
        if i + 3 == b.len() {
            is_char_boundary_start_end_of_seq(b);
        } else {
            assert((t[i + 3] as nat) < 128);
            is_char_boundary_iff_not_is_continuation_byte(b, i + 3);
        }
    }
}

/// Whether a text is made of letters, digits, the marks that stand for themselves, and
/// percent signs with two digits, of which the letters are capital.
pub open spec fn is_percent_notation(t: Seq<char>) -> bool
    decreases t.len(),
{
    if t.len() == 0 {
        true
    } else if t[0] == '%' {
        t.len() >= 3 && is_capital_hex(t[1]) && is_capital_hex(t[2]) && is_percent_notation(
            t.skip(3),
        )
    } else {
        (t[0] as u32) < 128 && unreserved(t[0] as u8) && is_percent_notation(t.skip(1))
    }
}

pub open spec fn is_capital_hex(c: char) -> bool {
    '0' <= c <= '9' || 'A' <= c <= 'F'
}

proof fn lemma_percent_text_notation(bytes: Seq<u8>)
    ensures
        is_percent_notation(percent_text(bytes)),
    decreases bytes.len(),
{
    if bytes.len() > 0 {
        let rest = bytes.skip(1);
        let t = percent_text(bytes);
        lemma_percent_text_notation(rest);
        if unreserved(bytes[0]) {
            assert(t.skip(1) =~= percent_text(rest));
        } else {
            assert(t.skip(3) =~= percent_text(rest));
        }
    }
}

/// What is written in percent notation holds nothing that has a meaning in an address.
pub proof fn percent_notation_is_plain(s: Seq<char>)
    ensures
        is_percent_notation(percent_encoded(s)),
{
    lemma_percent_text_notation(encode_utf8(s));
}

/// A text in percent notation is read back.
pub proof fn percent_encoding_is_read_back(s: Seq<char>)
    ensures
        percent_decoded(percent_encoded(s)) == Some(s),
{
    let bytes = encode_utf8(s);
    let t = percent_encoded(s);
    lemma_percent_text_ascii(bytes);
    is_ascii_chars_encode_utf8(t);
    assert(encode_utf8(t) =~= as_bytes(t));
    lemma_percent_bytes_back(bytes);
    encode_utf8_valid_utf8(s);
    encode_utf8_decode_utf8(s);
}

// ---------------------------------------------------------------------------
// Queries
// ---------------------------------------------------------------------------
/// The texts of a map.
pub open spec fn text_values(m: Map<Seq<char>, String>) -> Map<Seq<char>, Seq<char>> {
    m.map_values(|t: String| t@)
}

pub proof fn lemma_text_insert(m: Map<Seq<char>, String>, k: Seq<char>, t: String)
    ensures
        text_values(m.insert(k, t)) == text_values(m).insert(k, t@),
{
    assert(text_values(m.insert(k, t)) =~= text_values(m).insert(k, t@));
}

/// The name and the value of a pair; without an equals sign the value is empty.
pub open spec fn pair_of(pair: Seq<char>) -> (Seq<char>, Seq<char>) {
    match split_once_seq(pair, '=') {
        Some(p) => p,
        None => (pair, Seq::empty()),
    }
}

pub open spec fn or_empty_text(t: Option<Seq<char>>) -> Seq<char> {
    match t {
        Some(s) => s,
        None => Seq::empty(),
    }
}

/// The query that pairs describe: later ones count, and ones whose name cannot be read
/// are left out.
pub open spec fn query_of(pairs: Seq<Seq<char>>) -> Map<Seq<char>, Seq<char>>
    decreases pairs.len(),
{
    if pairs.len() == 0 {
        Map::empty()
    } else {
        let m = query_of(pairs.drop_last());
        let (name, value) = pair_of(pairs.last());
        if pairs.last().len() == 0 {
            m
        } else {
            match percent_decoded(name) {
                Some(key) => m.insert(key, or_empty_text(percent_decoded(value))),
                None => m,
            }
        }
    }
}

pub fn parse_query(query: &str) -> (r: TextMap<String>)
    ensures
        r.wf(),
        text_values(r@) == query_of(split_seq(query@, '&')),
{
    let pairs: Vec<String> = split_char(query, '&');
    let ghost all = views(pairs@);
    let mut r: TextMap<String> = TextMap::new();
    let mut i: usize = 0;
    assert(all.take(0) =~= Seq::empty());
    assert(text_values(r@) =~= Map::empty());
    while i < pairs.len()
        invariant
            i <= pairs@.len(),
            all == views(pairs@),
            r.wf(),
            text_values(r@) == query_of(all.take(i as int)),
        decreases pairs@.len() - i,
    {
        let pair: &str = pairs[i].as_str();
        proof {
            assert(all.take(i + 1).drop_last() =~= all.take(i as int));
            assert(all.take(i + 1).last() == pair@);
        }
        if !pair.is_empty() {
            let (name, value) = match split_once(pair, '=') {
                Some(p) => p,
                None => (pair, pair.substring_char(0, 0)),
            };
            assert(pair@.subrange(0, 0) =~= Seq::empty());
            match percent_decode(name) {
                Some(key) => {
                    let decoded: String = match percent_decode(value) {
                        Some(v) => v,
                        None => String::new(),
                    };
                    proof {
                        lemma_text_insert(r@, key@, decoded);
                    }
                    r.insert(key.as_str(), decoded);
                },
                None => {},
            }
        }
        i += 1;
    }
    assert(all.take(all.len() as int) =~= all);
    r
}

/// The path and the query of a target.
pub fn parse_target(target: &str) -> (r: (String, TextMap<String>))
    ensures
        r.1.wf(),
        match split_once_seq(target@, '?') {
            Some((path, query)) => r.0@ == path && text_values(r.1@) == query_of(
                split_seq(query, '&'),
            ),
            None => r.0@ == target@ && text_values(r.1@) == query_of(
                split_seq(Seq::empty(), '&'),
            ),
        },
{
    match split_once(target, '?') {
        Some((path, query)) => (path.to_owned(), parse_query(query)),
        None => {
            let empty: String = String::new();
            (target.to_owned(), parse_query(empty.as_str()))
        },
    }
}

// ---------------------------------------------------------------------------
// Segments
// ---------------------------------------------------------------------------
pub open spec fn nonempty(parts: Seq<Seq<char>>) -> Seq<Seq<char>>
    decreases parts.len(),
{
    if parts.len() == 0 {
        Seq::empty()
    } else {
        let rest = nonempty(parts.drop_last());
        if parts.last().len() > 0 {
            rest.push(parts.last())
        } else {
            rest
        }
    }
}

/// The segments of a path, without empty ones.
pub open spec fn segments(path: Seq<char>) -> Seq<Seq<char>> {
    nonempty(split_seq(path, '/'))
}

pub fn split_path(path: &str) -> (r: Vec<String>)
    ensures
        views(r@) == segments(path@),
{
    let all: Vec<String> = split_char(path, '/');
    let ghost v = views(all@);
    let mut r: Vec<String> = Vec::new();
    let mut i: usize = 0;
    assert(v.take(0) =~= Seq::empty());
    assert(views(r@) =~= Seq::empty());
    while i < all.len()
        invariant
            i <= all@.len(),
            v == views(all@),
            views(r@) == nonempty(v.take(i as int)),
        decreases all@.len() - i,
    {
        let part: &str = all[i].as_str();
        let ghost before = r@;
        proof {
            assert(v.take(i + 1).drop_last() =~= v.take(i as int));
            assert(v.take(i + 1).last() == part@);
        }
        if !part.is_empty() {
            r.push(part.to_owned());
            assert(views(r@) =~= views(before).push(part@));
        }
        i += 1;
    }
    assert(v.take(v.len() as int) =~= v);
    r
}

/// A path without the prefixes of the interface, however many there are.
pub open spec fn without_api(path: Seq<char>) -> Seq<char>
    decreases path.len(),
{
    if path.len() >= 4 && path[0] == '/' && path[1] == 'a' && path[2] == 'p' && path[3] == 'i' {
        without_api(path.skip(4))
    } else {
        path
    }
}

/// The segments of a path of the interface.
pub open spec fn interface_segments(path: Seq<char>) -> Seq<Seq<char>> {
    segments(without_api(path))
}

pub fn api_segments(path: &str) -> (r: Vec<String>)
    ensures
        views(r@) == interface_segments(path@),
{
    let chars: Vec<char> = chars_of(path);
    let n: usize = chars.len();
    let mut i: usize = 0;
    assert(path@.skip(0) =~= path@);
    while n - i >= 4 && chars[i] == '/' && chars[i + 1] == 'a' && chars[i + 2] == 'p' && chars[i
        + 3] == 'i'
        invariant
            i <= n,
            n == chars@.len(),
            chars@ == path@,
            without_api(path@.skip(i as int)) == without_api(path@),
        decreases n - i,
    {
        assert(path@.skip(i as int).skip(4) =~= path@.skip(i + 4));
        i += 4;
    }
    assert(path@.subrange(i as int, n as int) =~= path@.skip(i as int));
    split_path(path.substring_char(i, n))
}

} // verus!

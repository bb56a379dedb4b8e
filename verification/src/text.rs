//! Text as a sequence of characters: trimming, searching, splitting, joining,
//! ASCII case, decimal numbers and the lexicographic order.

use vstd::prelude::*;

verus! {

/// Appends one character to a string (`String::push`): the characters of the
/// string afterwards are those before, followed by the new one.
pub assume_specification[ String::push ](text: &mut String, c: char)
    ensures
        final(text)@ == old(text)@.push(c),
;

// ---------------------------------------------------------------------------
// Characters
// ---------------------------------------------------------------------------
/// The characters with the Unicode property `White_Space`.
pub open spec fn is_space(c: char) -> bool {
    let n = c as u32;
    ||| 0x09 <= n <= 0x0d
    ||| n == 0x20
    ||| n == 0x85
    ||| n == 0xa0
    ||| n == 0x1680
    ||| 0x2000 <= n <= 0x200a
    ||| n == 0x2028
    ||| n == 0x2029
    ||| n == 0x202f
    ||| n == 0x205f
    ||| n == 0x3000
}

pub open spec fn is_digit(c: char) -> bool {
    '0' <= c <= '9'
}

pub open spec fn is_ascii_letter(c: char) -> bool {
    'a' <= c <= 'z' || 'A' <= c <= 'Z'
}

pub open spec fn is_ascii_word(c: char) -> bool {
    is_digit(c) || is_ascii_letter(c)
}

/// The lower-case form of an ASCII letter; every other character is kept.
pub open spec fn lower_char(c: char) -> char {
    if 'A' <= c <= 'Z' {
        (c as u32 + 32) as char
    } else {
        c
    }
}

pub fn char_is_space(c: char) -> (b: bool)
    ensures
        b == is_space(c),
{
    let n: u32 = c as u32;
    (0x09 <= n && n <= 0x0d) || n == 0x20 || n == 0x85 || n == 0xa0 || n == 0x1680 || (0x2000 <= n
        && n <= 0x200a) || n == 0x2028 || n == 0x2029 || n == 0x202f || n == 0x205f || n == 0x3000
}

pub fn char_is_digit(c: char) -> (b: bool)
    ensures
        b == is_digit(c),
{
    '0' <= c && c <= '9'
}

pub fn char_is_ascii_word(c: char) -> (b: bool)
    ensures
        b == is_ascii_word(c),
{
    ('0' <= c && c <= '9') || ('a' <= c && c <= 'z') || ('A' <= c && c <= 'Z')
}

pub fn char_lower(c: char) -> (r: char)
    ensures
        r == lower_char(c),
{
    if 'A' <= c && c <= 'Z' {
        let n: u8 = c as u8;
        assert(n == c as u32);
        (n + 32) as char
    } else {
        c
    }
}

// ---------------------------------------------------------------------------
// Strings and their characters
// ---------------------------------------------------------------------------
/// The characters of a string, in order.
pub fn chars_of(text: &str) -> (chars: Vec<char>)
    ensures
        chars@ == text@,
{
    let mut chars: Vec<char> = Vec::new();
    for c in it: text.chars()
        invariant
            it.seq() == text@,
            chars@ == text@.take(it.index() as int),
    {
        proof {
            assert(text@.take(it.index() + 1) =~= text@.take(it.index() as int).push(
                text@[it.index() as int],
            ));
        }
        chars.push(c);
    }
    assert(text@.take(text@.len() as int) =~= text@);
    chars
}

/// The string made of the given characters.
pub fn string_of(chars: &[char]) -> (text: String)
    ensures
        text@ == chars@,
{
    let mut text: String = String::new();
    let mut i: usize = 0;
    assert(text@ =~= chars@.take(0));
    while i < chars.len()
        invariant
            i <= chars.len(),
            text@ == chars@.take(i as int),
        decreases chars.len() - i,
    {
        assert(chars@.take(i + 1) =~= chars@.take(i as int).push(chars@[i as int]));
        text.push(chars[i]);
        i += 1;
    }
    assert(chars@.take(chars@.len() as int) =~= chars@);
    text
}

/// The string made of the characters from `from` up to `to`.
pub fn string_range(chars: &[char], from: usize, to: usize) -> (text: String)
    requires
        from <= to <= chars@.len(),
    ensures
        text@ == chars@.subrange(from as int, to as int),
{
    let mut text: String = String::new();
    let mut i: usize = from;
    assert(text@ =~= chars@.subrange(from as int, from as int));
    while i < to
        invariant
            from <= i <= to <= chars@.len(),
            text@ == chars@.subrange(from as int, i as int),
        decreases to - i,
    {
        assert(chars@.subrange(from as int, i + 1) =~= chars@.subrange(from as int, i as int).push(
            chars@[i as int],
        ));
        text.push(chars[i]);
        i += 1;
    }
    text
}

/// Whether two strings hold the same characters.
pub fn text_eq(a: &str, b: &str) -> (same: bool)
    ensures
        same == (a@ == b@),
{
    a.to_owned() == b.to_owned()
}

pub open spec fn opt_view(text: Option<String>) -> Option<Seq<char>> {
    match text {
        Some(t) => Some(t@),
        None => None,
    }
}

pub open spec fn opt_str_view(text: Option<&str>) -> Option<Seq<char>> {
    match text {
        Some(t) => Some(t@),
        None => None,
    }
}

pub fn opt_copy(text: &Option<String>) -> (r: Option<String>)
    ensures
        opt_view(r) == opt_view(*text),
{
    match text {
        Some(t) => Some(t.clone()),
        None => None,
    }
}

pub fn opt_text_eq(a: &Option<String>, b: &Option<String>) -> (same: bool)
    ensures
        same == (opt_view(*a) == opt_view(*b)),
{
    match (a, b) {
        (Some(x), Some(y)) => text_eq(x.as_str(), y.as_str()),
        (None, None) => true,
        _ => false,
    }
}

/// The characters of each string of a list.
pub open spec fn views(list: Seq<String>) -> Seq<Seq<char>> {
    list.map_values(|t: String| t@)
}

pub fn views_copy(list: &Vec<String>) -> (r: Vec<String>)
    ensures
        views(r@) == views(list@),
{
    let mut r: Vec<String> = Vec::new();
    let mut i: usize = 0;
    while i < list.len()
        invariant
            i <= list.len(),
            views(r@) =~= views(list@).take(i as int),
        decreases list.len() - i,
    {
        let t: String = list[i].clone();
        let ghost before = r@;
        r.push(t);
        i += 1;
        assert(views(r@) =~= views(before).push(t@));
        assert(views(list@)[i - 1] == t@);
    }
    assert(views(list@).take(list@.len() as int) =~= views(list@));
    r
}

pub fn cat2(a: &str, b: &str) -> (r: String)
    ensures
        r@ == a@ + b@,
{
    let mut r: String = a.to_owned();
    r.append(b);
    r
}

pub fn cat3(a: &str, b: &str, c: &str) -> (r: String)
    ensures
        r@ == a@ + b@ + c@,
{
    let mut r: String = a.to_owned();
    r.append(b);
    r.append(c);
    r
}

pub fn cat4(a: &str, b: &str, c: &str, d: &str) -> (r: String)
    ensures
        r@ == a@ + b@ + c@ + d@,
{
    let mut r: String = cat3(a, b, c);
    r.append(d);
    r
}

pub fn cat5(a: &str, b: &str, c: &str, d: &str, e: &str) -> (r: String)
    ensures
        r@ == a@ + b@ + c@ + d@ + e@,
{
    let mut r: String = cat4(a, b, c, d);
    r.append(e);
    r
}

// ---------------------------------------------------------------------------
// Searching
// ---------------------------------------------------------------------------
/// The first index at which `p` holds; the length when it holds nowhere.
pub open spec fn position(s: Seq<char>, p: spec_fn(char) -> bool) -> int
    decreases s.len(),
{
    if s.len() == 0 || p(s[0]) {
        0
    } else {
        1 + position(s.drop_first(), p)
    }
}

pub proof fn lemma_position(s: Seq<char>, p: spec_fn(char) -> bool)
    ensures
        0 <= position(s, p) <= s.len(),
        forall|j: int| 0 <= j < position(s, p) ==> !p(#[trigger] s[j]),
        position(s, p) < s.len() ==> p(s[position(s, p)]),
    decreases s.len(),
{
    if s.len() == 0 || p(s[0]) {
    } else {
        lemma_position(s.drop_first(), p);
        assert forall|j: int| 0 <= j < position(s, p) implies !p(#[trigger] s[j]) by {
            if j > 0 {
                assert(s[j] == s.drop_first()[j - 1]);
            }
        }
        if position(s, p) < s.len() {
            assert(s[position(s, p)] == s.drop_first()[position(s.drop_first(), p)]);
        }
    }
}

/// The position is the only index with these three properties.
pub proof fn lemma_position_is(s: Seq<char>, p: spec_fn(char) -> bool, i: int)
    requires
        0 <= i <= s.len(),
        forall|j: int| 0 <= j < i ==> !p(#[trigger] s[j]),
        i < s.len() ==> p(s[i]),
    ensures
        position(s, p) == i,
{
    lemma_position(s, p);
    let k = position(s, p);
    if k < i {
        assert(!p(s[k]));
    } else if i < k {
        assert(!p(s[i]));
    }
}

pub open spec fn is_char(c: char) -> spec_fn(char) -> bool {
    |x: char| x == c
}

/// The first index of `c`; the length when `c` does not occur.
pub open spec fn find_char(s: Seq<char>, c: char) -> int {
    position(s, is_char(c))
}

/// The first index of white space; the length when there is none.
pub open spec fn find_space(s: Seq<char>) -> int {
    position(s, |x: char| is_space(x))
}

/// The number of leading white-space characters.
pub open spec fn leading_space(s: Seq<char>) -> int {
    position(s, |x: char| !is_space(x))
}

pub open spec fn trim_start_seq(s: Seq<char>) -> Seq<char> {
    s.skip(leading_space(s))
}

pub open spec fn trim_end_seq(s: Seq<char>) -> Seq<char>
    decreases s.len(),
{
    if s.len() > 0 && is_space(s.last()) {
        trim_end_seq(s.drop_last())
    } else {
        s
    }
}

/// The text without the white space at its two ends.
pub open spec fn trimmed(s: Seq<char>) -> Seq<char> {
    trim_end_seq(trim_start_seq(s))
}

pub proof fn lemma_trim_end(s: Seq<char>)
    ensures
        trim_end_seq(s).len() <= s.len(),
        trim_end_seq(s) == s.take(trim_end_seq(s).len() as int),
        trim_end_seq(s).len() > 0 ==> !is_space(trim_end_seq(s).last()),
        forall|j: int|
            trim_end_seq(s).len() <= j < s.len() ==> is_space(#[trigger] s[j]),
    decreases s.len(),
{
    if s.len() > 0 && is_space(s.last()) {
        let t = s.drop_last();
        lemma_trim_end(t);
        assert(t.take(trim_end_seq(t).len() as int) =~= s.take(trim_end_seq(t).len() as int));
        assert forall|j: int| trim_end_seq(s).len() <= j < s.len() implies is_space(
            #[trigger] s[j],
        ) by {
            if j < t.len() {
                assert(s[j] == t[j]);
            }
        }
    } else {
        assert(s.take(s.len() as int) =~= s);
    }
}

proof fn lemma_trim_end_is(s: Seq<char>, n: int)
    requires
        0 <= n <= s.len(),
        n > 0 ==> !is_space(s[n - 1]),
        forall|j: int| n <= j < s.len() ==> is_space(#[trigger] s[j]),
    ensures
        trim_end_seq(s) == s.take(n),
    decreases s.len(),
{
    if s.len() > n {
        assert(is_space(s[s.len() - 1]));
        lemma_trim_end_is(s.drop_last(), n);
        assert(s.drop_last().take(n) =~= s.take(n));
    } else {
        assert(s.take(n) =~= s);
        if s.len() > 0 {
            assert(s.last() == s[n - 1]);
        }
    }
}

/// Trimming is idempotent: text that was trimmed has no white space at its ends.
pub proof fn trim_is_idempotent(s: Seq<char>)
    ensures
        trimmed(trimmed(s)) == trimmed(s),
        trimmed(s).len() > 0 ==> !is_space(trimmed(s)[0]) && !is_space(trimmed(s).last()),
{
    let p = |x: char| !is_space(x);
    let a = trim_start_seq(s);
    let t = trimmed(s);
    lemma_position(s, p);
    lemma_trim_end(a);
    if t.len() > 0 {
        assert(t[0] == a[0] == s[leading_space(s)]);
        lemma_position_is(t, p, 0);
    } else {
        lemma_position_is(t, p, 0);
    }
    assert(t.skip(0) =~= t);
    lemma_trim_end_is(t, t.len() as int);
    assert(t.take(t.len() as int) =~= t);
}

/// White space around a text is dropped, and what lies between is kept whole.
pub proof fn trimming_drops_the_space_around(a: Seq<char>, t: Seq<char>, b: Seq<char>)
    requires
        forall|i: int| 0 <= i < a.len() ==> is_space(#[trigger] a[i]),
        forall|i: int| 0 <= i < b.len() ==> is_space(#[trigger] b[i]),
        t.len() > 0 ==> !is_space(t[0]) && !is_space(t.last()),
    ensures
        trimmed(a + t + b) == t,
{
    let p = |x: char| !is_space(x);
    let s = a + t + b;
    if t.len() > 0 {
        lemma_position_is(s, p, a.len() as int);
        assert(s.skip(a.len() as int) =~= t + b);
        lemma_trim_end_is(t + b, t.len() as int);
        assert((t + b).take(t.len() as int) =~= t);
    } else {
        lemma_position_is(s, p, s.len() as int);
        assert(s.skip(s.len() as int) =~= t);
        lemma_trim_end_is(t, 0);
        assert(t.take(0) =~= t);
    }
}

/// A text is cut at the first occurrence of a character; one without it is not cut.
pub proof fn cut_is_at_the_first(a: Seq<char>, c: char, b: Seq<char>)
    requires
        !a.contains(c),
    ensures
        split_once_seq(a + seq![c] + b, c) == Some((a, b)),
        split_once_seq(a, c) is None,
{
    let s = a + seq![c] + b;
    lemma_position_is(s, is_char(c), a.len() as int);
    assert(s.take(a.len() as int) =~= a);
    assert(s.skip(a.len() as int + 1) =~= b);
    lemma_position_is(a, is_char(c), a.len() as int);
}

/// A number by which texts can be told apart: from their length, and from their characters at
/// the start, in the middle and at the end.
pub open spec fn mark(s: Seq<char>) -> int {
    s.len() + 64 * (s[0] as int) + 8192 * (s[s.len() - 1] as int) + 1048576 * (s[s.len() as int
        / 2] as int)
}

/// Finds the first occurrence of `c`.
pub fn index_of(chars: &[char], c: char) -> (i: usize)
    ensures
        i == find_char(chars@, c),
        i <= chars@.len(),
{
    let mut i: usize = 0;
    while i < chars.len() && chars[i] != c
        invariant
            i <= chars@.len(),
            forall|j: int| 0 <= j < i ==> chars@[j] != c,
        decreases chars@.len() - i,
    {
        i += 1;
    }
    proof {
        lemma_position_is(chars@, is_char(c), i as int);
    }
    i
}

/// Finds the first white-space character at or after `from`.
pub fn index_of_space(chars: &[char], from: usize) -> (i: usize)
    requires
        from <= chars@.len(),
    ensures
        i == from + find_space(chars@.skip(from as int)),
        from <= i <= chars@.len(),
{
    let mut i: usize = from;
    while i < chars.len() && !char_is_space(chars[i])
        invariant
            from <= i <= chars@.len(),
            forall|j: int| from <= j < i ==> !is_space(chars@[j]),
        decreases chars@.len() - i,
    {
        i += 1;
    }
    proof {
        lemma_position_is(chars@.skip(from as int), |x: char| is_space(x), i - from);
    }
    i
}

/// Finds the first character that is not white space at or after `from`.
pub fn index_of_nonspace(chars: &[char], from: usize) -> (i: usize)
    requires
        from <= chars@.len(),
    ensures
        i == from + leading_space(chars@.skip(from as int)),
        from <= i <= chars@.len(),
{
    let mut i: usize = from;
    while i < chars.len() && char_is_space(chars[i])
        invariant
            from <= i <= chars@.len(),
            forall|j: int| from <= j < i ==> is_space(chars@[j]),
        decreases chars@.len() - i,
    {
        i += 1;
    }
    proof {
        lemma_position_is(chars@.skip(from as int), |x: char| !is_space(x), i - from);
    }
    i
}

/// The bounds within `from..to` of the text without white space at its ends.
pub fn trim_range(chars: &[char], from: usize, to: usize) -> (r: (usize, usize))
    requires
        from <= to <= chars@.len(),
    ensures
        from <= r.0 <= r.1 <= to,
        r.0 == from + leading_space(chars@.subrange(from as int, to as int)),
        chars@.subrange(r.0 as int, r.1 as int) == trimmed(chars@.subrange(from as int, to as int)),
{
    let mut a: usize = from;
    let ghost whole = chars@.subrange(from as int, to as int);
    while a < to && char_is_space(chars[a])
        invariant
            from <= a <= to <= chars@.len(),
            forall|j: int| from <= j < a ==> is_space(chars@[j]),
        decreases to - a,
    {
        a += 1;
    }
    proof {
        lemma_position_is(whole, |x: char| !is_space(x), a - from);
    }
    let ghost rest = whole.skip(a - from);
    assert(rest =~= chars@.subrange(a as int, to as int));
    let mut b: usize = to;
    while b > a && char_is_space(chars[b - 1])
        invariant
            from <= a <= b <= to <= chars@.len(),
            forall|j: int| b <= j < to ==> is_space(chars@[j]),
        decreases b,
    {
        b -= 1;
    }
    proof {
        lemma_trim_end_is(rest, b - a);
        assert(rest.take(b - a) =~= chars@.subrange(a as int, b as int));
    }
    (a, b)
}

/// The text without the white space at its two ends.
pub fn trim(text: &str) -> (r: &str)
    ensures
        r@ == trimmed(text@),
{
    let chars: Vec<char> = chars_of(text);
    let (a, b) = trim_range(chars.as_slice(), 0, chars.len());
    assert(chars@.subrange(0, chars@.len() as int) =~= chars@);
    text.substring_char(a, b)
}

/// Whether nothing is left of the text once it is trimmed.
pub fn is_blank(text: &str) -> (b: bool)
    ensures
        b == (trimmed(text@).len() == 0),
{
    trim(text).is_empty()
}

pub fn starts_with(text: &str, prefix: &str) -> (b: bool)
    ensures
        b == prefix@.is_prefix_of(text@),
{
    let t: Vec<char> = chars_of(text);
    let p: Vec<char> = chars_of(prefix);
    match_at(t.as_slice(), 0, p.as_slice())
}

/// Whether `pattern` stands in `chars` at index `at`.
pub open spec fn occurs_at(chars: Seq<char>, pattern: Seq<char>, at: int) -> bool {
    0 <= at && at + pattern.len() <= chars.len() && chars.subrange(at, at + pattern.len())
        == pattern
}

pub fn match_at(chars: &[char], at: usize, pattern: &[char]) -> (b: bool)
    requires
        at <= chars@.len(),
    ensures
        b == occurs_at(chars@, pattern@, at as int),
        at == 0 ==> b == pattern@.is_prefix_of(chars@),
{
    if pattern.len() > chars.len() - at {
        return false;
    }
    let mut i: usize = 0;
    let n: usize = chars.len();
    while i < pattern.len()
        invariant
            i <= pattern@.len(),
            n == chars@.len(),
            at + pattern@.len() <= chars@.len(),
            forall|j: int| 0 <= j < i ==> chars@[at + j] == pattern@[j],
        decreases pattern@.len() - i,
    {
        if chars[at + i] != pattern[i] {
            assert(chars@.subrange(at as int, at + pattern@.len())[i as int] != pattern@[i as int]);
            return false;
        }
        i += 1;
    }
    assert(chars@.subrange(at as int, at + pattern@.len()) =~= pattern@);
    true
}

pub fn ends_with(text: &str, suffix: &str) -> (b: bool)
    ensures
        b == suffix@.is_suffix_of(text@),
{
    let t: Vec<char> = chars_of(text);
    let p: Vec<char> = chars_of(suffix);
    if p.len() > t.len() {
        return false;
    }
    let at: usize = t.len() - p.len();
    match_at(t.as_slice(), at, p.as_slice())
}

pub fn ends_with_char(text: &str, c: char) -> (b: bool)
    ensures
        b == (text@.len() > 0 && text@.last() == c),
{
    let n: usize = text.unicode_len();
    n > 0 && text.get_char(n - 1) == c
}

/// What follows `prefix` in a text that starts with it.
pub open spec fn without_prefix(s: Seq<char>, prefix: Seq<char>) -> Option<Seq<char>> {
    if prefix.is_prefix_of(s) {
        Some(s.skip(prefix.len() as int))
    } else {
        None
    }
}

pub fn strip_prefix<'a>(text: &'a str, prefix: &str) -> (r: Option<&'a str>)
    ensures
        opt_str_view(r) == without_prefix(text@, prefix@),
{
    if starts_with(text, prefix) {
        let n: usize = prefix.unicode_len();
        let m: usize = text.unicode_len();
        assert(text@.subrange(n as int, m as int) =~= text@.skip(n as int));
        Some(text.substring_char(n, m))
    } else {
        None
    }
}

/// The text before and after the first `c`, when `c` occurs.
pub open spec fn split_once_seq(s: Seq<char>, c: char) -> Option<(Seq<char>, Seq<char>)> {
    if find_char(s, c) < s.len() {
        Some((s.take(find_char(s, c)), s.skip(find_char(s, c) + 1)))
    } else {
        None
    }
}

pub open spec fn opt_pair_view(r: Option<(&str, &str)>) -> Option<(Seq<char>, Seq<char>)> {
    match r {
        Some(p) => Some((p.0@, p.1@)),
        None => None,
    }
}

pub fn split_once(text: &str, c: char) -> (r: Option<(&str, &str)>)
    ensures
        opt_pair_view(r) == split_once_seq(text@, c),
{
    let chars: Vec<char> = chars_of(text);
    let i: usize = index_of(chars.as_slice(), c);
    if i < chars.len() {
        assert(text@.subrange(0, i as int) =~= text@.take(i as int));
        assert(text@.subrange(i + 1, text@.len() as int) =~= text@.skip(i + 1));
        Some((text.substring_char(0, i), text.substring_char(i + 1, chars.len())))
    } else {
        None
    }
}

} // verus!

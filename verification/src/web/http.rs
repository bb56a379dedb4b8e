//! Requests and responses of the interface.

use vstd::prelude::*;
use crate::encoding::{from_utf8_lossy, shown_text, utf8_bytes};
use crate::json::{Json, JsonView};
use crate::number::{decimal, decimal_text, decimal_usize, parse_decimal, parse_seq};
use crate::text::{
    cat5, chars_of, opt_view, split_once, split_once_seq, string_range, strip_prefix, text_eq, trim,
    trimmed, views, without_prefix,
};
use crate::text_map::TextMap;
use crate::words::{
    find_seq, index_of_text, lower_seq, split_char, split_seq, split_words, to_lower, words_seq,
};
use super::url::{
    can_be_cut, cuts_cleanly, lemma_text_insert, lenient_decoded, pair_of, parse_target,
    percent_decode_lenient, query_of, text_values,
};

verus! {

/// The most bytes of the head of a request.
pub const MAX_HEADER_BYTES: usize = 65536;

/// The most bytes of the body of a request.
pub const MAX_HTTP_BODY_BYTES: usize = 33554432;

/// The most bytes of the body of a request to the channel without foreground sessions.
pub const MAX_BODY_BYTES: usize = 11534336;

// ---------------------------------------------------------------------------
// Reading the head
// ---------------------------------------------------------------------------
/// Whether an empty line ends the head at index `i`.
pub open spec fn head_ends_at(b: Seq<u8>, i: int) -> bool {
    0 <= i && i + 4 <= b.len() && b[i] == 13 && b[i + 1] == 10 && b[i + 2] == 13 && b[i + 3] == 10
}

/// Finds the empty line that ends the head.
pub fn find_header_end(buffer: &[u8]) -> (r: Option<usize>)
    ensures
        match r {
            Some(i) => head_ends_at(buffer@, i as int) && forall|j: int|
                0 <= j < i ==> !head_ends_at(buffer@, j),
            None => forall|j: int| !head_ends_at(buffer@, j),
        },
{
    let n: usize = buffer.len();
    let mut i: usize = 0;
    while n - i >= 4
        invariant
            i <= n,
            n == buffer@.len(),
            forall|j: int| 0 <= j < i ==> !head_ends_at(buffer@, j),
        decreases n - i,
    {
        if buffer[i] == 13 && buffer[i + 1] == 10 && buffer[i + 2] == 13 && buffer[i + 3] == 10 {
            return Some(i);
        }
        i += 1;
    }
    None
}

/// What is known of a head after some bytes were read.
#[derive(Clone, Copy, Debug, PartialEq, Eq, Structural)]
pub enum HeadProgress {
    /// More bytes are needed.
    Incomplete,
    /// Too many bytes have come.
    TooLarge,
    /// The empty line stands at this index.
    Complete(usize),
}

pub fn head_progress(buffer: &[u8]) -> (r: HeadProgress)
    ensures
        match r {
            HeadProgress::TooLarge => buffer@.len() > MAX_HEADER_BYTES,
            HeadProgress::Complete(i) => buffer@.len() <= MAX_HEADER_BYTES && head_ends_at(
                buffer@,
                i as int,
            ) && forall|j: int| 0 <= j < i ==> !head_ends_at(buffer@, j),
            HeadProgress::Incomplete => buffer@.len() <= MAX_HEADER_BYTES && forall|j: int|
                !head_ends_at(buffer@, j),
        },
{
    if buffer.len() > MAX_HEADER_BYTES {
        return HeadProgress::TooLarge;
    }
    match find_header_end(buffer) {
        Some(i) => HeadProgress::Complete(i),
        None => HeadProgress::Incomplete,
    }
}

/// The lines of a head: what stands between line ends.
pub open spec fn lines_of(s: Seq<char>) -> Seq<Seq<char>>
    decreases s.len(),
{
    match find_seq(s, "\r\n"@) {
        Some(i) => if 0 <= i && i + 2 <= s.len() {
            seq![s.take(i)] + lines_of(s.skip(i + 2))
        } else {
            seq![s]
        },
        None => seq![s],
    }
}

fn split_lines(text: &str) -> (r: Vec<String>)
    ensures
        views(r@) == lines_of(text@),
        r@.len() > 0,
{
    let chars: Vec<char> = chars_of(text);
    let end: Vec<char> = chars_of("\r\n");
    proof {
        reveal_strlit("\r\n");
    }
    let n: usize = chars.len();
    let mut r: Vec<String> = Vec::new();
    let mut start: usize = 0;
    proof {
        assert(chars@.skip(0) =~= chars@);
        assert(views(r@) + lines_of(chars@) =~= lines_of(chars@));
    }
    loop
        invariant
            start <= n,
            n == chars@.len(),
            chars@ == text@,
            end@ == "\r\n"@,
            "\r\n"@.len() == 2,
            views(r@) + lines_of(chars@.skip(start as int)) == lines_of(chars@),
        decreases n - start,
    {
        let ghost rest = chars@.skip(start as int);
        let ghost before = r@;
        match index_of_text(chars.as_slice(), start, end.as_slice()) {
            Some(i) => {
                let line: String = string_range(chars.as_slice(), start, i);
                r.push(line);
                proof {
                    assert(line@ =~= rest.take(i - start));
                    assert(rest.skip(i - start + 2) =~= chars@.skip(i + 2));
                    assert(views(r@) =~= views(before).push(line@));
                    assert(views(r@) + lines_of(chars@.skip(i + 2)) =~= views(before)
                        + lines_of(rest));
                }
                start = i + 2;
            },
            None => {
                let line: String = string_range(chars.as_slice(), start, n);
                r.push(line);
                proof {
                    assert(line@ =~= rest);
                    assert(views(r@) =~= views(before).push(line@));
                    assert(views(r@) =~= lines_of(chars@));
                }
                return r;
            },
        }
    }
}

/// The headers that lines describe, with names in lower case; later lines count, and
/// lines without a colon are left out.
pub open spec fn headers_of(lines: Seq<Seq<char>>) -> Map<Seq<char>, Seq<char>>
    decreases lines.len(),
{
    if lines.len() == 0 {
        Map::empty()
    } else {
        let m = headers_of(lines.drop_last());
        match split_once_seq(lines.last(), ':') {
            Some((name, value)) => m.insert(lower_seq(trimmed(name)), trimmed(value)),
            None => m,
        }
    }
}

fn parse_headers(lines: &Vec<String>, from: usize) -> (r: TextMap<String>)
    requires
        from <= lines@.len(),
    ensures
        r.wf(),
        text_values(r@) == headers_of(views(lines@).skip(from as int)),
{
    let ghost all = views(lines@).skip(from as int);
    let mut r: TextMap<String> = TextMap::new();
    let mut i: usize = from;
    assert(all.take(0) =~= Seq::empty());
    assert(text_values(r@) =~= Map::empty());
    while i < lines.len()
        invariant
            from <= i <= lines@.len(),
            all == views(lines@).skip(from as int),
            r.wf(),
            text_values(r@) == headers_of(all.take(i - from)),
        decreases lines@.len() - i,
    {
        let line: &str = lines[i].as_str();
        proof {
            assert(all.take(i - from + 1).drop_last() =~= all.take(i - from));
            assert(all.take(i - from + 1).last() == line@);
        }
        match split_once(line, ':') {
            Some((name, value)) => {
                let key: String = to_lower(trim(name));
                let value: String = trim(value).to_owned();
                proof {
                    lemma_text_insert(r@, key@, value);
                }
                r.insert(key.as_str(), value);
            },
            None => {},
        }
        i += 1;
    }
    assert(all.take(all.len() as int) =~= all);
    r
}

/// The head of a request: method and target, where they are given, and the headers.
#[derive(Debug)]
pub struct RequestHead {
    pub method: Option<String>,
    pub target: Option<String>,
    pub headers: TextMap<String>,
}

pub open spec fn word_at(line: Seq<char>, k: int) -> Option<Seq<char>> {
    if 0 <= k < words_seq(line).len() {
        Some(words_seq(line)[k])
    } else {
        None
    }
}

/// Reads the text of a head.
pub fn parse_head(text: &str) -> (r: RequestHead)
    ensures
        r.headers.wf(),
        opt_view(r.method) == word_at(lines_of(text@)[0], 0),
        opt_view(r.target) == word_at(lines_of(text@)[0], 1),
        text_values(r.headers@) == headers_of(lines_of(text@).skip(1)),
{
    let lines: Vec<String> = split_lines(text);
    let words: Vec<String> = split_words(lines[0].as_str());
    proof {
        assert(views(lines@)[0] == lines@[0]@);
        assert(views(words@).len() == words@.len());
        if words@.len() > 0 {
            assert(views(words@)[0] == words@[0]@);
        }
        if words@.len() > 1 {
            assert(views(words@)[1] == words@[1]@);
        }
    }
    let method: Option<String> = if words.len() > 0 {
        Some(words[0].clone())
    } else {
        None
    };
    let target: Option<String> = if words.len() > 1 {
        Some(words[1].clone())
    } else {
        None
    };
    let headers: TextMap<String> = parse_headers(&lines, 1);
    RequestHead { method, target, headers }
}

/// The length of the body that the headers announce.
pub open spec fn announced_length(headers: Map<Seq<char>, Seq<char>>) -> nat {
    if headers.contains_key("content-length"@) {
        match parse_seq(headers["content-length"@], usize::MAX as nat) {
            Some(n) => n,
            None => 0,
        }
    } else {
        0
    }
}

pub fn content_length(headers: &TextMap<String>) -> (n: usize)
    requires
        headers.wf(),
    ensures
        n == announced_length(text_values(headers@)),
{
    match headers.get("content-length") {
        Some(value) => match parse_decimal(value.as_str(), usize::MAX as u64) {
            Some(n) => n as usize,
            None => 0,
        },
        None => 0,
    }
}

#[derive(Debug)]
pub struct HttpRequest {
    pub method: String,
    pub path: String,
    pub query: TextMap<String>,
    pub headers: TextMap<String>,
    pub body: Vec<u8>,
}

impl HttpRequest {
    pub open spec fn wf(self) -> bool {
        self.query.wf() && self.headers.wf()
    }

    pub open spec fn header(self, name: Seq<char>) -> Option<Seq<char>> {
        if self.headers@.contains_key(name) {
            Some(self.headers@[name]@)
        } else {
            None
        }
    }

    pub open spec fn parameter(self, name: Seq<char>) -> Option<Seq<char>> {
        if self.query@.contains_key(name) {
            Some(self.query@[name]@)
        } else {
            None
        }
    }

    pub open spec fn wants_websocket(self) -> bool {
        self.header("upgrade"@) matches Some(v) && lower_seq(v) == "websocket"@
    }

    /// Whether the request asks for a websocket.
    pub fn is_websocket(&self) -> (b: bool)
        requires
            self.wf(),
        ensures
            b == self.wants_websocket(),
    {
        match self.headers.get("upgrade") {
            Some(value) => {
                let lower: String = to_lower(value.as_str());
                text_eq(lower.as_str(), "websocket")
            },
            None => false,
        }
    }

    /// Whether the request can be upgraded to a websocket: it asks by `GET` and brings
    /// a key.
    pub fn is_websocket_upgrade(&self) -> (b: bool)
        requires
            self.wf(),
        ensures
            b == (self.method@ == "GET"@ && self.wants_websocket() && self.header(
                "sec-websocket-key"@,
            ) is Some),
    {
        text_eq(self.method.as_str(), "GET") && self.is_websocket() && self.headers.contains_key(
            "sec-websocket-key",
        )
    }
}

/// The request that a head and a body make; a method or target that is not given is
/// empty, and the body ends where the head says.
pub open spec fn request_is(r: HttpRequest, head: Seq<char>, body: Seq<u8>) -> bool {
    let lines = lines_of(head);
    let target = match word_at(lines[0], 1) {
        Some(t) => t,
        None => Seq::empty(),
    };
    let headers = headers_of(lines.skip(1));
    let n = announced_length(headers) as int;
    &&& r.wf()
    &&& r.method@ == match word_at(lines[0], 0) {
        Some(m) => m,
        None => Seq::empty(),
    }
    &&& text_values(r.headers@) == headers
    &&& r.body@ == body.take(if body.len() < n {
        body.len() as int
    } else {
        n
    })
    &&& match split_once_seq(target, '?') {
        Some((path, query)) => r.path@ == path && text_values(r.query@) == query_of(
            split_seq(query, '&'),
        ),
        None => r.path@ == target && text_values(r.query@) == query_of(
            split_seq(Seq::empty(), '&'),
        ),
    }
}

fn cut_body(body: Vec<u8>, n: usize) -> (r: Vec<u8>)
    ensures
        r@ == body@.take(if body@.len() < n {
            body@.len() as int
        } else {
            n as int
        }),
{
    let mut r: Vec<u8> = body;
    if r.len() > n {
        r.truncate(n);
        assert(r@ =~= body@.take(n as int));
    } else {
        assert(r@ =~= body@.take(body@.len() as int));
    }
    r
}

/// Makes the request of a head, in bytes, and the body bytes that came with it.
pub fn build_request(head: &[u8], body: Vec<u8>) -> (r: HttpRequest)
    ensures
        request_is(r, shown_text(head@), body@),
{
    let text: String = from_utf8_lossy(head);
    build_request_from_text(text.as_str(), body)
}

pub fn build_request_from_text(head: &str, body: Vec<u8>) -> (r: HttpRequest)
    ensures
        request_is(r, head@, body@),
{
    let head: RequestHead = parse_head(head);
    let n: usize = content_length(&head.headers);
    let method: String = match head.method {
        Some(m) => m,
        None => String::new(),
    };
    let target: String = match head.target {
        Some(t) => t,
        None => String::new(),
    };
    let (path, query) = parse_target(target.as_str());
    HttpRequest { method, path, query, headers: head.headers, body: cut_body(body, n) }
}

// ---------------------------------------------------------------------------
// Requests with a decoded path
// ---------------------------------------------------------------------------
/// The query that pairs describe when faults in the notation are tolerated.
pub open spec fn lenient_query_of(pairs: Seq<Seq<char>>) -> Map<Seq<char>, Seq<char>>
    decreases pairs.len(),
{
    if pairs.len() == 0 {
        Map::empty()
    } else {
        let m = lenient_query_of(pairs.drop_last());
        let (name, value) = pair_of(pairs.last());
        if pairs.last().len() == 0 {
            m
        } else {
            m.insert(lenient_decoded(name), lenient_decoded(value))
        }
    }
}

/// The path and the raw query of a target.
pub open spec fn target_parts(target: Seq<char>) -> (Seq<char>, Seq<char>) {
    match split_once_seq(target, '?') {
        Some(p) => p,
        None => (target, Seq::empty()),
    }
}

/// Whether the percent notation of a target can be cut.
pub open spec fn target_cuts_cleanly(target: Seq<char>) -> bool {
    let (path, query) = target_parts(target);
    &&& cuts_cleanly(path)
    &&& forall|i: int|
        0 <= i < split_seq(query, '&').len() ==> cuts_cleanly(
            pair_of(#[trigger] split_seq(query, '&')[i]).0,
        ) && cuts_cleanly(pair_of(split_seq(query, '&')[i]).1)
}

/// Whether the percent notation of a target can be cut.
pub fn target_can_be_cut(target: &str) -> (b: bool)
    ensures
        b == target_cuts_cleanly(target@),
{
    let (path, query) = match split_once(target, '?') {
        Some(p) => p,
        None => (target, ""),
    };
    proof {
        reveal_strlit("");
        assert(""@ =~= Seq::<char>::empty());
    }
    if !can_be_cut(path) {
        return false;
    }
    let pairs: Vec<String> = split_char(query, '&');
    let ghost v = views(pairs@);
    assert(v.len() == pairs@.len());
    let mut i: usize = 0;
    while i < pairs.len()
        invariant
            i <= pairs@.len(),
            v == views(pairs@),
            v == split_seq(target_parts(target@).1, '&'),
            forall|j: int|
                0 <= j < i ==> cuts_cleanly(pair_of(#[trigger] v[j]).0) && cuts_cleanly(
                    pair_of(v[j]).1,
                ),
        decreases pairs@.len() - i,
    {
        assert(v[i as int] == pairs@[i as int]@);
        let (name, value) = match split_once(pairs[i].as_str(), '=') {
            Some(p) => p,
            None => (pairs[i].as_str(), ""),
        };
        proof {
            reveal_strlit("");
            assert(""@ =~= Seq::<char>::empty());
        }
        if !can_be_cut(name) || !can_be_cut(value) {
            return false;
        }
        i += 1;
    }
    true
}

/// The decoded path and query of a target.
pub fn split_target(target: &str) -> (r: (String, TextMap<String>))
    requires
        target_cuts_cleanly(target@),
    ensures
        r.0@ == lenient_decoded(target_parts(target@).0),
        r.1.wf(),
        text_values(r.1@) == lenient_query_of(split_seq(target_parts(target@).1, '&')),
{
    let empty: String = String::new();
    let (path, raw) = match split_once(target, '?') {
        Some(p) => p,
        None => (target, empty.as_str()),
    };
    let pairs: Vec<String> = split_char(raw, '&');
    let ghost all = views(pairs@);
    let mut r: TextMap<String> = TextMap::new();
    let mut i: usize = 0;
    assert(all.take(0) =~= Seq::empty());
    assert(text_values(r@) =~= Map::empty());
    while i < pairs.len()
        invariant
            i <= pairs@.len(),
            all == views(pairs@),
            all == split_seq(target_parts(target@).1, '&'),
            target_cuts_cleanly(target@),
            r.wf(),
            text_values(r@) == lenient_query_of(all.take(i as int)),
        decreases pairs@.len() - i,
    {
        let pair: &str = pairs[i].as_str();
        proof {
            assert(all.take(i + 1).drop_last() =~= all.take(i as int));
            assert(all.take(i + 1).last() == pair@);
            assert(all[i as int] == pair@);
        }
        if !pair.is_empty() {
            let (name, value) = match split_once(pair, '=') {
                Some(p) => p,
                None => (pair, pair.substring_char(0, 0)),
            };
            assert(pair@.subrange(0, 0) =~= Seq::empty());
            let key: String = percent_decode_lenient(name);
            let decoded: String = percent_decode_lenient(value);
            proof {
                lemma_text_insert(r@, key@, decoded);
            }
            r.insert(key.as_str(), decoded);
        }
        i += 1;
    }
    assert(all.take(all.len() as int) =~= all);
    (percent_decode_lenient(path), r)
}

/// Why a request is refused before it is read to its end.
#[derive(Clone, Copy, Debug, PartialEq, Eq, Structural)]
pub enum HeadError {
    MissingMethod,
    MissingTarget,
    BodyTooLarge,
}

/// Checks a head and says how long the body is.
pub fn check_head(head: &RequestHead) -> (r: Result<usize, HeadError>)
    requires
        head.headers.wf(),
    ensures
        match r {
            Ok(n) => head.method is Some && head.target is Some && n == announced_length(
                text_values(head.headers@),
            ) && n <= MAX_BODY_BYTES,
            Err(HeadError::MissingMethod) => head.method is None,
            Err(HeadError::MissingTarget) => head.method is Some && head.target is None,
            Err(HeadError::BodyTooLarge) => head.method is Some && head.target is Some
                && announced_length(text_values(head.headers@)) > MAX_BODY_BYTES,
        },
{
    if head.method.is_none() {
        return Err(HeadError::MissingMethod);
    }
    if head.target.is_none() {
        return Err(HeadError::MissingTarget);
    }
    let n: usize = content_length(&head.headers);
    if n > MAX_BODY_BYTES {
        return Err(HeadError::BodyTooLarge);
    }
    Ok(n)
}

// ---------------------------------------------------------------------------
// Authorization
// ---------------------------------------------------------------------------
/// Whether the authorization header brings the token, bare or as a bearer.
pub open spec fn header_authorizes(value: Option<Seq<char>>, token: Seq<char>) -> bool {
    match value {
        Some(v) => v == token || without_prefix(v, "Bearer "@) == Some(token),
        None => false,
    }
}

fn header_has_token(value: Option<&String>, token: &str) -> (b: bool)
    ensures
        b == header_authorizes(
            match value {
                Some(v) => Some(v@),
                None => None,
            },
            token@,
        ),
{
    match value {
        Some(v) => {
            if text_eq(v.as_str(), token) {
                return true;
            }
            match strip_prefix(v.as_str(), "Bearer ") {
                Some(t) => text_eq(t, token),
                None => false,
            }
        },
        None => false,
    }
}

/// Whether a request brings the token in its header.
pub fn authorized_by_header(request: &HttpRequest, token: &str) -> (b: bool)
    requires
        request.wf(),
    ensures
        b == header_authorizes(request.header("authorization"@), token@),
{
    header_has_token(request.headers.get("authorization"), token)
}

/// Whether a request brings the token in its query.
pub fn authorized_by_query(request: &HttpRequest, token: &str) -> (b: bool)
    requires
        request.wf(),
    ensures
        b == (request.parameter("token"@) == Some(token@)),
{
    match request.query.get("token") {
        Some(t) => text_eq(t.as_str(), token),
        None => false,
    }
}

/// Whether a request brings the token in its header or its query.
pub fn authorized(request: &HttpRequest, token: &str) -> (b: bool)
    requires
        request.wf(),
    ensures
        b == (header_authorizes(request.header("authorization"@), token@) || request.parameter(
            "token"@,
        ) == Some(token@)),
{
    authorized_by_header(request, token) || authorized_by_query(request, token)
}

/// A request that brings no token is not let in.
pub proof fn no_token_no_access(request: HttpRequest, token: Seq<char>)
    requires
        request.header("authorization"@) is None,
        request.parameter("token"@) is None,
    ensures
        !header_authorizes(request.header("authorization"@), token),
        request.parameter("token"@) != Some(token),
{
}

// ---------------------------------------------------------------------------
// Query parameters
// ---------------------------------------------------------------------------
pub open spec fn number_parameter(query: Map<Seq<char>, Seq<char>>, name: Seq<char>, max: nat) -> Option<
    nat,
> {
    if query.contains_key(name) {
        parse_seq(query[name], max)
    } else {
        None
    }
}

pub fn query_u64(query: &TextMap<String>, key: &str) -> (r: Option<u64>)
    requires
        query.wf(),
    ensures
        match (r, number_parameter(text_values(query@), key@, u64::MAX as nat)) {
            (Some(a), Some(b)) => a == b,
            (None, None) => true,
            _ => false,
        },
{
    match query.get(key) {
        Some(value) => parse_decimal(value.as_str(), u64::MAX),
        None => None,
    }
}

pub fn query_usize(query: &TextMap<String>, key: &str, default: usize) -> (n: usize)
    requires
        query.wf(),
    ensures
        n == match number_parameter(text_values(query@), key@, usize::MAX as nat) {
            Some(k) => k,
            None => default as nat,
        },
{
    match query.get(key) {
        Some(value) => match parse_decimal(value.as_str(), usize::MAX as u64) {
            Some(n) => n as usize,
            None => default,
        },
        None => default,
    }
}

pub fn query_opt_usize(query: &TextMap<String>, key: &str) -> (r: Option<usize>)
    requires
        query.wf(),
    ensures
        match (r, number_parameter(text_values(query@), key@, usize::MAX as nat)) {
            (Some(a), Some(b)) => a == b,
            (None, None) => true,
            _ => false,
        },
{
    match query.get(key) {
        Some(value) => match parse_decimal(value.as_str(), usize::MAX as u64) {
            Some(n) => Some(n as usize),
            None => None,
        },
        None => None,
    }
}

pub open spec fn says_yes(v: Seq<char>) -> bool {
    v == "1"@ || v == "true"@ || v == "yes"@ || v == "on"@
}

pub fn query_bool(query: &TextMap<String>, key: &str) -> (b: bool)
    requires
        query.wf(),
    ensures
        b == (text_values(query@).contains_key(key@) && says_yes(text_values(query@)[key@])),
{
    match query.get(key) {
        Some(v) => text_eq(v.as_str(), "1") || text_eq(v.as_str(), "true") || text_eq(
            v.as_str(),
            "yes",
        ) || text_eq(v.as_str(), "on"),
        None => false,
    }
}

/// The part of a list that a page shows.
pub open spec fn page_bounds(offset: nat, limit: nat, total: nat) -> (nat, nat) {
    let start = if offset < total {
        offset
    } else {
        total
    };
    let end = if start + limit < total {
        start + limit
    } else {
        total
    };
    (start, end)
}

pub fn page_window(offset: usize, limit: usize, total: usize) -> (r: (usize, usize))
    ensures
        (r.0 as nat, r.1 as nat) == page_bounds(offset as nat, limit as nat, total as nat),
        r.0 <= r.1 <= total,
{
    let start: usize = if offset < total {
        offset
    } else {
        total
    };
    let end: usize = if limit < total - start {
        start + limit
    } else {
        total
    };
    (start, end)
}

/// A page has at most as many entries as were asked for, and pages that follow each
/// other leave no gap.
pub proof fn pages_follow_each_other(offset: nat, limit: nat, total: nat)
    ensures
        page_bounds(offset, limit, total).1 - page_bounds(offset, limit, total).0 <= limit,
        page_bounds(offset + limit, limit, total).0 == page_bounds(offset, limit, total).1,
{
}

// ---------------------------------------------------------------------------
// Responses
// ---------------------------------------------------------------------------
pub open spec fn reason(status: u16) -> Seq<char> {
    if status == 200 {
        "OK"@
    } else if status == 201 {
        "Created"@
    } else if status == 204 {
        "No Content"@
    } else if status == 400 {
        "Bad Request"@
    } else if status == 401 {
        "Unauthorized"@
    } else if status == 404 {
        "Not Found"@
    } else if status == 405 {
        "Method Not Allowed"@
    } else if status == 413 {
        "Payload Too Large"@
    } else if status == 426 {
        "Upgrade Required"@
    } else if status == 500 {
        "Internal Server Error"@
    } else {
        "OK"@
    }
}

pub fn reason_phrase(status: u16) -> (r: &'static str)
    ensures
        r@ == reason(status),
{
    if status == 200 {
        "OK"
    } else if status == 201 {
        "Created"
    } else if status == 204 {
        "No Content"
    } else if status == 400 {
        "Bad Request"
    } else if status == 401 {
        "Unauthorized"
    } else if status == 404 {
        "Not Found"
    } else if status == 405 {
        "Method Not Allowed"
    } else if status == 413 {
        "Payload Too Large"
    } else if status == 426 {
        "Upgrade Required"
    } else if status == 500 {
        "Internal Server Error"
    } else {
        "OK"
    }
}

pub open spec fn status_reason_of(status: u16) -> Seq<char> {
    if status == 201 {
        "Created"@
    } else if status == 202 {
        "Accepted"@
    } else if status == 204 {
        "No Content"@
    } else if status == 400 {
        "Bad Request"@
    } else if status == 401 {
        "Unauthorized"@
    } else if status == 404 {
        "Not Found"@
    } else if status == 500 {
        "Internal Server Error"@
    } else if status == 503 {
        "Service Unavailable"@
    } else {
        "OK"@
    }
}

pub fn status_reason(status: u16) -> (r: &'static str)
    ensures
        r@ == status_reason_of(status),
{
    if status == 201 {
        "Created"
    } else if status == 202 {
        "Accepted"
    } else if status == 204 {
        "No Content"
    } else if status == 400 {
        "Bad Request"
    } else if status == 401 {
        "Unauthorized"
    } else if status == 404 {
        "Not Found"
    } else if status == 500 {
        "Internal Server Error"
    } else if status == 503 {
        "Service Unavailable"
    } else {
        "OK"
    }
}

#[derive(Debug)]
pub struct HttpResponse {
    pub status: u16,
    pub content_type: String,
    pub body: Vec<u8>,
}

impl HttpResponse {
    /// A response whose body is JSON text.
    pub fn json(status: u16, body: String) -> (r: Self)
        ensures
            r.status == status,
            r.content_type@ == "application/json; charset=utf-8"@,
            r.body@ == vstd::utf8::encode_utf8(body@),
    {
        HttpResponse {
            status,
            content_type: "application/json; charset=utf-8".to_owned(),
            body: utf8_bytes(body.as_str()),
        }
    }

    pub fn bytes(status: u16, content_type: &str, body: Vec<u8>) -> (r: Self)
        ensures
            r.status == status,
            r.content_type@ == content_type@,
            r.body == body,
    {
        HttpResponse { status, content_type: content_type.to_owned(), body }
    }

    pub fn empty(status: u16) -> (r: Self)
        ensures
            r.status == status,
            r.content_type@ == "text/plain; charset=utf-8"@,
            r.body@.len() == 0,
    {
        HttpResponse {
            status,
            content_type: "text/plain; charset=utf-8".to_owned(),
            body: Vec::new(),
        }
    }
}

/// The head of a response.
pub open spec fn response_head_of(
    status: u16,
    reason: Seq<char>,
    content_type: Seq<char>,
    length: nat,
) -> Seq<char> {
    "HTTP/1.1 "@ + decimal(status as nat) + " "@ + reason + "\r\nContent-Type: "@ + content_type
        + "\r\nContent-Length: "@ + decimal(length)
        + "\r\nAccess-Control-Allow-Origin: *\r\nAccess-Control-Allow-Headers: Authorization, Content-Type\r\nAccess-Control-Allow-Methods: GET, POST, PATCH, DELETE, OPTIONS\r\nConnection: close\r\n\r\n"@
}

pub fn response_head(status: u16, reason: &str, content_type: &str, length: usize) -> (r: String)
    ensures
        r@ == response_head_of(status, reason@, content_type@, length as nat),
{
    let code: String = decimal_text(status as u64);
    let count: String = decimal_usize(length);
    let mut r: String = cat5("HTTP/1.1 ", code.as_str(), " ", reason, "\r\nContent-Type: ");
    r.append(content_type);
    r.append("\r\nContent-Length: ");
    r.append(count.as_str());
    r.append(
        "\r\nAccess-Control-Allow-Origin: *\r\nAccess-Control-Allow-Headers: Authorization, Content-Type\r\nAccess-Control-Allow-Methods: GET, POST, PATCH, DELETE, OPTIONS\r\nConnection: close\r\n\r\n",
    );
    r
}

/// Why a request fails.
#[derive(Debug)]
pub struct HttpError {
    pub status: u16,
    pub message: String,
}

impl HttpError {
    pub fn new(status: u16, message: &str) -> (r: Self)
        ensures
            r.status == status,
            r.message@ == message@,
    {
        HttpError { status, message: message.to_owned() }
    }

    pub fn internal(message: &str) -> (r: Self)
        ensures
            r.status == 500,
            r.message@ == message@,
    {
        HttpError { status: 500, message: message.to_owned() }
    }

    pub fn upgrade_required() -> (r: Self)
        ensures
            r.status == 426,
            r.message@ == "upgrade required"@,
    {
        HttpError { status: 426, message: "upgrade required".to_owned() }
    }

    /// The status of the response that tells of the failure, and its body.
    pub fn into_response(self) -> (r: (u16, Json))
        ensures
            r.0 == self.status,
            r.1@ == JsonView::empty_object().with("error"@, JsonView::Text(self.message@)),
    {
        let mut body: Json = Json::object();
        body.put("error", Json::Text(self.message));
        (self.status, body)
    }
}

} // verus!

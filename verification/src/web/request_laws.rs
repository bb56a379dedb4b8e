//! Laws of requests: where they lead, what they carry, and who may send them.

use vstd::prelude::*;
use crate::number::{decimal, decimal_then_parse};
use crate::text::{
    cut_is_at_the_first, is_space, mark, occurs_at, trimming_drops_the_space_around, without_prefix,
};
use crate::words::{
    find_seq, join_seq, join_then_split, lemma_find_seq_is, lemma_find_seq_none, lower_seq,
};
use super::http::{
    announced_length, header_authorizes, headers_of, lenient_query_of, lines_of, page_bounds,
    says_yes, target_parts,
};
use super::routes::{behind_api, route_of, session_stream_of, stream_of, RouteKind, StreamView};
use super::url::{
    hex_pair, lenient_reading_gives_the_text_back, nonempty, percent_byte, percent_encoded,
    percent_encoding_is_read_back, query_of, segments,
};

verus! {

// ---------------------------------------------------------------------------
// Routes
// ---------------------------------------------------------------------------
proof fn lemma_methods()
    ensures
        mark("GET"@) == 73044419,
        mark("POST"@) == 87725060,
        mark("PATCH"@) == 88675333,
        mark("DELETE"@) == 72921350,
{
    reveal_strlit("GET");
    reveal_strlit("POST");
    reveal_strlit("PATCH");
    reveal_strlit("DELETE");
}

proof fn lemma_words()
    ensures
        mark("seen"@) == 106814660,
        mark("status"@) == 122584262,
        mark("workspace"@) == 121421257,
        mark("terminals"@) == 111049993,
        mark("foreground_sessions"@) == 105806227,
        mark("messages"@) == 102660936,
{
    reveal_strlit("seen");
    reveal_strlit("status");
    reveal_strlit("workspace");
    reveal_strlit("terminals");
    reveal_strlit("foreground_sessions");
    reveal_strlit("messages");
}

proof fn lemma_files()
    ensures
        "file"@ != "upload"@,
        "file"@ != "download"@,
        "upload"@ != "download"@,
{
    reveal_strlit("file");
    reveal_strlit("upload");
    reveal_strlit("download");
    assert("file"@.len() != "upload"@.len());
    assert("file"@.len() != "download"@.len());
    assert("upload"@.len() != "download"@.len());
}

proof fn lemma_roots()
    ensures
        "models"@ != "health"@,
        "models"@ != "conversations"@,
        "health"@ != "conversations"@,
{
    reveal_strlit("models");
    reveal_strlit("health");
    reveal_strlit("conversations");
    assert("models"@[0] != "health"@[0]);
    assert("models"@.len() != "conversations"@.len());
    assert("health"@.len() != "conversations"@.len());
}

/// Every request leads to what its method and its path name, and to the very conversation,
/// session, message or terminal in its path. Where a conversation has one session, messages
/// are asked of the conversation, else of the session.
#[verifier::rlimit(60)]
pub proof fn requests_lead_to_what_they_name(
    c: Seq<char>,
    x: Seq<char>,
    y: Seq<char>,
    sessions: bool,
)
    ensures
        route_of("GET"@, seq!["models"@], sessions) == Some((RouteKind::ListModels, Seq::<Seq<char>>::empty())),
        route_of("GET"@, seq!["health"@], true) == Some((RouteKind::Health, Seq::<Seq<char>>::empty())),
        route_of("GET"@, seq!["conversations"@], sessions) == Some((RouteKind::ListConversations, Seq::<Seq<char>>::empty())),
        route_of("POST"@, seq!["conversations"@], sessions) == Some((RouteKind::CreateConversation, Seq::<Seq<char>>::empty())),
        route_of("PATCH"@, seq!["conversations"@, c], sessions) == Some((RouteKind::RenameConversation, seq![c])),
        route_of("DELETE"@, seq!["conversations"@, c], sessions) == Some((RouteKind::DeleteConversation, seq![c])),
        route_of("POST"@, seq!["conversations"@, c, "seen"@], sessions) == Some((RouteKind::MarkSeen, seq![c])),
        route_of("GET"@, seq!["conversations"@, c, "status"@], sessions) == Some((RouteKind::Status, seq![c])),
        route_of("GET"@, seq!["conversations"@, c, "workspace"@], sessions) == Some((RouteKind::ListWorkspace, seq![c])),
        route_of("DELETE"@, seq!["conversations"@, c, "workspace"@], sessions) == Some((RouteKind::DeleteWorkspacePath, seq![c])),
        route_of("PATCH"@, seq!["conversations"@, c, "workspace"@], sessions) == Some((RouteKind::MoveWorkspacePath, seq![c])),
        route_of("GET"@, seq!["conversations"@, c, "workspace"@, "file"@], sessions) == Some((RouteKind::ReadWorkspaceFile, seq![c])),
        route_of("POST"@, seq!["conversations"@, c, "workspace"@, "upload"@], sessions) == Some((RouteKind::UploadWorkspaceArchive, seq![c])),
        route_of("GET"@, seq!["conversations"@, c, "workspace"@, "download"@], sessions) == Some((RouteKind::DownloadWorkspaceArchive, seq![c])),
        route_of("GET"@, seq!["conversations"@, c, "terminals"@], sessions) == Some((RouteKind::ListTerminals, seq![c])),
        route_of("POST"@, seq!["conversations"@, c, "terminals"@], sessions) == Some((RouteKind::CreateTerminal, seq![c])),
        route_of("GET"@, seq!["conversations"@, c, "terminals"@, x], sessions) == Some((RouteKind::GetTerminal, seq![c, x])),
        route_of("DELETE"@, seq!["conversations"@, c, "terminals"@, x], sessions) == Some((RouteKind::TerminateTerminal, seq![c, x])),
        route_of("GET"@, seq!["conversations"@, c, "messages"@], false) == Some((RouteKind::ListMessages, seq![c])),
        route_of("POST"@, seq!["conversations"@, c, "messages"@], false) == Some((RouteKind::PostMessage, seq![c])),
        route_of("GET"@, seq!["conversations"@, c, "messages"@, x], false) == Some((RouteKind::MessageDetail, seq![c, x])),
        route_of("GET"@, seq!["conversations"@, c, "foreground_sessions"@], true) == Some((RouteKind::ListSessions, seq![c])),
        route_of("POST"@, seq!["conversations"@, c, "foreground_sessions"@], true) == Some((RouteKind::CreateSession, seq![c])),
        route_of("PATCH"@, seq!["conversations"@, c, "foreground_sessions"@, x], true) == Some((RouteKind::RenameSession, seq![c, x])),
        route_of("DELETE"@, seq!["conversations"@, c, "foreground_sessions"@, x], true) == Some((RouteKind::DeleteSession, seq![c, x])),
        route_of("GET"@, seq!["conversations"@, c, "foreground_sessions"@, x, "messages"@], true) == Some((RouteKind::ListSessionMessages, seq![c, x])),
        route_of("POST"@, seq!["conversations"@, c, "foreground_sessions"@, x, "messages"@], sessions) == Some((RouteKind::PostSessionMessage, seq![c, x])),
        route_of("GET"@, seq!["conversations"@, c, "foreground_sessions"@, x, "messages"@, y], true) == Some((RouteKind::SessionMessageDetail, seq![c, x, y])),
{
    lemma_methods();
    lemma_words();
    lemma_files();
    lemma_roots();
}

/// What no route names leads nowhere.
pub proof fn other_requests_lead_nowhere(
    method: Seq<char>,
    s: Seq<Seq<char>>,
    c: Seq<char>,
    sessions: bool,
)
    requires
        method != "GET"@ && method != "POST"@ && method != "PATCH"@ && method != "DELETE"@,
    ensures
        route_of(method, s, sessions) is None,
        route_of("GET"@, Seq::empty(), sessions) is None,
        s.len() > 1 && s[0] != "conversations"@ ==> route_of("GET"@, s, sessions) is None,
        route_of("GET"@, seq!["conversations"@, c], sessions) is None,
{
    lemma_methods();
}

/// A connection shows the home page, or the very session, conversation or terminal in its
/// path.
pub proof fn connections_show_what_they_name(c: Seq<char>, x: Seq<char>)
    ensures
        session_stream_of(seq!["api"@, "ws"@, "home"@]) == StreamView::Home,
        session_stream_of(
            seq!["api"@, "conversations"@, c, "foreground_sessions"@, x, "ws"@],
        ) == StreamView::Session(c, x),
        session_stream_of(seq!["api"@, "conversations"@, c, "terminals"@, x, "ws"@])
            == StreamView::Terminal(c, x),
        stream_of(seq!["conversations"@, "stream"@]) == StreamView::Home,
        stream_of(seq!["conversations"@, c, "foreground"@, "ws"@]) == StreamView::Conversation(c),
        stream_of(seq!["conversations"@, c, "terminals"@, x, "stream"@]) == StreamView::Terminal(
            c,
            x,
        ),
        behind_api(seq!["api"@, c, x]) == seq![c, x],
{
    lemma_words();
    assert(seq!["api"@, c, x].skip(1) =~= seq![c, x]);
}

// ---------------------------------------------------------------------------
// Paths and queries
// ---------------------------------------------------------------------------
/// Whether texts can stand between slashes.
pub open spec fn are_segments(parts: Seq<Seq<char>>) -> bool {
    forall|i: int|
        0 <= i < parts.len() ==> (#[trigger] parts[i]).len() > 0 && !parts[i].contains('/')
}

proof fn lemma_nonempty(parts: Seq<Seq<char>>)
    requires
        are_segments(parts),
    ensures
        nonempty(parts) == parts,
    decreases parts.len(),
{
    if parts.len() > 0 {
        let rest = parts.drop_last();
        assert forall|i: int| 0 <= i < rest.len() implies (#[trigger] rest[i]).len() > 0
            && !rest[i].contains('/') by {
            assert(rest[i] == parts[i]);
        }
        lemma_nonempty(rest);
        assert(parts[parts.len() - 1].len() > 0);
        assert(rest.push(parts.last()) =~= parts);
    } else {
        assert(parts =~= Seq::empty());
    }
}

proof fn lemma_nonempty_first(parts: Seq<Seq<char>>)
    requires
        are_segments(parts),
    ensures
        nonempty(seq![Seq::<char>::empty()] + parts) == parts,
    decreases parts.len(),
{
    let e = seq![Seq::<char>::empty()];
    let all = e + parts;
    if parts.len() == 0 {
        assert(all =~= e);
        assert(e.drop_last() =~= Seq::empty());
        assert(nonempty(Seq::<Seq<char>>::empty()) =~= Seq::empty());
        assert(nonempty(e) =~= parts);
    } else {
        let rest = parts.drop_last();
        assert forall|i: int| 0 <= i < rest.len() implies (#[trigger] rest[i]).len() > 0
            && !rest[i].contains('/') by {
            assert(rest[i] == parts[i]);
        }
        assert(all.drop_last() =~= e + rest);
        lemma_nonempty_first(rest);
        assert(parts[parts.len() - 1].len() > 0);
        assert(rest.push(parts.last()) =~= parts);
    }
}

/// The segments of a path are the texts between its slashes, in order.
pub proof fn segments_stand_between_slashes(parts: Seq<Seq<char>>)
    requires
        parts.len() > 0,
        are_segments(parts),
    ensures
        segments("/"@ + join_seq(parts, "/"@)) == parts,
        segments(join_seq(parts, "/"@)) == parts,
{
    reveal_strlit("/");
    assert("/"@ =~= seq!['/']);
    join_then_split(parts, '/');
    lemma_nonempty(parts);
    let all = seq![Seq::<char>::empty()] + parts;
    assert forall|i: int| 0 <= i < all.len() implies !(#[trigger] all[i]).contains('/') by {
        if i > 0 {
            assert(all[i] == parts[i - 1]);
        }
    }
    join_then_split(all, '/');
    assert(all.drop_first() =~= parts);
    assert(join_seq(all, "/"@) =~= "/"@ + join_seq(parts, "/"@));
    lemma_nonempty_first(parts);
}

/// A parameter of a query is found under its name with its value, whatever characters they
/// hold in percent notation, and the last one of a name counts.
pub proof fn parameter_is_found_by_name(
    before: Seq<Seq<char>>,
    name: Seq<char>,
    value: Seq<char>,
    other: Seq<char>,
)
    requires
        !percent_encoded(name).contains('='),
        other != name,
    ensures
        ({
            let pair = percent_encoded(name) + seq!['='] + percent_encoded(value);
            let q = query_of(before.push(pair));
            let l = lenient_query_of(before.push(pair));
            &&& q.contains_key(name) && q[name] == value
            &&& query_of(before).contains_key(other) <==> q.contains_key(other)
            &&& query_of(before).contains_key(other) ==> q[other] == query_of(before)[other]
            &&& l.contains_key(name) && l[name] == value
            &&& lenient_query_of(before).contains_key(other) ==> l[other] == lenient_query_of(
                before,
            )[other]
        }),
{
    let (n, v) = (percent_encoded(name), percent_encoded(value));
    let pair = n + seq!['='] + v;
    assert(before.push(pair).drop_last() =~= before);
    cut_is_at_the_first(n, '=', v);
    percent_encoding_is_read_back(name);
    percent_encoding_is_read_back(value);
    lenient_reading_gives_the_text_back(name);
    lenient_reading_gives_the_text_back(value);
}

/// The query of a target follows its first question mark.
pub proof fn query_follows_the_question_mark(path: Seq<char>, query: Seq<char>)
    requires
        !path.contains('?'),
    ensures
        target_parts(path + seq!['?'] + query) == (path, query),
        target_parts(path) == (path, Seq::<char>::empty()),
{
    cut_is_at_the_first(path, '?', query);
}

/// A byte in percent notation is written by its two hexadecimal digits, the higher one first.
pub proof fn percent_digits_are_hexadecimal(b: u8, high: u8, low: u8)
    requires
        high < 16,
        low < 16,
    ensures
        (0x61 <= b <= 0x7a) || (0x41 <= b <= 0x5a) || (0x30 <= b <= 0x39) || b == 0x2d || b == 0x5f
            || b == 0x2e || b == 0x7e ==> percent_byte(b) == seq![b as char],
        b < 0x2d || b == 0x2f || (0x3a <= b <= 0x40) || b > 0x7e ==> percent_byte(b).len() == 3
            && percent_byte(b)[0] == '%',
        hex_pair(digit_byte(high), digit_byte(low)) == Some((high * 16 + low) as u8),
        percent_byte(0x20) == seq!['%', '2', '0'],
        percent_byte(0x2f) == seq!['%', '2', 'F'],
{
    assert(percent_byte(0x20) =~= seq!['%', '2', '0']);
    assert(percent_byte(0x2f) =~= seq!['%', '2', 'F']);
}

/// The byte of a hexadecimal digit.
pub open spec fn digit_byte(d: u8) -> u8 {
    if d < 10 {
        (0x30 + d) as u8
    } else {
        (0x41 + d - 10) as u8
    }
}

// ---------------------------------------------------------------------------
// Heads
// ---------------------------------------------------------------------------
proof fn lemma_no_break(a: Seq<char>)
    requires
        !a.contains('\r'),
    ensures
        find_seq(a, "\r\n"@) is None,
{
    reveal_strlit("\r\n");
    assert forall|j: int| 0 <= j < a.len() + 1 implies !#[trigger] occurs_at(a, "\r\n"@, j) by {
        if occurs_at(a, "\r\n"@, j) {
            assert(a.subrange(j, j + 2)[0] == '\r');
            assert(a[j] == '\r');
        }
    }
    lemma_find_seq_none(a, "\r\n"@);
}

/// The lines of a head are the texts between its line breaks, in order.
pub proof fn lines_stand_between_breaks(lines: Seq<Seq<char>>)
    requires
        lines.len() > 0,
        forall|i: int| 0 <= i < lines.len() ==> !(#[trigger] lines[i]).contains('\r'),
    ensures
        lines_of(join_seq(lines, "\r\n"@)) == lines,
    decreases lines.len(),
{
    reveal_strlit("\r\n");
    let a = lines[0];
    let s = join_seq(lines, "\r\n"@);
    if lines.len() == 1 {
        lemma_no_break(a);
        assert(lines_of(s) =~= lines);
    } else {
        let rest = lines.drop_first();
        let n = a.len() as int;
        assert(s.subrange(n, n + 2) =~= "\r\n"@);
        assert forall|j: int| 0 <= j < n implies !#[trigger] occurs_at(s, "\r\n"@, j) by {
            if occurs_at(s, "\r\n"@, j) {
                assert(s.subrange(j, j + 2)[0] == '\r');
                assert(a[j] == '\r');
            }
        }
        lemma_find_seq_is(s, "\r\n"@, n);
        assert(s.take(n) =~= a);
        assert(s.skip(n + 2) =~= join_seq(rest, "\r\n"@));
        assert forall|i: int| 0 <= i < rest.len() implies !(#[trigger] rest[i]).contains('\r') by {
            assert(rest[i] == lines[i + 1]);
        }
        lines_stand_between_breaks(rest);
        assert(lines_of(s) =~= lines);
    }
}

/// A header is found under its name in lower case, with its value and without the white space
/// around it; the last one of a name counts.
pub proof fn header_is_found_by_name(
    before: Seq<Seq<char>>,
    name: Seq<char>,
    space: Seq<char>,
    value: Seq<char>,
    other: Seq<char>,
)
    requires
        name.len() > 0 && !is_space(name[0]) && !is_space(name.last()),
        !name.contains(':'),
        value.len() > 0 && !is_space(value[0]) && !is_space(value.last()),
        forall|i: int| 0 <= i < space.len() ==> is_space(#[trigger] space[i]),
        other != lower_seq(name),
    ensures
        ({
            let h = headers_of(before.push(name + seq![':'] + (space + value)));
            &&& h.contains_key(lower_seq(name)) && h[lower_seq(name)] == value
            &&& headers_of(before).contains_key(other) <==> h.contains_key(other)
            &&& headers_of(before).contains_key(other) ==> h[other] == headers_of(before)[other]
        }),
        headers_of(before.push(name)) == headers_of(before),
{
    let e = Seq::<char>::empty();
    let line = name + seq![':'] + (space + value);
    assert(before.push(line).drop_last() =~= before);
    assert(before.push(name).drop_last() =~= before);
    cut_is_at_the_first(name, ':', space + value);
    trimming_drops_the_space_around(e, name, e);
    assert(e + name + e =~= name);
    trimming_drops_the_space_around(space, value, e);
    assert(space + value + e =~= space + value);
}

/// A body is as long as its head announces; one that announces nothing has none.
pub proof fn body_has_its_announced_length(headers: Map<Seq<char>, Seq<char>>, n: nat)
    requires
        n <= usize::MAX,
    ensures
        announced_length(headers.insert("content-length"@, decimal(n))) == n,
        !headers.contains_key("content-length"@) ==> announced_length(headers) == 0,
{
    decimal_then_parse(n, usize::MAX as nat);
}

/// Who knows the token may enter: as it is or behind `Bearer`. Nobody else may.
pub proof fn only_the_token_authorizes(token: Seq<char>, value: Seq<char>)
    ensures
        header_authorizes(Some(token), token),
        header_authorizes(Some("Bearer "@ + token), token),
        header_authorizes(Some(value), token) ==> value == token || value == "Bearer "@ + token,
        !header_authorizes(None, token),
{
    let v = "Bearer "@ + token;
    assert(v.subrange(0, "Bearer "@.len() as int) =~= "Bearer "@);
    assert(v.skip("Bearer "@.len() as int) =~= token);
    if without_prefix(value, "Bearer "@) == Some(token) {
        assert(value =~= "Bearer "@ + token);
    }
}

/// A page holds the entries from its offset on, as many as are asked for and there are.
pub proof fn page_holds_what_is_asked_for(offset: nat, limit: nat, total: nat)
    ensures
        offset + limit <= total ==> page_bounds(offset, limit, total) == (offset, offset + limit),
        offset <= total && total < offset + limit ==> page_bounds(offset, limit, total) == (
            offset,
            total,
        ),
        offset > total ==> page_bounds(offset, limit, total) == (total, total),
{
}

/// Words that say yes, and others that do not.
pub proof fn yes_is_said_by_these_words(v: Seq<char>)
    ensures
        says_yes(v) <==> v == "1"@ || v == "true"@ || v == "yes"@ || v == "on"@,
{
}

} // verus!

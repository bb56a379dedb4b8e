//! Laws of logs and names: which lines are messages, which message comes first, and what
//! sessions and their files are called.

use vstd::prelude::*;
use crate::json::JsonView;
use crate::number::{decimal, decimal_is_digits, decimal_then_parse};
use crate::path_laws::joined_path_ends_in_the_name;
use crate::text::{
    cut_is_at_the_first, is_space, occurs_at, trimmed, trimming_drops_the_space_around, views,
};
use crate::words::{join_seq, lemma_find_seq};
use super::history::{
    asked_index, decorated, id_index, is_asked_for, last_read, order_of, order_of_id, window,
    written, LogEntry, MessageOrder,
};
use super::ids::{
    is_conversation_id, log_place, nickname_of, public_type, route_id, route_or_self, seen_key,
    storage_component, storage_id, ServiceAddr, ServiceScope,
};

verus! {

// ---------------------------------------------------------------------------
// Lines
// ---------------------------------------------------------------------------
/// Whether a line is blank.
pub open spec fn is_blank_line(line: Seq<char>) -> bool {
    forall|i: int| 0 <= i < line.len() ==> is_space(#[trigger] line[i])
}

proof fn lemma_blank(line: Seq<char>)
    ensures
        trimmed(line).len() == 0 <==> is_blank_line(line),
{
    let e = Seq::<char>::empty();
    if is_blank_line(line) {
        trimming_drops_the_space_around(line, e, e);
        assert(line + e + e =~= line);
    } else {
        let i = choose|i: int| 0 <= i < line.len() && !is_space(#[trigger] line[i]);
        let p = |x: char| !is_space(x);
        crate::text::lemma_position(line, p);
        let n = crate::text::leading_space(line);
        if n > i {
            assert(!p(line[i]));
        }
        let t = crate::text::trim_start_seq(line);
        crate::text::lemma_trim_end(t);
        if trimmed(line).len() == 0 {
            assert(is_space(t[i - n]));
            assert(t[i - n] == line[i]);
        }
    }
}

/// The messages of a log are its lines in order, without those that are blank.
pub proof fn blank_lines_are_no_messages(lines: Seq<Seq<char>>, line: Seq<char>)
    ensures
        is_blank_line(line) ==> written(lines.push(line)) == written(lines),
        !is_blank_line(line) ==> written(lines.push(line)) == written(lines).push(line),
        written(Seq::empty()).len() == 0,
{
    lemma_blank(line);
    assert(lines.push(line).drop_last() =~= lines);
}

/// A page of a log holds the messages from its offset on, in order.
pub proof fn page_of_a_log(s: Seq<Seq<char>>, offset: nat, limit: nat, i: int)
    requires
        0 <= i < limit,
        offset + i < s.len(),
    ensures
        i < window(s, offset, limit).len(),
        window(s, offset, limit)[i] == s[offset + i],
        window(s, offset, limit).len() <= limit,
{
}

/// A message is found by its id, the first where several have it.
pub proof fn message_is_found_by_id(ids: Seq<Seq<char>>, id: Seq<char>, from: int, i: int)
    requires
        0 <= from <= i <= ids.len(),
        i < ids.len() ==> ids[i] == id,
        forall|j: int| from <= j < i ==> #[trigger] ids[j] != id,
    ensures
        id_index(ids, id, from) == (if i < ids.len() {
            Some(i)
        } else {
            None
        }),
    decreases i - from,
{
    if from < i {
        assert(ids[from] != id);
        message_is_found_by_id(ids, id, from + 1, i);
    }
}

/// A message is asked for by its id or by its number, and the first that fits is shown.
pub proof fn message_is_asked_for(
    messages: Seq<JsonView>,
    asked: Seq<char>,
    from: int,
    i: int,
    n: u64,
)
    requires
        0 <= from <= i < messages.len(),
        messages[i].text_field("message_id"@) == Some(asked) || (messages[i].unsigned_field(
            "index"@,
        ) == Some(n) && asked == decimal(n as nat)),
        forall|j: int| from <= j < i ==> !is_asked_for(#[trigger] messages[j], asked),
    ensures
        asked_index(messages, asked, from) == i,
    decreases i - from,
{
    if from < i {
        assert(!is_asked_for(messages[from], asked));
        message_is_asked_for(messages, asked, from + 1, i, n);
    } else {
        assert(is_asked_for(messages[i], asked));
    }
}

/// The last message of a log is the last that can be read.
pub proof fn last_message_is_the_last_readable(entries: Seq<Option<LogEntry>>, i: int, n: int)
    requires
        0 <= i < n <= entries.len(),
        entries[i] is Some,
        forall|j: int| i < j < n ==> (#[trigger] entries[j]) is None,
    ensures
        last_read(entries, n) == entries[i],
    decreases n,
{
    if i < n - 1 {
        assert(entries[n - 1] is None);
        last_message_is_the_last_readable(entries, i, n - 1);
    }
}

/// The number of a message that its id tells orders it, unless the log tells more.
pub proof fn ids_tell_the_order(a: u64, b: u64, x: Seq<char>, y: Seq<char>, i: usize, j: usize)
    requires
        "msg_"@ + decimal(a as nat) + "_"@ + x != "msg_"@ + decimal(b as nat) + "_"@ + y,
    ensures
        ({
            let left = "msg_"@ + decimal(a as nat) + "_"@ + x;
            let right = "msg_"@ + decimal(b as nat) + "_"@ + y;
            &&& order_of_id(left) == Some(a as nat)
            &&& order_of(left, right, None, None) == Some(
                if a < b {
                    MessageOrder::Before
                } else if a == b {
                    MessageOrder::Same
                } else {
                    MessageOrder::After
                },
            )
            &&& order_of(left, right, Some(i), Some(j)) == Some(
                if i < j {
                    MessageOrder::Before
                } else if i == j {
                    MessageOrder::Same
                } else {
                    MessageOrder::After
                },
            )
            &&& order_of(left, left, None, Some(j)) == Some(MessageOrder::Same)
        }),
{
    lemma_order(a, x);
    lemma_order(b, y);
}

proof fn lemma_order(a: u64, x: Seq<char>)
    ensures
        order_of_id("msg_"@ + decimal(a as nat) + "_"@ + x) == Some(a as nat),
{
    reveal_strlit("msg_");
    reveal_strlit("_");
    let d = decimal(a as nat);
    let id = "msg_"@ + d + "_"@ + x;
    let rest = d + seq!['_'] + x;
    assert(id.subrange(0, 4) =~= "msg_"@);
    assert(id.skip(4) =~= rest);
    decimal_is_digits(a as nat);
    assert(!d.contains('_')) by {
        if d.contains('_') {
            let i = choose|i: int| 0 <= i < d.len() && d[i] == '_';
            assert(crate::text::is_digit(d[i]));
        }
    }
    cut_is_at_the_first(d, '_', x);
    decimal_then_parse(a as nat, u64::MAX as nat);
}

/// A logged message carries its number and its id, and is otherwise as it was.
pub proof fn logged_message_carries_its_number(
    value: JsonView,
    id: Seq<char>,
    index: u64,
    other: Seq<char>,
)
    requires
        value is Object,
        other != "index"@ && other != "id"@,
    ensures
        decorated(value, id, index as nat).unsigned_field("index"@) == Some(index),
        id.len() > 0 ==> decorated(value, id, index as nat).text_field("id"@) == Some(id),
        id.len() == 0 ==> decorated(value, id, index as nat).field("id"@) == value.field("id"@),
        decorated(value, id, index as nat).field(other) == value.field(other),
{
    reveal_strlit("index");
    reveal_strlit("id");
    assert("index"@.len() != "id"@.len());
}

// ---------------------------------------------------------------------------
// Names
// ---------------------------------------------------------------------------
/// A session is stored under a fixed prefix and its name in the interface, and the name is
/// found again.
pub proof fn session_is_stored_under_its_prefix(route: Seq<char>)
    requires
        !"local__agent__foreground__"@.is_prefix_of(route),
    ensures
        storage_id(route) == "local__agent__foreground__"@ + route,
        storage_id("local__agent__foreground__"@ + route) == "local__agent__foreground__"@ + route,
        route_or_self("local__agent__foreground__"@ + route) == route,
        route_or_self(route) == route,
        route_id(route) is None,
{
    let p = "local__agent__foreground__"@;
    assert((p + route).subrange(0, p.len() as int) =~= p);
    assert((p + route).skip(p.len() as int) =~= route);
}

/// The address of a service is stored by where it runs and the parts of its path.
pub proof fn address_is_stored_by_its_parts(addr: ServiceAddr)
    ensures
        addr.scope is Local ==> storage_component(addr) == "local"@ + "__"@ + join_seq(
            views(addr.path@),
            "__"@,
        ),
        addr.scope matches ServiceScope::Conversation(id) ==> storage_component(addr)
            == "conversation_"@ + id@ + "__"@ + join_seq(views(addr.path@), "__"@),
{
}

/// What was seen is kept for each session of each conversation on its own.
pub proof fn seen_is_kept_for_each_session(
    conversation: Seq<char>,
    other: Seq<char>,
    session: Seq<char>,
    another: Seq<char>,
)
    requires
        !conversation.contains(':'),
        !other.contains(':'),
    ensures
        seen_key(conversation, session) == seen_key(other, another) ==> conversation == other
            && storage_id(session) == storage_id(another),
        seen_key(conversation, session) == conversation + seq![':'] + storage_id(session),
{
    reveal_strlit(":");
    assert(":"@ =~= seq![':']);
    cut_is_at_the_first(conversation, ':', storage_id(session));
    cut_is_at_the_first(other, ':', storage_id(another));
}

/// The messages of a session are logged below the conversation, in a directory of their own.
pub proof fn log_lies_below_the_conversation(root: Seq<char>, session: Seq<char>)
    requires
        root.len() > 0,
        root.last() != '/',
        session.len() > 0,
        forall|i: int|
            0 <= i < session.len() ==> crate::loaders::estimator::keeps_in_name(
                #[trigger] session[i],
            ),
    ensures
        log_place(root, session) == root + "/.stellaclaw/log/"@ + session
            + "/all_messages.jsonl"@,
{
    reveal_strlit(".stellaclaw");
    reveal_strlit("log");
    reveal_strlit("all_messages.jsonl");
    reveal_strlit("/.stellaclaw/log/");
    reveal_strlit("/all_messages.jsonl");
    assert(crate::loaders::estimator::safe_component(session) =~= session);
    assert(crate::loaders::estimator::keeps_in_name(session[0]));
    assert(crate::loaders::estimator::keeps_in_name(session[session.len() - 1]));
    joined_path_ends_in_the_name(root, ".stellaclaw"@);
    let a = root + seq!['/'] + ".stellaclaw"@;
    joined_path_ends_in_the_name(a, "log"@);
    let b = a + seq!['/'] + "log"@;
    joined_path_ends_in_the_name(b, session);
    let c = b + seq!['/'] + session;
    joined_path_ends_in_the_name(c, "all_messages.jsonl"@);
    assert(c + seq!['/'] + "all_messages.jsonl"@ =~= root + "/.stellaclaw/log/"@ + session
        + "/all_messages.jsonl"@);
}

/// A conversation is called by its nickname, without white space around it, else by its id.
pub proof fn conversation_is_called_by_its_nickname(
    id: Seq<char>,
    a: Seq<char>,
    name: Seq<char>,
    b: Seq<char>,
)
    requires
        is_blank_line(a),
        is_blank_line(b),
        name.len() > 0 && !is_space(name[0]) && !is_space(name.last()),
    ensures
        nickname_of(id, a + name + b) == name,
        nickname_of(id, a) == id,
{
    trimming_drops_the_space_around(a, name, b);
    lemma_blank(a);
}

/// The id of a conversation never leads out of its directory.
pub proof fn conversation_id_is_one_name(id: Seq<char>)
    ensures
        is_conversation_id(id) ==> !is_blank_line(id) && !id.contains('/') && !id.contains('\\')
            && id != ".."@,
        id.contains('/') || id.contains('\\') || is_blank_line(id) || id == ".."@
            ==> !is_conversation_id(id),
{
    lemma_blank(id);
    lemma_find_seq(id, ".."@);
    if id == ".."@ {
        reveal_strlit("..");
        assert(id.subrange(0, 2) =~= ".."@);
        assert(occurs_at(id, ".."@, 0));
    }
}

/// An event is told under its own name, but the start and the end of a turn under names of
/// their own.
pub proof fn events_are_told_by_name(kind: Seq<char>)
    requires
        kind != "turn_started"@,
        kind != "turn_completed"@,
    ensures
        public_type(kind) == "chat."@ + kind,
        public_type("turn_started"@) == "chat.stream_turn_start"@,
        public_type("turn_completed"@) == "chat.stream_turn_done"@,
{
    reveal_strlit("turn_started");
    reveal_strlit("turn_completed");
    assert("turn_started"@.len() != "turn_completed"@.len());
    reveal_strlit("chat.");
    reveal_strlit("stream_turn_start");
    reveal_strlit("stream_turn_done");
    reveal_strlit("chat.stream_turn_start");
    reveal_strlit("chat.stream_turn_done");
    assert("chat."@ + "stream_turn_start"@ =~= "chat.stream_turn_start"@);
    assert("chat."@ + "stream_turn_done"@ =~= "chat.stream_turn_done"@);
}

} // verus!

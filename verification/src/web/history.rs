//! The log of a session: pages of it, where messages stand in it, and what is last.

use vstd::prelude::*;
use crate::chat::{ChatMessage, ChatMessageItem, ChatRole, TokenUsage};
use crate::json::{array_view, group_json, Json, JsonView};
use crate::json_ops::opt_json;
use crate::number::{decimal, decimal_text, parse_decimal, parse_seq};
use crate::text::{
    is_blank, opt_copy, opt_view, split_once, split_once_seq, strip_prefix, text_eq,
    trim, trimmed, views, without_prefix,
};
use crate::web::chat_copy::{copy_opt_json, readable_item, web_chat_message_data};
use crate::web::http::{page_bounds, page_window};
use crate::web::live_model::id_of_message;
use crate::web::messages::{
    message_is_readable, render_web_message, rendered_message, MessageFacts, WebMessageItem,
    WebRenderedMessage,
};
use crate::web::attachments::WebMessageAttachment;
use crate::web::selection::{item_views, ItemView};

verus! {

broadcast use group_json;

// ---------------------------------------------------------------------------
// Lines
// ---------------------------------------------------------------------------
/// The lines that hold something.
pub open spec fn written(lines: Seq<Seq<char>>) -> Seq<Seq<char>>
    decreases lines.len(),
{
    if lines.len() == 0 {
        Seq::empty()
    } else {
        let rest = written(lines.drop_last());
        if trimmed(lines.last()).len() == 0 {
            rest
        } else {
            rest.push(lines.last())
        }
    }
}

/// How many messages the lines of a log hold.
pub fn count_message_lines(lines: &Vec<String>) -> (n: usize)
    ensures
        n == written(views(lines@)).len(),
{
    let ghost v = views(lines@);
    let mut n: usize = 0;
    let mut i: usize = 0;
    assert(v.take(0) =~= Seq::empty());
    while i < lines.len()
        invariant
            i <= lines@.len(),
            n <= i,
            v == views(lines@),
            n == written(v.take(i as int)).len(),
        decreases lines@.len() - i,
    {
        proof {
            assert(v.take(i + 1).drop_last() =~= v.take(i as int));
            assert(v.take(i + 1).last() == lines@[i as int]@);
        }
        if !is_blank(lines[i].as_str()) {
            n += 1;
        }
        i += 1;
    }
    assert(v.take(v.len() as int) =~= v);
    n
}

/// A page of a log: the lines to read, and where they stand.
#[derive(Debug)]
pub struct PageLines {
    pub start: usize,
    pub end: usize,
    pub total: usize,
    pub lines: Vec<String>,
}

/// The part of a sequence that a window of indices covers.
pub open spec fn window(s: Seq<Seq<char>>, offset: nat, limit: nat) -> Seq<Seq<char>> {
    let (start, end) = page_bounds(offset, limit, s.len());
    s.subrange(start as int, end as int)
}

/// Picks the lines of a page.
pub fn read_message_page(lines: &Vec<String>, offset: usize, limit: usize) -> (r: PageLines)
    ensures
        r.total == written(views(lines@)).len(),
        (r.start as nat, r.end as nat) == page_bounds(
            offset as nat,
            limit as nat,
            r.total as nat,
        ),
        views(r.lines@) == window(written(views(lines@)), offset as nat, limit as nat),
        r.end - r.start == r.lines@.len(),
{
    let ghost v = views(lines@);
    let ghost all = written(v);
    let total: usize = count_message_lines(lines);
    let (start, end) = page_window(offset, limit, total);
    let mut r: Vec<String> = Vec::new();
    let mut seen: usize = 0;
    let mut i: usize = 0;
    proof {
        assert(v.take(0) =~= Seq::empty());
        lemma_written_take(v, 0);
        assert(views(r@) =~= Seq::empty());
    }
    while i < lines.len()
        invariant
            i <= lines@.len(),
            v == views(lines@),
            all == written(v),
            start <= end <= total,
            total == all.len(),
            seen == written(v.take(i as int)).len(),
            seen <= i,
            views(r@) =~= if seen <= start {
                Seq::empty()
            } else if seen <= end {
                all.subrange(start as int, seen as int)
            } else {
                all.subrange(start as int, end as int)
            },
        decreases lines@.len() - i,
    {
        proof {
            assert(v.take(i + 1).drop_last() =~= v.take(i as int));
            assert(v.take(i + 1).last() == lines@[i as int]@);
            lemma_written_take(v, i + 1);
        }
        if !is_blank(lines[i].as_str()) {
            if start <= seen && seen < end {
                let ghost before = r@;
                r.push(lines[i].clone());
                proof {
                    assert(written(v.take(i + 1))[seen as int] == lines@[i as int]@);
                    assert(all[seen as int] == lines@[i as int]@);
                    assert(views(r@) =~= views(before).push(all[seen as int]));
                }
            }
            seen += 1;
        }
        i += 1;
    }
    assert(v.take(v.len() as int) =~= v);
    assert(views(r@).len() == r@.len());
    PageLines { start, end, total, lines: r }
}

proof fn lemma_written_take(lines: Seq<Seq<char>>, n: int)
    requires
        0 <= n <= lines.len(),
    ensures
        written(lines.take(n)).is_prefix_of(written(lines)),
    decreases lines.len(),
{
    if n == lines.len() {
        assert(lines.take(n) =~= lines);
        assert(written(lines) =~= written(lines).take(written(lines).len() as int));
    } else {
        let t = lines.drop_last();
        lemma_written_take(t, n);
        assert(t.take(n) =~= lines.take(n));
        assert(written(t).is_prefix_of(written(lines)));
        let a = written(lines.take(n));
        assert(a =~= written(lines).take(a.len() as int));
    }
}

/// Two pages that follow each other hold what one page over both holds.
pub proof fn log_pages_follow_each_other(
    lines: Seq<Seq<char>>,
    offset: nat,
    first: nat,
    second: nat,
)
    ensures
        window(written(lines), offset, first) + window(written(lines), offset + first, second)
            == window(written(lines), offset, first + second),
{
    let w = written(lines);
    assert(window(w, offset, first) + window(w, offset + first, second) =~= window(
        w,
        offset,
        first + second,
    ));
}

/// The first index of a message with an id; none where there is no such message.
pub open spec fn id_index(ids: Seq<Seq<char>>, id: Seq<char>, i: int) -> Option<int>
    decreases ids.len() - i,
{
    if i < 0 || i >= ids.len() {
        None
    } else if ids[i] == id {
        Some(i)
    } else {
        id_index(ids, id, i + 1)
    }
}

/// Where a message stands among the messages of a log.
pub fn read_message_by_id(ids: &Vec<String>, message_id: &str) -> (r: Option<usize>)
    ensures
        match (r, id_index(views(ids@), message_id@, 0)) {
            (Some(a), Some(b)) => a == b && a < ids@.len(),
            (None, None) => true,
            _ => false,
        },
{
    let ghost v = views(ids@);
    assert(v.len() == ids@.len());
    let mut i: usize = 0;
    while i < ids.len()
        invariant
            i <= ids@.len(),
            v == views(ids@),
            id_index(v, message_id@, 0) == id_index(v, message_id@, i as int),
        decreases ids@.len() - i,
    {
        assert(v[i as int] == ids@[i as int]@);
        if text_eq(ids[i].as_str(), message_id) {
            return Some(i);
        }
        i += 1;
    }
    None
}

// ---------------------------------------------------------------------------
// What is last
// ---------------------------------------------------------------------------
/// The messages of a log in short.
#[derive(Debug)]
pub struct ConversationMessageSummary {
    pub message_count: usize,
    pub last_message_id: Option<String>,
    pub last_message_time: Option<String>,
}

/// A message of a log that could be read.
#[derive(Debug)]
pub struct LogEntry {
    pub message_id: String,
    pub message_time: Option<String>,
}

/// The last entry that could be read among the first `n`.
pub open spec fn last_read(entries: Seq<Option<LogEntry>>, n: int) -> Option<LogEntry>
    decreases n,
{
    if n <= 0 || n > entries.len() {
        None
    } else {
        match entries[n - 1] {
            Some(e) => Some(e),
            None => last_read(entries, n - 1),
        }
    }
}

pub open spec fn nonempty_text(t: Seq<char>) -> Option<Seq<char>> {
    if t.len() == 0 {
        None
    } else {
        Some(t)
    }
}

/// Sums up a log. There is an entry for each line that holds something, and it holds the
/// message where that could be read. `modified` is when the log was last changed.
pub fn conversation_message_summary(
    entries: &Vec<Option<LogEntry>>,
    modified: &Option<String>,
) -> (r: ConversationMessageSummary)
    ensures
        r.message_count == entries@.len(),
        match last_read(entries@, entries@.len() as int) {
            Some(e) => opt_view(r.last_message_id) == nonempty_text(e.message_id@) && opt_view(
                r.last_message_time,
            ) == match e.message_time {
                Some(t) => Some(t@),
                None => opt_view(*modified),
            },
            None => r.last_message_id is None && r.last_message_time is None,
        },
{
    let n: usize = entries.len();
    let mut i: usize = n;
    while i > 0
        invariant
            i <= n,
            n == entries@.len(),
            last_read(entries@, n as int) == last_read(entries@, i as int),
        decreases i,
    {
        if let Some(e) = &entries[i - 1] {
            let last_message_id: Option<String> = if e.message_id.as_str().is_empty() {
                None
            } else {
                Some(e.message_id.clone())
            };
            let last_message_time: Option<String> = match &e.message_time {
                Some(t) => Some(t.clone()),
                None => opt_copy(modified),
            };
            return ConversationMessageSummary {
                message_count: n,
                last_message_id,
                last_message_time,
            };
        }
        i -= 1;
    }
    ConversationMessageSummary { message_count: n, last_message_id: None, last_message_time: None }
}

/// Sums up a log by its index. `last_time` is the time of its last message.
pub fn summary_from_index(
    message_count: usize,
    last_message_id: Option<String>,
    last_time: Option<String>,
    modified: Option<String>,
) -> (r: ConversationMessageSummary)
    ensures
        r.message_count == message_count,
        r.last_message_id == last_message_id,
        r.last_message_time == (match last_time {
            Some(t) => Some(t),
            None => modified,
        }),
{
    ConversationMessageSummary {
        message_count,
        last_message_id,
        last_message_time: match last_time {
            Some(t) => Some(t),
            None => modified,
        },
    }
}

/// How one message stands to another in a log.
#[derive(Clone, Copy, Debug, PartialEq, Eq, Structural)]
pub enum MessageOrder {
    Before,
    Same,
    After,
}

pub open spec fn number_order(a: nat, b: nat) -> MessageOrder {
    if a < b {
        MessageOrder::Before
    } else if a == b {
        MessageOrder::Same
    } else {
        MessageOrder::After
    }
}

/// The number in the id of a message.
pub open spec fn order_of_id(id: Seq<char>) -> Option<nat> {
    match without_prefix(id, "msg_"@) {
        None => None,
        Some(rest) => match split_once_seq(rest, '_') {
            None => None,
            Some((index, _)) => parse_seq(index, u64::MAX as nat),
        },
    }
}

pub fn parse_message_order(message_id: &str) -> (r: Option<u64>)
    ensures
        match (r, order_of_id(message_id@)) {
            (Some(a), Some(b)) => a == b,
            (None, None) => true,
            _ => false,
        },
{
    let rest: &str = match strip_prefix(message_id, "msg_") {
        Some(r) => r,
        None => {
            return None;
        },
    };
    match split_once(rest, '_') {
        Some((index, _)) => parse_decimal(index, u64::MAX),
        None => None,
    }
}

/// How two messages stand to each other: by their places in the log, else by the numbers
/// in their ids.
pub open spec fn order_of(
    left: Seq<char>,
    right: Seq<char>,
    left_index: Option<usize>,
    right_index: Option<usize>,
) -> Option<MessageOrder> {
    if left == right {
        Some(MessageOrder::Same)
    } else {
        match (left_index, right_index) {
            (Some(a), Some(b)) => Some(number_order(a as nat, b as nat)),
            _ => match (order_of_id(left), order_of_id(right)) {
                (Some(a), Some(b)) => Some(number_order(a, b)),
                _ => None,
            },
        }
    }
}

fn order_numbers(a: u64, b: u64) -> (r: MessageOrder)
    ensures
        r == number_order(a as nat, b as nat),
{
    if a < b {
        MessageOrder::Before
    } else if a == b {
        MessageOrder::Same
    } else {
        MessageOrder::After
    }
}

pub fn compare_message_ids(
    left: &str,
    right: &str,
    left_index: Option<usize>,
    right_index: Option<usize>,
) -> (r: Option<MessageOrder>)
    ensures
        r == order_of(left@, right@, left_index, right_index),
{
    if text_eq(left, right) {
        return Some(MessageOrder::Same);
    }
    if let (Some(a), Some(b)) = (left_index, right_index) {
        return Some(order_numbers(a as u64, b as u64));
    }
    match (parse_message_order(left), parse_message_order(right)) {
        (Some(a), Some(b)) => Some(order_numbers(a, b)),
        _ => None,
    }
}

/// Turned round, an order says the opposite.
pub proof fn order_turns_round(
    left: Seq<char>,
    right: Seq<char>,
    left_index: Option<usize>,
    right_index: Option<usize>,
)
    ensures
        order_of(right, left, right_index, left_index) == match order_of(
            left,
            right,
            left_index,
            right_index,
        ) {
            Some(MessageOrder::Before) => Some(MessageOrder::After),
            Some(MessageOrder::After) => Some(MessageOrder::Before),
            other => other,
        },
{
}

/// Whether the last message that was seen moves on to another: it never moves back.
pub fn seen_moves_on(order: Option<MessageOrder>) -> (b: bool)
    ensures
        b == (order is None || order == Some(MessageOrder::Before)),
{
    match order {
        None => true,
        Some(MessageOrder::Before) => true,
        _ => false,
    }
}

/// Whether the last message is still to be seen, by how it stands to the one that was
/// seen last.
pub fn is_unread(order: Option<MessageOrder>) -> (b: bool)
    ensures
        b == (order is None || order == Some(MessageOrder::After)),
{
    match order {
        None => true,
        Some(MessageOrder::After) => true,
        _ => false,
    }
}

// ---------------------------------------------------------------------------
// Messages as values
// ---------------------------------------------------------------------------
/// A message with its place in the log, and with its id where it has one.
pub open spec fn decorated(value: JsonView, message_id: Seq<char>, index: nat) -> JsonView {
    let a = value.with("index"@, JsonView::number(index));
    if message_id.len() == 0 {
        a
    } else {
        a.with("id"@, JsonView::Text(message_id))
    }
}

pub fn decorate_message(value: Json, message_id: &str, index: usize) -> (r: Json)
    ensures
        r@ == decorated(value@, message_id@, index as nat),
{
    let mut value: Json = value;
    value.put("index", Json::count(index));
    if !message_id.is_empty() {
        value.put("id", Json::text(message_id));
    }
    value
}

/// The messages of a session in short.
#[derive(Debug)]
pub struct MessageSummary {
    pub message_count: usize,
    pub last_message_id: Option<String>,
    pub last_message_index: Option<usize>,
    pub last_message_time: Option<String>,
}

pub open spec fn index_of_value(v: JsonView) -> Option<usize> {
    match v.unsigned_field("index"@) {
        Some(n) => if n <= usize::MAX {
            Some(n as usize)
        } else {
            None
        },
        None => None,
    }
}

fn id_of_value(message: &Json) -> (r: Option<&str>)
    ensures
        crate::text::opt_str_view(r) == id_of_message(message@),
{
    match message.get("message_id") {
        Some(v) => v.as_text(),
        None => message.text_field("id"),
    }
}

/// Sums up the messages of a session.
pub fn message_summary(messages: &Vec<Json>) -> (r: MessageSummary)
    ensures
        r.message_count == messages@.len(),
        ({
            let v = array_view(messages@);
            if v.len() == 0 {
                r.last_message_id is None && r.last_message_index is None && r.last_message_time
                    is None
            } else {
                opt_view(r.last_message_id) == id_of_message(v.last()) && r.last_message_index
                    == index_of_value(v.last()) && opt_view(r.last_message_time)
                    == v.last().text_field("message_time"@)
            }
        }),
{
    let n: usize = messages.len();
    assert(array_view(messages@).len() == n);
    if n == 0 {
        return MessageSummary {
            message_count: 0,
            last_message_id: None,
            last_message_index: None,
            last_message_time: None,
        };
    }
    let last: &Json = &messages[n - 1];
    assert(array_view(messages@).last() == last@);
    let last_message_index: Option<usize> = match last.unsigned_field("index") {
        Some(k) => if k <= usize::MAX as u64 {
            Some(k as usize)
        } else {
            None
        },
        None => None,
    };
    let last_message_id: Option<String> = match id_of_value(last) {
        Some(t) => Some(t.to_owned()),
        None => None,
    };
    let last_message_time: Option<String> = match last.text_field("message_time") {
        Some(t) => Some(t.to_owned()),
        None => None,
    };
    MessageSummary { message_count: n, last_message_id, last_message_index, last_message_time }
}

/// Whether a message is the one that is asked for: by its id, or by its place.
pub open spec fn is_asked_for(message: JsonView, asked: Seq<char>) -> bool {
    id_of_message(message) == Some(asked) || (message.unsigned_field("index"@) matches Some(n)
        && decimal(n as nat) == asked)
}

/// The index of the first message that is asked for; the length when there is none.
pub open spec fn asked_index(messages: Seq<JsonView>, asked: Seq<char>, i: int) -> int
    decreases messages.len() - i,
{
    if i < 0 || i >= messages.len() {
        messages.len() as int
    } else if is_asked_for(messages[i], asked) {
        i
    } else {
        asked_index(messages, asked, i + 1)
    }
}

/// Finds the message that is asked for.
pub fn find_message<'a>(messages: &'a Vec<Json>, message_id: &str) -> (r: Option<&'a Json>)
    ensures
        ({
            let v = array_view(messages@);
            let i = asked_index(v, message_id@, 0);
            match r {
                Some(m) => 0 <= i < v.len() && m@ == v[i],
                None => i == v.len(),
            }
        }),
{
    let mut i: usize = 0;
    while i < messages.len()
        invariant
            i <= messages@.len(),
            asked_index(array_view(messages@), message_id@, 0) == asked_index(
                array_view(messages@),
                message_id@,
                i as int,
            ),
        decreases messages@.len() - i,
    {
        let by_id: bool = match id_of_value(&messages[i]) {
            Some(t) => text_eq(t, message_id),
            None => false,
        };
        let by_index: bool = match messages[i].unsigned_field("index") {
            Some(n) => {
                let text: String = decimal_text(n);
                text_eq(text.as_str(), message_id)
            },
            None => false,
        };
        if by_id || by_index {
            return Some(&messages[i]);
        }
        i += 1;
    }
    None
}

// ---------------------------------------------------------------------------
// Messages as they are listed
// ---------------------------------------------------------------------------
/// The tokens that a message took, and their sum.
#[derive(Debug)]
pub struct WebTokenUsage {
    pub cache_read: u64,
    pub cache_write: u64,
    pub uncache_input: u64,
    pub input: u64,
    pub output: u64,
    pub total: u64,
    pub cost_usd: Option<Json>,
}

/// A sum that stays at the greatest number.
pub open spec fn capped_sum(n: nat) -> u64 {
    if n <= u64::MAX {
        n as u64
    } else {
        u64::MAX
    }
}

impl WebTokenUsage {
    pub open spec fn is_for(self, usage: TokenUsage) -> bool {
        &&& self.cache_read == usage.cache_read
        &&& self.cache_write == usage.cache_write
        &&& self.uncache_input == usage.uncache_input
        &&& self.input == usage.uncache_input
        &&& self.output == usage.output
        &&& self.total == capped_sum(
            usage.cache_read as nat + usage.cache_write as nat + usage.uncache_input as nat
                + usage.output as nat,
        )
        &&& opt_json(self.cost_usd) == opt_json(usage.cost_usd)
    }

    pub fn from_usage(usage: &TokenUsage) -> (r: Self)
        ensures
            r.is_for(*usage),
    {
        let total: u64 = usage.cache_read.saturating_add(usage.cache_write).saturating_add(
            usage.uncache_input,
        ).saturating_add(usage.output);
        WebTokenUsage {
            cache_read: usage.cache_read,
            cache_write: usage.cache_write,
            uncache_input: usage.uncache_input,
            input: usage.uncache_input,
            output: usage.output,
            total,
            cost_usd: copy_opt_json(&usage.cost_usd),
        }
    }
}

/// A message in a list.
#[derive(Debug)]
pub struct MessageSkeleton {
    pub id: String,
    pub index: usize,
    pub role: ChatRole,
    pub text: String,
    pub text_with_attachment_markers: String,
    pub preview: String,
    pub data: Vec<ChatMessageItem>,
    pub items: Vec<WebMessageItem>,
    pub attachments: Vec<WebMessageAttachment>,
    pub attachment_count: usize,
    pub has_attachment_errors: bool,
    pub user_name: Option<String>,
    pub message_time: Option<String>,
    pub has_token_usage: bool,
    pub token_usage: Option<WebTokenUsage>,
}

/// The text of a message without the white space around it.
pub fn preview_text(text: &str) -> (r: String)
    ensures
        r@ == trimmed(text@),
{
    trim(text).to_owned()
}

pub open spec fn is_skeleton_of(
    s: MessageSkeleton,
    index: usize,
    message: ChatMessage,
    conversation_id: Seq<char>,
    facts: MessageFacts,
) -> bool {
    let v = rendered_message(message, conversation_id, facts);
    &&& s.id@ == message.message_id@
    &&& s.index == index
    &&& s.role == message.role
    &&& s.text@ == crate::words::join_seq(v.parts, "\n\n"@)
    &&& s.text_with_attachment_markers@ == crate::words::join_seq(v.marked, "\n\n"@)
    &&& s.preview@ == trimmed(s.text@)
    &&& item_views(s.data@) == item_views(message.data@).map_values(
        |x: ItemView| readable_item(x),
    )
    &&& crate::web::messages::web_item_views(s.items@) == v.items
    &&& crate::web::messages::attachment_views(s.attachments@) == v.attachments
    &&& s.attachment_count == v.attachments.len()
    &&& s.has_attachment_errors == (v.errors.len() > 0)
    &&& opt_view(s.user_name) == opt_view(message.user_name)
    &&& opt_view(s.message_time) == opt_view(message.message_time)
    &&& s.has_token_usage == (message.token_usage is Some)
    &&& match message.token_usage {
        Some(u) => s.token_usage matches Some(w) && w.is_for(u),
        None => s.token_usage is None,
    }
}

pub fn message_skeleton(
    index: usize,
    message: &ChatMessage,
    conversation_id: &str,
    facts: &MessageFacts,
) -> (r: MessageSkeleton)
    requires
        facts.wf(),
        message_is_readable(*message),
    ensures
        is_skeleton_of(r, index, *message, conversation_id@, *facts),
{
    let shown: WebRenderedMessage = render_web_message(message, conversation_id, facts);
    let preview: String = preview_text(shown.text.as_str());
    let attachment_count: usize = shown.attachments.len();
    let has_attachment_errors: bool = shown.attachment_errors.len() > 0;
    let token_usage: Option<WebTokenUsage> = match &message.token_usage {
        Some(u) => Some(WebTokenUsage::from_usage(u)),
        None => None,
    };
    MessageSkeleton {
        id: message.message_id.clone(),
        index,
        role: message.role,
        text: shown.text,
        text_with_attachment_markers: shown.text_with_attachment_markers,
        preview,
        data: web_chat_message_data(message),
        items: shown.items,
        attachments: shown.attachments,
        attachment_count,
        has_attachment_errors,
        user_name: opt_copy(&message.user_name),
        message_time: opt_copy(&message.message_time),
        has_token_usage: message.token_usage.is_some(),
        token_usage,
    }
}

/// The messages of a list, from the one with the number `start` on.
pub fn message_skeletons(
    start: usize,
    messages: &[ChatMessage],
    conversation_id: &str,
    facts: &Vec<MessageFacts>,
) -> (r: Vec<MessageSkeleton>)
    requires
        start + messages@.len() <= usize::MAX,
        facts@.len() == messages@.len(),
        forall|i: int|
            0 <= i < messages@.len() ==> message_is_readable(#[trigger] messages@[i])
                && facts@[i].wf(),
    ensures
        r@.len() == messages@.len(),
        forall|i: int|
            0 <= i < r@.len() ==> is_skeleton_of(
                #[trigger] r@[i],
                (start + i) as usize,
                messages@[i],
                conversation_id@,
                facts@[i],
            ),
{
    let mut r: Vec<MessageSkeleton> = Vec::new();
    let mut i: usize = 0;
    while i < messages.len()
        invariant
            i <= messages@.len(),
            start + messages@.len() <= usize::MAX,
            facts@.len() == messages@.len(),
            forall|k: int|
                0 <= k < messages@.len() ==> message_is_readable(#[trigger] messages@[k])
                    && facts@[k].wf(),
            r@.len() == i,
            forall|k: int|
                0 <= k < r@.len() ==> is_skeleton_of(
                    #[trigger] r@[k],
                    (start + k) as usize,
                    messages@[k],
                    conversation_id@,
                    facts@[k],
                ),
        decreases messages@.len() - i,
    {
        r.push(message_skeleton(start + i, &messages[i], conversation_id, &facts[i]));
        i += 1;
    }
    r
}

} // verus!

//! Keeping the state of a session as its events come in.

use vstd::prelude::*;
use crate::json::{array_view, group_json, Json, JsonView};
use crate::json_ops::{copy_array, opt_json};
use crate::text::{
    cat2, chars_of, ends_with, opt_str_view, opt_view, starts_with, string_range, text_eq, trim,
};
use crate::web::ids::{public_chat_stream_type, public_type};
use crate::web::live_model::{
    blank_message, changed_message, committed_tool, committed_tools, extended_text, first_of,
    holds_result_of, item_index, item_is, items_of, items_with_call, items_with_reasoning,
    items_with_text, marked_message, or_empty, overlap, provisional_for, readable_id, shorter,
    tool_call_of, tool_index, waits, with_reasoning, without_first_of, without_id, ItemKey,
    LiveView, MessageChange,
};

verus! {

broadcast use group_json;

/// What is going on in a session.
#[derive(Debug)]
pub struct ChatLiveState {
    pub current_turn_state: Option<Json>,
    pub current_provisional_assistant_message: Option<Json>,
    pub running_tool_results: Vec<Json>,
    pub queued_outbound_messages: Vec<Json>,
    pub last_committed_message_id: Option<String>,
    pub last_committed_message_index: Option<usize>,
    pub last_error: Option<String>,
}

/// A part of the message that is being written.
enum Part<'a> {
    Text(&'a str),
    Call(&'a str, &'a str, &'a str),
    Reasoning(i64, &'a str),
}

impl<'a> Part<'a> {
    spec fn view(self) -> MessageChange {
        match self {
            Part::Text(delta) => MessageChange::Text(delta@),
            Part::Call(call, item, delta) => MessageChange::Call(call@, item@, delta@),
            Part::Reasoning(index, delta) => MessageChange::Reasoning(index, delta@),
        }
    }
}

/// Which item of a message is looked for.
enum Wanted<'a> {
    Text,
    ToolCall(&'a str),
    Reasoning(i64),
}

impl<'a> Wanted<'a> {
    spec fn view(self) -> ItemKey {
        match self {
            Wanted::Text => ItemKey::Text,
            Wanted::ToolCall(id) => ItemKey::ToolCall(id@),
            Wanted::Reasoning(index) => ItemKey::Reasoning(index),
        }
    }
}

// ---------------------------------------------------------------------------
// Texts
// ---------------------------------------------------------------------------
fn text_or_empty<'a>(value: &'a Json, key: &str) -> (r: &'a str)
    ensures
        r@ == or_empty(value@.text_field(key@)),
{
    match value.text_field(key) {
        Some(t) => t,
        None => {
            proof {
                reveal_strlit("");
                assert(""@ =~= Seq::<char>::empty());
            }
            ""
        },
    }
}

/// The text under one key; where the key is missing, the text under another.
fn text_of_either<'a>(value: &'a Json, key: &str, other: &str) -> (r: Option<&'a str>)
    ensures
        opt_str_view(r) == match value@.field(key@) {
            Some(v) => v.as_text(),
            None => value@.text_field(other@),
        },
{
    match value.get(key) {
        Some(v) => v.as_text(),
        None => value.text_field(other),
    }
}

/// Whether the last `k` characters of one text are the first `k` of another.
fn meets(a: &Vec<char>, b: &Vec<char>, k: usize) -> (r: bool)
    requires
        k <= a@.len(),
        k <= b@.len(),
    ensures
        r == (a@.skip(a@.len() - k) == b@.take(k as int)),
{
    let start: usize = a.len() - k;
    let ghost end = a@.skip(a@.len() - k);
    let ghost front = b@.take(k as int);
    let mut i: usize = 0;
    while i < k
        invariant
            i <= k,
            k <= b@.len(),
            start + k == a@.len(),
            end == a@.skip(start as int),
            front == b@.take(k as int),
            a@.len() <= usize::MAX,
            forall|j: int| 0 <= j < i ==> end[j] == front[j],
        decreases k - i,
    {
        if a[start + i] != b[i] {
            assert(end[i as int] != front[i as int]);
            return false;
        }
        i += 1;
    }
    assert(end =~= front);
    true
}

/// Adds a part to a text. What the text ends in already is not added again.
pub fn append_text_delta(existing_text: &str, delta: &str) -> (r: String)
    ensures
        r@ == extended_text(existing_text@, delta@),
{
    if existing_text.is_empty() {
        return delta.to_owned();
    }
    if delta.is_empty() || ends_with(existing_text, delta) {
        return existing_text.to_owned();
    }
    if starts_with(delta, existing_text) {
        return delta.to_owned();
    }
    let a: Vec<char> = chars_of(existing_text);
    let b: Vec<char> = chars_of(delta);
    let mut k: usize = if a.len() < b.len() {
        a.len()
    } else {
        b.len()
    };
    let ghost whole = overlap(a@, b@, shorter(a@, b@));
    while k > 0 && !meets(&a, &b, k)
        invariant
            k <= a@.len(),
            k <= b@.len(),
            overlap(a@, b@, k as int) == whole,
        decreases k,
    {
        k -= 1;
    }
    let rest: String = string_range(b.as_slice(), k, b.len());
    assert(rest@ =~= delta@.skip(whole));
    cat2(existing_text, rest.as_str())
}

/// An id that can be shown as a name.
pub fn item_id_if_readable(item_id: &str) -> (r: Option<&str>)
    ensures
        opt_str_view(r) == readable_id(item_id@),
{
    let t: &str = trim(item_id);
    if t.is_empty() || starts_with(t, "item_") || starts_with(t, "fc_") || starts_with(
        t,
        "call_",
    ) {
        None
    } else {
        Some(t)
    }
}

// ---------------------------------------------------------------------------
// Items
// ---------------------------------------------------------------------------
/// The items of a message.
fn items_in(message: &Json) -> (r: Vec<Json>)
    ensures
        array_view(r@) == items_of(message@),
{
    match message.get("items") {
        Some(Json::Array(items)) => copy_array(items),
        _ => Vec::new(),
    }
}

fn is_wanted(item: &Json, wanted: &Wanted) -> (b: bool)
    ensures
        b == item_is(item@, wanted@),
{
    match wanted {
        Wanted::Text => item.field_is("type", "text"),
        Wanted::ToolCall(id) => item.field_is("type", "tool_call") && item.field_is(
            "tool_call_id",
            id,
        ),
        Wanted::Reasoning(index) => item.field_is("type", "reasoning") && match item.signed_field(
            "_summaryIndex",
        ) {
            Some(i) => i == *index,
            None => false,
        },
    }
}

fn find_item(items: &Vec<Json>, wanted: &Wanted) -> (r: usize)
    ensures
        r == item_index(array_view(items@), wanted@, 0),
        r <= items@.len(),
{
    let mut i: usize = 0;
    while i < items.len()
        invariant
            i <= items@.len(),
            item_index(array_view(items@), wanted@, 0) == item_index(
                array_view(items@),
                wanted@,
                i as int,
            ),
        decreases items@.len() - i,
    {
        if is_wanted(&items[i], wanted) {
            return i;
        }
        i += 1;
    }
    i
}

/// Puts an item in the place of another.
fn replace_item(items: &mut Vec<Json>, i: usize, item: Json)
    requires
        i < old(items)@.len(),
    ensures
        array_view(final(items)@) == array_view(old(items)@).update(i as int, item@),
{
    let ghost before = items@;
    items.set(i, item);
    assert(array_view(items@) =~= array_view(before).update(i as int, item@));
}

/// The item at an index, to be changed.
fn item_at(items: &Vec<Json>, i: usize) -> (r: Json)
    requires
        i < items@.len(),
    ensures
        r@ == array_view(items@)[i as int],
{
    items[i].copy()
}

fn set_text(items: &mut Vec<Json>, text: &str)
    ensures
        array_view(final(items)@) == items_with_text(array_view(old(items)@), text@),
{
    let i: usize = find_item(items, &Wanted::Text);
    if i < items.len() {
        let mut item: Json = item_at(items, i);
        item.put("text", Json::text(text));
        item.put("text_with_attachment_markers", Json::text(text));
        replace_item(items, i, item);
    } else {
        let mut item: Json = Json::object();
        item.put("type", Json::text("text"));
        item.put("index", Json::count(items.len()));
        item.put("text", Json::text(text));
        item.put("text_with_attachment_markers", Json::text(text));
        items.push(item);
    }
}

fn add_to_call(items: &mut Vec<Json>, call_id: &str, item_id: &str, delta: &str)
    ensures
        array_view(final(items)@) == items_with_call(
            array_view(old(items)@),
            call_id@,
            item_id@,
            delta@,
        ),
{
    let i: usize = find_item(items, &Wanted::ToolCall(call_id));
    if i < items.len() {
        let mut item: Json = item_at(items, i);
        let arguments: String = append_text_delta(text_or_empty(&item, "arguments"), delta);
        item.put("arguments", Json::Text(arguments));
        replace_item(items, i, item);
    } else {
        let mut item: Json = Json::object();
        item.put("type", Json::text("tool_call"));
        item.put("index", Json::count(items.len()));
        item.put("tool_call_id", Json::text(call_id));
        let name: &str = match item_id_if_readable(item_id) {
            Some(name) => name,
            None => "tool",
        };
        item.put("tool_name", Json::text(name));
        item.put("arguments", Json::text(delta));
        items.push(item);
    }
}

fn add_reasoning(item: &mut Json, delta: &str)
    ensures
        final(item)@ == with_reasoning(old(item)@, delta@),
{
    let existing: &str = match text_of_either(item, "text", "summary") {
        Some(t) => t,
        None => {
            proof {
                reveal_strlit("");
                assert(""@ =~= Seq::<char>::empty());
            }
            ""
        },
    };
    let text: String = append_text_delta(existing, delta);
    item.put("text", Json::text(text.as_str()));
    item.put("summary", Json::text(text.as_str()));
}

fn add_to_reasoning(items: &mut Vec<Json>, summary_index: i64, delta: &str)
    ensures
        array_view(final(items)@) == items_with_reasoning(
            array_view(old(items)@),
            summary_index,
            delta@,
        ),
{
    let i: usize = find_item(items, &Wanted::Reasoning(summary_index));
    if i < items.len() {
        let mut item: Json = item_at(items, i);
        add_reasoning(&mut item, delta);
        replace_item(items, i, item);
    } else {
        let mut item: Json = Json::object();
        item.put("type", Json::text("reasoning"));
        item.put("index", Json::count(items.len()));
        item.put("text", Json::text(""));
        item.put("summary", Json::text(""));
        item.put("_summaryIndex", Json::signed(summary_index));
        add_reasoning(&mut item, delta);
        items.push(item);
    }
}

// ---------------------------------------------------------------------------
// The message that is being written
// ---------------------------------------------------------------------------
fn new_message(message_id: &str, turn_id: &str, index: Option<u64>, now: &str) -> (r: Json)
    ensures
        r@ == blank_message(message_id@, turn_id@, index, now@),
{
    let mut m: Json = Json::object();
    m.put("id", Json::text(message_id));
    m.put("message_id", Json::text(message_id));
    m.put("index", Json::opt_number(index));
    m.put("role", Json::text("assistant"));
    m.put("text", Json::text(""));
    m.put("preview", Json::text(""));
    m.put("content", Json::text(""));
    m.put("text_with_attachment_markers", Json::text(""));
    m.put("items", Json::Array(Vec::new()));
    m.put("attachments", Json::Array(Vec::new()));
    m.put("attachment_count", Json::count(0));
    m.put("message_time", Json::text(now));
    m.put("_streamTurnId", Json::text(turn_id));
    m.put("_streaming", Json::Bool(true));
    m
}

fn mark_message(m: &mut Json, message_id: &str, turn_id: &str, index: Option<u64>)
    ensures
        final(m)@ == marked_message(old(m)@, message_id@, turn_id@, index),
{
    m.put("id", Json::text(message_id));
    m.put("message_id", Json::text(message_id));
    m.put("role", Json::text("assistant"));
    m.put("_streamTurnId", Json::text(turn_id));
    m.put("_streaming", Json::Bool(true));
    if index.is_some() {
        m.put("index", Json::opt_number(index));
    }
    let listed: bool = match m.get("items") {
        Some(Json::Array(_)) => true,
        _ => false,
    };
    if !listed {
        m.put("items", Json::Array(Vec::new()));
    }
}

fn change_message(m: &mut Json, part: &Part)
    ensures
        final(m)@ == changed_message(old(m)@, part@),
{
    let mut items: Vec<Json> = items_in(m);
    match part {
        Part::Text(delta) => {
            let existing: &str = match text_of_either(m, "text", "preview") {
                Some(t) => t,
                None => {
                    proof {
                        reveal_strlit("");
                        assert(""@ =~= Seq::<char>::empty());
                    }
                    ""
                },
            };
            let text: String = append_text_delta(existing, delta);
            m.put("text", Json::text(text.as_str()));
            m.put("preview", Json::text(text.as_str()));
            m.put("content", Json::text(text.as_str()));
            m.put("text_with_attachment_markers", Json::text(text.as_str()));
            set_text(&mut items, text.as_str());
        },
        Part::Call(call_id, item_id, delta) => {
            add_to_call(&mut items, call_id, item_id, delta);
        },
        Part::Reasoning(index, delta) => {
            add_to_reasoning(&mut items, *index, delta);
        },
    }
    m.put("items", Json::Array(items));
}

/// Whether the log entry holds the result of a call.
fn has_result_of(items: &Vec<Json>, id: &str) -> (b: bool)
    ensures
        b == exists|i: int|
            0 <= i < array_view(items@).len() && (#[trigger] array_view(items@)[i]).text_field(
                "type"@,
            ) == Some("tool_result"@) && array_view(items@)[i].text_field("tool_call_id"@) == Some(
                id@,
            ),
{
    let mut i: usize = 0;
    while i < items.len()
        invariant
            i <= items@.len(),
            forall|j: int|
                0 <= j < i ==> !((#[trigger] array_view(items@)[j]).text_field("type"@) == Some(
                    "tool_result"@,
                ) && array_view(items@)[j].text_field("tool_call_id"@) == Some(id@)),
        decreases items@.len() - i,
    {
        if items[i].field_is("type", "tool_result") && items[i].field_is("tool_call_id", id) {
            assert(array_view(items@)[i as int].text_field("type"@) == Some("tool_result"@));
            return true;
        }
        i += 1;
    }
    false
}

fn holds_result(message: &Json, id: &str) -> (b: bool)
    ensures
        b == holds_result_of(message@, id@),
{
    let list: Option<&Json> = match message.get("items") {
        Some(v) => Some(v),
        None => message.get("data"),
    };
    match list {
        Some(Json::Array(items)) => has_result_of(items, id),
        _ => false,
    }
}

fn call_of_tool(tool: &Json) -> (r: Option<&str>)
    ensures
        opt_str_view(r) == tool_call_of(tool@),
{
    match tool.get("tool_result") {
        Some(result) => result.text_field("tool_call_id"),
        None => None,
    }
}

fn find_tool(tools: &Vec<Json>, id: &str) -> (r: usize)
    ensures
        r == tool_index(array_view(tools@), id@, 0),
        r <= tools@.len(),
{
    let mut i: usize = 0;
    while i < tools.len()
        invariant
            i <= tools@.len(),
            tool_index(array_view(tools@), id@, 0) == tool_index(
                array_view(tools@),
                id@,
                i as int,
            ),
        decreases tools@.len() - i,
    {
        let own: bool = match call_of_tool(&tools[i]) {
            Some(t) => text_eq(t, id),
            None => false,
        };
        if own {
            return i;
        }
        i += 1;
    }
    i
}

/// Marks the tools whose results the message holds.
fn commit_tools(tools: &mut Vec<Json>, message: &Json)
    ensures
        array_view(final(tools)@) == committed_tools(array_view(old(tools)@), message@),
{
    let ghost before = array_view(tools@);
    let n: usize = tools.len();
    let mut i: usize = 0;
    while i < n
        invariant
            i <= n,
            n == tools@.len(),
            n == before.len(),
            forall|j: int|
                0 <= j < i ==> (#[trigger] array_view(tools@)[j]) == committed_tool(
                    before[j],
                    message@,
                ),
            forall|j: int| i <= j < n ==> (#[trigger] array_view(tools@)[j]) == before[j],
        decreases n - i,
    {
        let held: bool = match call_of_tool(&tools[i]) {
            Some(id) => holds_result(message, id),
            None => false,
        };
        assert(array_view(tools@)[i as int] == before[i as int]);
        if held {
            let mut tool: Json = item_at(tools, i);
            tool.put("committed", Json::Bool(true));
            replace_item(tools, i, tool);
        }
        i += 1;
    }
    assert(array_view(tools@) =~= committed_tools(before, message@));
}

/// The waiting messages but those of an id.
fn drop_id(queued: &Vec<Json>, id: &str) -> (r: Vec<Json>)
    ensures
        array_view(r@) == without_id(array_view(queued@), id@, queued@.len() as int),
{
    let mut r: Vec<Json> = Vec::new();
    let mut i: usize = 0;
    while i < queued.len()
        invariant
            i <= queued@.len(),
            array_view(r@) == without_id(array_view(queued@), id@, i as int),
        decreases queued@.len() - i,
    {
        if !queued[i].field_is("client_message_id", id) {
            r.push(queued[i].copy());
        }
        i += 1;
    }
    r
}

/// Takes the first waiting message of a conversation out.
fn drop_first_of(queued: &mut Vec<Json>, conversation_id: &str)
    ensures
        array_view(final(queued)@) == without_first_of(
            array_view(old(queued)@),
            conversation_id@,
        ),
{
    let ghost before = queued@;
    let mut i: usize = 0;
    while i < queued.len() && !queued[i].field_is("conversation_id", conversation_id)
        invariant
            queued@ == before,
            i <= queued@.len(),
            first_of(array_view(before), conversation_id@, 0) == first_of(
                array_view(before),
                conversation_id@,
                i as int,
            ),
        decreases queued@.len() - i,
    {
        i += 1;
    }
    if i < queued.len() {
        let _ = queued.remove(i);
        assert(array_view(queued@) =~= array_view(before).remove(i as int));
    }
}

fn is_waiting(queued: &Vec<Json>, id: &str) -> (b: bool)
    ensures
        b == waits(array_view(queued@), id@),
{
    let mut i: usize = 0;
    while i < queued.len()
        invariant
            i <= queued@.len(),
            forall|j: int|
                0 <= j < i ==> (#[trigger] array_view(queued@)[j]).text_field(
                    "client_message_id"@,
                ) != Some(id@),
        decreases queued@.len() - i,
    {
        if queued[i].field_is("client_message_id", id) {
            assert(array_view(queued@)[i as int].text_field("client_message_id"@) == Some(id@));
            return true;
        }
        i += 1;
    }
    false
}

fn copy_opt(v: &Option<Json>) -> (r: Option<Json>)
    ensures
        opt_json(r) == opt_json(*v),
{
    match v {
        Some(j) => Some(j.copy()),
        None => None,
    }
}

impl ChatLiveState {
    pub open spec fn view(self) -> LiveView {
        LiveView {
            turn: opt_json(self.current_turn_state),
            provisional: opt_json(self.current_provisional_assistant_message),
            tools: array_view(self.running_tool_results@),
            queued: array_view(self.queued_outbound_messages@),
            last_committed_id: opt_view(self.last_committed_message_id),
            last_committed_index: self.last_committed_message_index,
            last_error: opt_view(self.last_error),
        }
    }

    pub fn new() -> (r: Self)
        ensures
            r@ == LiveView::empty(),
    {
        ChatLiveState {
            current_turn_state: None,
            current_provisional_assistant_message: None,
            running_tool_results: Vec::new(),
            queued_outbound_messages: Vec::new(),
            last_committed_message_id: None,
            last_committed_message_index: None,
            last_error: None,
        }
    }

    pub fn copy(&self) -> (r: Self)
        ensures
            r@ == self@,
    {
        ChatLiveState {
            current_turn_state: copy_opt(&self.current_turn_state),
            current_provisional_assistant_message: copy_opt(
                &self.current_provisional_assistant_message,
            ),
            running_tool_results: copy_array(&self.running_tool_results),
            queued_outbound_messages: copy_array(&self.queued_outbound_messages),
            last_committed_message_id: crate::text::opt_copy(&self.last_committed_message_id),
            last_committed_message_index: self.last_committed_message_index,
            last_error: crate::text::opt_copy(&self.last_error),
        }
    }

    /// The state of the session in a word.
    pub fn summary_state(&self) -> (r: &'static str)
        ensures
            r@ == self@.summary(),
    {
        if self.current_turn_state.is_some() {
            "running"
        } else if self.queued_outbound_messages.len() > 0 {
            "queued"
        } else if self.last_error.is_some() {
            "failed"
        } else {
            "idle"
        }
    }

    pub fn active_turn_id(&self) -> (r: Option<&str>)
        ensures
            opt_str_view(r) == self@.turn_id(),
    {
        match &self.current_turn_state {
            Some(turn) => turn.text_field("turn_id"),
            None => None,
        }
    }

    fn set_turn_from_event(&mut self, event: &Json)
        ensures
            final(self)@ == old(self)@.with_turn(event@),
    {
        if let Some(turn_id) = event.text_field("turn_id") {
            let mut turn: Json = Json::object();
            turn.put("turn_id", Json::text(turn_id));
            turn.put("message_id", Json::opt_text(event.text_field("message_id")));
            self.current_turn_state = Some(turn);
        }
    }

    /// The message that is being written, marked with its ids.
    fn ensure_provisional_message(
        &mut self,
        message_id: &str,
        turn_id: &str,
        index: Option<u64>,
        now: &str,
    ) -> (r: Json)
        ensures
            r@ == provisional_for(old(self)@.provisional, message_id@, turn_id@, index, now@),
            final(self)@ == (LiveView { provisional: None, ..old(self)@ }),
    {
        let held: Option<Json> = self.current_provisional_assistant_message.take();
        let mut base: Json = match held {
            Some(p) if p.field_is("message_id", message_id) => p,
            _ => {
                let mut p: Json = Json::object();
                p.put("turn_id", Json::text(turn_id));
                p.put("message_id", Json::text(message_id));
                p.put("message", new_message(message_id, turn_id, index, now));
                p
            },
        };
        base.put("turn_id", Json::text(turn_id));
        base.put("message_id", Json::text(message_id));
        base
    }

    fn apply_part(&mut self, event: &Json, message_id: &str, part: &Part, now: &str)
        ensures
            final(self)@ == old(self)@.with_change(event@, message_id@, part@, now@),
    {
        let turn_id: &str = text_or_empty(event, "turn_id");
        let index: Option<u64> = event.unsigned_field("message_index");
        let mut p: Json = self.ensure_provisional_message(message_id, turn_id, index, now);
        let message: Option<Json> = match p.get("message") {
            Some(m) => match m {
                Json::Object(_) => Some(m.copy()),
                _ => None,
            },
            None => None,
        };
        if let Some(mut m) = message {
            mark_message(&mut m, message_id, turn_id, index);
            change_message(&mut m, part);
            p.put("message", m);
        }
        self.current_provisional_assistant_message = Some(p);
    }

    fn apply_assistant_delta(&mut self, event: &Json, now: &str)
        ensures
            final(self)@ == old(self)@.assistant_delta(event@, now@),
    {
        self.set_turn_from_event(event);
        if let Some(message_id) = event.text_field("message_id") {
            let delta: &str = text_or_empty(event, "delta");
            if !delta.is_empty() {
                self.apply_part(event, message_id, &Part::Text(delta), now);
            }
        }
    }

    fn apply_tool_call_delta(&mut self, event: &Json, now: &str)
        ensures
            final(self)@ == old(self)@.tool_call_delta(event@, now@),
    {
        self.set_turn_from_event(event);
        if let Some(message_id) = event.text_field("message_id") {
            let item_id: &str = text_or_empty(event, "item_id");
            let call_id: &str = match event.text_field("call_id") {
                Some(id) => if id.is_empty() {
                    item_id
                } else {
                    id
                },
                None => item_id,
            };
            if !call_id.is_empty() {
                let delta: &str = text_or_empty(event, "delta");
                self.apply_part(event, message_id, &Part::Call(call_id, item_id, delta), now);
            }
        }
    }

    fn apply_reasoning_summary_part(&mut self, event: &Json)
        ensures
            final(self)@ == old(self)@.with_turn(event@),
    {
        self.set_turn_from_event(event);
    }

    fn apply_reasoning_summary_delta(&mut self, event: &Json, now: &str)
        ensures
            final(self)@ == old(self)@.reasoning_delta(event@, now@),
    {
        self.set_turn_from_event(event);
        if let Some(message_id) = event.text_field("message_id") {
            let index: i64 = match event.signed_field("summary_index") {
                Some(i) => i,
                None => 0,
            };
            let delta: &str = text_or_empty(event, "delta");
            if !delta.is_empty() {
                self.apply_part(event, message_id, &Part::Reasoning(index, delta), now);
            }
        }
    }

    fn apply_tool_result_done(&mut self, event: &Json)
        ensures
            final(self)@ == old(self)@.tool_result(event@),
    {
        if let Some(result) = event.get("tool_result") {
            let mut next: Json = Json::object();
            next.put("turn_id", Json::text(text_or_empty(event, "turn_id")));
            next.put("tool_result", result.copy());
            next.put("committed", Json::Bool(false));
            if let Some(id) = result.text_field("tool_call_id") {
                let i: usize = find_tool(&self.running_tool_results, id);
                if i < self.running_tool_results.len() {
                    replace_item(&mut self.running_tool_results, i, next);
                    return;
                }
            }
            self.running_tool_results.push(next);
        }
    }

    fn start_turn(&mut self, event: &Json)
        ensures
            final(self)@ == old(self)@.turn_started(event@),
    {
        self.last_error = None;
        self.current_turn_state = match event.text_field("turn_id") {
            Some(turn_id) => {
                let mut turn: Json = Json::object();
                turn.put("turn_id", Json::text(turn_id));
                turn.put("message_id", Json::Null);
                Some(turn)
            },
            None => None,
        };
        self.current_provisional_assistant_message = None;
        self.running_tool_results = Vec::new();
    }

    fn fail_turn(&mut self, event: &Json)
        ensures
            final(self)@ == old(self)@.stream_error(event@),
    {
        let message_id: &str = text_or_empty(event, "message_id");
        let gone: bool = message_id.is_empty() || match &self.current_provisional_assistant_message {
            Some(p) => p.field_is("message_id", message_id),
            None => false,
        };
        if gone {
            self.current_provisional_assistant_message = None;
        }
        self.current_turn_state = None;
        self.running_tool_results = Vec::new();
        self.last_error = match event.text_field("error") {
            Some(t) => Some(t.to_owned()),
            None => None,
        };
    }

    fn complete_turn(&mut self)
        ensures
            final(self)@ == old(self)@.turn_completed(),
    {
        self.current_turn_state = None;
        self.current_provisional_assistant_message = None;
        self.running_tool_results = Vec::new();
        self.queued_outbound_messages = Vec::new();
        self.last_error = None;
    }

    /// Notes an event of a stream. `now` is the time of a message that is begun.
    pub fn record_session_stream(&mut self, event: &Json, event_type: &str, now: &str)
        ensures
            final(self)@ == old(self)@.stream_event(event@, event_type@, now@),
    {
        if text_eq(event_type, "turn_started") {
            self.start_turn(event);
        } else if text_eq(event_type, "stream_assistant_message_delta") {
            self.apply_assistant_delta(event, now);
        } else if text_eq(event_type, "stream_tool_call_delta") {
            self.apply_tool_call_delta(event, now);
        } else if text_eq(event_type, "stream_reasoning_summary_part_added") {
            self.apply_reasoning_summary_part(event);
        } else if text_eq(event_type, "stream_reasoning_summary_delta") {
            self.apply_reasoning_summary_delta(event, now);
        } else if text_eq(event_type, "stream_tool_result_done") {
            self.apply_tool_result_done(event);
        } else if text_eq(event_type, "stream_error") {
            self.fail_turn(event);
        } else if text_eq(event_type, "turn_completed") {
            self.complete_turn();
        }
    }

    /// Notes a message of the user that waits to be sent.
    pub fn queue_user_message(
        &mut self,
        client_message_id: &str,
        conversation_id: &str,
        foreground_session_id: &str,
    )
        ensures
            final(self)@ == old(self)@.user_message_queued(
                client_message_id@,
                conversation_id@,
                foreground_session_id@,
            ),
    {
        if !is_waiting(&self.queued_outbound_messages, client_message_id) {
            let mut message: Json = Json::object();
            message.put("client_message_id", Json::text(client_message_id));
            message.put("conversation_id", Json::text(conversation_id));
            message.put("foreground_session_id", Json::text(foreground_session_id));
            self.queued_outbound_messages.push(message);
        }
        self.last_error = None;
    }

    /// Notes a message of the user that waits to be sent; one that waits already changes
    /// nothing.
    pub fn record_user_message_queued(
        &mut self,
        client_message_id: &str,
        conversation_id: &str,
        foreground_session_id: &str,
    )
        ensures
            final(self)@ == if waits(old(self)@.queued, client_message_id@) {
                old(self)@
            } else {
                old(self)@.user_message_queued(
                    client_message_id@,
                    conversation_id@,
                    foreground_session_id@,
                )
            },
    {
        if !is_waiting(&self.queued_outbound_messages, client_message_id) {
            self.queue_user_message(client_message_id, conversation_id, foreground_session_id);
        }
    }

    /// Notes a message that was added to the log.
    pub fn record_message_appended(
        &mut self,
        message: &Json,
        index: usize,
        from_user: bool,
        conversation_id: &str,
    )
        ensures
            final(self)@ == old(self)@.message_appended(
                message@,
                index,
                from_user,
                conversation_id@,
            ),
    {
        let id: Option<&str> = text_of_either(message, "message_id", "id");
        self.last_committed_message_id = match id {
            Some(t) => Some(t.to_owned()),
            None => None,
        };
        self.last_committed_message_index = Some(index);
        if let Some(id) = id {
            self.queued_outbound_messages = drop_id(&self.queued_outbound_messages, id);
            let written: bool = match &self.current_provisional_assistant_message {
                Some(p) => p.field_is("message_id", id),
                None => false,
            };
            if written {
                self.current_provisional_assistant_message = None;
            }
        }
        if from_user {
            drop_first_of(&mut self.queued_outbound_messages, conversation_id);
        }
        commit_tools(&mut self.running_tool_results, message);
    }
}

/// An event as the clients of a session see it.
pub open spec fn public_payload(
    conversation_id: Seq<char>,
    session: Seq<char>,
    event_type: Seq<char>,
    event: JsonView,
) -> JsonView {
    (if event is Object {
        event
    } else {
        JsonView::empty_object()
    }).with("type"@, JsonView::Text(public_type(event_type))).with(
        "conversation_id"@,
        JsonView::Text(conversation_id),
    ).with("foreground_session_id"@, JsonView::Text(session))
}

pub fn public_chat_stream_payload(
    conversation_id: &str,
    foreground_session_id: &str,
    event_type: &str,
    event: &Json,
) -> (r: Json)
    ensures
        r@ == public_payload(conversation_id@, foreground_session_id@, event_type@, event@),
{
    let mut payload: Json = match event {
        Json::Object(_) => event.copy(),
        _ => Json::object(),
    };
    payload.put("type", Json::Text(public_chat_stream_type(event_type)));
    payload.put("conversation_id", Json::text(conversation_id));
    payload.put("foreground_session_id", Json::text(foreground_session_id));
    payload
}

} // verus!

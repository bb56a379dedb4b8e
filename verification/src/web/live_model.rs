//! What is going on in a session, as clients that connect see it: the turn, the message
//! that is being written, the results of tools and the messages that wait.

use vstd::prelude::*;
use crate::json::{or_null, number_or_null, JsonView};
use crate::text::{trimmed};

verus! {

/// The state of a session between two events.
pub struct LiveView {
    pub turn: Option<JsonView>,
    pub provisional: Option<JsonView>,
    pub tools: Seq<JsonView>,
    pub queued: Seq<JsonView>,
    pub last_committed_id: Option<Seq<char>>,
    pub last_committed_index: Option<usize>,
    pub last_error: Option<Seq<char>>,
}

pub open spec fn or_empty(t: Option<Seq<char>>) -> Seq<char> {
    match t {
        Some(s) => s,
        None => Seq::empty(),
    }
}

/// The id of a message: its `message_id`, else its `id`.
pub open spec fn id_of_message(message: JsonView) -> Option<Seq<char>> {
    match message.field("message_id"@) {
        Some(v) => v.as_text(),
        None => message.text_field("id"@),
    }
}

// ---------------------------------------------------------------------------
// Text that comes in parts
// ---------------------------------------------------------------------------
/// The longest end of `a`, of at most `k` characters, with which `b` starts.
pub open spec fn overlap(a: Seq<char>, b: Seq<char>, k: int) -> int
    decreases k,
{
    if k <= 0 {
        0
    } else if a.skip(a.len() - k) == b.take(k) {
        k
    } else {
        overlap(a, b, k - 1)
    }
}

pub open spec fn shorter(a: Seq<char>, b: Seq<char>) -> int {
    if a.len() < b.len() {
        a.len() as int
    } else {
        b.len() as int
    }
}

/// A text with the part that comes next. A part that was there already, and the start of
/// a part that repeats the end of the text, count once.
pub open spec fn extended_text(existing: Seq<char>, delta: Seq<char>) -> Seq<char> {
    if existing.len() == 0 {
        delta
    } else if delta.len() == 0 || delta.is_suffix_of(existing) {
        existing
    } else if existing.is_prefix_of(delta) {
        delta
    } else {
        existing + delta.skip(overlap(existing, delta, shorter(existing, delta)))
    }
}

proof fn lemma_overlap(a: Seq<char>, b: Seq<char>, k: int)
    requires
        0 <= k <= a.len(),
        k <= b.len(),
    ensures
        0 <= overlap(a, b, k) <= k,
        a.skip(a.len() - overlap(a, b, k)) == b.take(overlap(a, b, k)),
    decreases k,
{
    if k == 0 {
        assert(a.skip(a.len() as int) =~= b.take(0));
    } else if a.skip(a.len() - k) != b.take(k) {
        lemma_overlap(a, b, k - 1);
    }
}

/// A text ends in the part that was added last; a part that comes twice changes nothing
/// the second time.
pub proof fn repeated_part_counts_once(existing: Seq<char>, delta: Seq<char>)
    ensures
        delta.is_suffix_of(extended_text(existing, delta)),
        extended_text(extended_text(existing, delta), delta) == extended_text(existing, delta),
{
    let r = extended_text(existing, delta);
    if existing.len() == 0 {
        assert(delta =~= delta.subrange(0, delta.len() as int));
    } else if delta.len() == 0 {
        assert(delta =~= existing.subrange(existing.len() as int, existing.len() as int));
    } else if delta.is_suffix_of(existing) {
    } else if existing.is_prefix_of(delta) {
        assert(delta =~= delta.subrange(0, delta.len() as int));
    } else {
        let k = overlap(existing, delta, shorter(existing, delta));
        lemma_overlap(existing, delta, shorter(existing, delta));
        let tail = r.subrange(r.len() - delta.len(), r.len() as int);
        assert forall|i: int| 0 <= i < delta.len() implies tail[i] == delta[i] by {
            if i < k {
                assert(existing.skip(existing.len() - k)[i] == delta.take(k)[i]);
            }
        }
        assert(tail =~= delta);
    }
}

/// An id that a person can read: not one that a service made up.
pub open spec fn readable_id(item_id: Seq<char>) -> Option<Seq<char>> {
    let t = trimmed(item_id);
    if t.len() == 0 || "item_"@.is_prefix_of(t) || "fc_"@.is_prefix_of(t) || "call_"@.is_prefix_of(
        t,
    ) {
        None
    } else {
        Some(t)
    }
}

// ---------------------------------------------------------------------------
// Items of a message
// ---------------------------------------------------------------------------
/// Which item of a message a part belongs to.
pub enum ItemKey {
    Text,
    ToolCall(Seq<char>),
    Reasoning(i64),
}

pub open spec fn item_is(item: JsonView, key: ItemKey) -> bool {
    match key {
        ItemKey::Text => item.text_field("type"@) == Some("text"@),
        ItemKey::ToolCall(id) => item.text_field("type"@) == Some("tool_call"@) && item.text_field(
            "tool_call_id"@,
        ) == Some(id),
        ItemKey::Reasoning(index) => item.text_field("type"@) == Some("reasoning"@)
            && item.signed_field("_summaryIndex"@) == Some(index),
    }
}

/// The index of the first item of a kind; the length when there is none.
pub open spec fn item_index(items: Seq<JsonView>, key: ItemKey, i: int) -> int
    decreases items.len() - i,
{
    if i < 0 || i >= items.len() {
        items.len() as int
    } else if item_is(items[i], key) {
        i
    } else {
        item_index(items, key, i + 1)
    }
}

pub open spec fn items_of(message: JsonView) -> Seq<JsonView> {
    match message.field("items"@) {
        Some(JsonView::Array(items)) => items,
        _ => Seq::empty(),
    }
}

pub open spec fn with_text(item: JsonView, text: Seq<char>) -> JsonView {
    item.with("text"@, JsonView::Text(text)).with(
        "text_with_attachment_markers"@,
        JsonView::Text(text),
    )
}

/// The items with the text item set.
pub open spec fn items_with_text(items: Seq<JsonView>, text: Seq<char>) -> Seq<JsonView> {
    let i = item_index(items, ItemKey::Text, 0);
    if 0 <= i < items.len() {
        items.update(i, with_text(items[i], text))
    } else {
        items.push(
            with_text(
                JsonView::empty_object().with("type"@, JsonView::Text("text"@)).with(
                    "index"@,
                    JsonView::number(items.len()),
                ),
                text,
            ),
        )
    }
}

/// The items with a part added to the arguments of a tool call.
pub open spec fn items_with_call(
    items: Seq<JsonView>,
    call_id: Seq<char>,
    item_id: Seq<char>,
    delta: Seq<char>,
) -> Seq<JsonView> {
    let i = item_index(items, ItemKey::ToolCall(call_id), 0);
    if 0 <= i < items.len() {
        items.update(
            i,
            items[i].with(
                "arguments"@,
                JsonView::Text(
                    extended_text(or_empty(items[i].text_field("arguments"@)), delta),
                ),
            ),
        )
    } else {
        items.push(
            JsonView::empty_object().with("type"@, JsonView::Text("tool_call"@)).with(
                "index"@,
                JsonView::number(items.len()),
            ).with("tool_call_id"@, JsonView::Text(call_id)).with(
                "tool_name"@,
                JsonView::Text(
                    match readable_id(item_id) {
                        Some(name) => name,
                        None => "tool"@,
                    },
                ),
            ).with("arguments"@, JsonView::Text(delta)),
        )
    }
}

/// The text of a reasoning item: its `text`, else its `summary`.
pub open spec fn reasoning_text(item: JsonView) -> Seq<char> {
    or_empty(
        match item.field("text"@) {
            Some(v) => v.as_text(),
            None => item.text_field("summary"@),
        },
    )
}

pub open spec fn with_reasoning(item: JsonView, delta: Seq<char>) -> JsonView {
    let text = extended_text(reasoning_text(item), delta);
    item.with("text"@, JsonView::Text(text)).with("summary"@, JsonView::Text(text))
}

/// The items with a part added to a summary of the reasoning.
pub open spec fn items_with_reasoning(
    items: Seq<JsonView>,
    summary_index: i64,
    delta: Seq<char>,
) -> Seq<JsonView> {
    let i = item_index(items, ItemKey::Reasoning(summary_index), 0);
    if 0 <= i < items.len() {
        items.update(i, with_reasoning(items[i], delta))
    } else {
        items.push(
            with_reasoning(
                JsonView::empty_object().with("type"@, JsonView::Text("reasoning"@)).with(
                    "index"@,
                    JsonView::number(items.len()),
                ).with("text"@, JsonView::Text(""@)).with("summary"@, JsonView::Text(""@)).with(
                    "_summaryIndex"@,
                    JsonView::signed(summary_index),
                ),
                delta,
            ),
        )
    }
}

// ---------------------------------------------------------------------------
// The message that is being written
// ---------------------------------------------------------------------------
/// An empty message of the assistant.
pub open spec fn blank_message(
    message_id: Seq<char>,
    turn_id: Seq<char>,
    index: Option<u64>,
    now: Seq<char>,
) -> JsonView {
    JsonView::empty_object().with("id"@, JsonView::Text(message_id)).with(
        "message_id"@,
        JsonView::Text(message_id),
    ).with("index"@, number_or_null(index)).with("role"@, JsonView::Text("assistant"@)).with(
        "text"@,
        JsonView::Text(""@),
    ).with("preview"@, JsonView::Text(""@)).with("content"@, JsonView::Text(""@)).with(
        "text_with_attachment_markers"@,
        JsonView::Text(""@),
    ).with("items"@, JsonView::Array(Seq::empty())).with(
        "attachments"@,
        JsonView::Array(Seq::empty()),
    ).with("attachment_count"@, JsonView::number(0)).with("message_time"@, JsonView::Text(now)).with(
        "_streamTurnId"@,
        JsonView::Text(turn_id),
    ).with("_streaming"@, JsonView::Bool(true))
}

/// The message that is being written, marked with its ids; a new one is begun where
/// another message was being written or none.
pub open spec fn provisional_for(
    p: Option<JsonView>,
    message_id: Seq<char>,
    turn_id: Seq<char>,
    index: Option<u64>,
    now: Seq<char>,
) -> JsonView {
    let base = if p matches Some(v) && v.text_field("message_id"@) == Some(message_id) {
        p->0
    } else {
        JsonView::empty_object().with("turn_id"@, JsonView::Text(turn_id)).with(
            "message_id"@,
            JsonView::Text(message_id),
        ).with("message"@, blank_message(message_id, turn_id, index, now))
    };
    base.with("turn_id"@, JsonView::Text(turn_id)).with("message_id"@, JsonView::Text(message_id))
}

/// The message inside, with its marks; its items are a list afterwards.
pub open spec fn marked_message(
    m: JsonView,
    message_id: Seq<char>,
    turn_id: Seq<char>,
    index: Option<u64>,
) -> JsonView {
    let a = m.with("id"@, JsonView::Text(message_id)).with(
        "message_id"@,
        JsonView::Text(message_id),
    ).with("role"@, JsonView::Text("assistant"@)).with(
        "_streamTurnId"@,
        JsonView::Text(turn_id),
    ).with("_streaming"@, JsonView::Bool(true));
    let b = match index {
        Some(i) => a.with("index"@, number_or_null(Some(i))),
        None => a,
    };
    if b.field("items"@) matches Some(v) && v is Array {
        b
    } else {
        b.with("items"@, JsonView::Array(Seq::empty()))
    }
}

/// What is done to the message that is being written.
pub enum MessageChange {
    /// Text of the answer.
    Text(Seq<char>),
    /// Arguments of a tool call: its id, the id of its item, and the part.
    Call(Seq<char>, Seq<char>, Seq<char>),
    /// A summary of the reasoning: its index and the part.
    Reasoning(i64, Seq<char>),
}

/// The text of a message: its `text`, else its `preview`.
pub open spec fn text_of_message(m: JsonView) -> Seq<char> {
    or_empty(
        match m.field("text"@) {
            Some(v) => v.as_text(),
            None => m.text_field("preview"@),
        },
    )
}

pub open spec fn changed_message(m: JsonView, change: MessageChange) -> JsonView {
    match change {
        MessageChange::Text(delta) => {
            let text = extended_text(text_of_message(m), delta);
            m.with("text"@, JsonView::Text(text)).with("preview"@, JsonView::Text(text)).with(
                "content"@,
                JsonView::Text(text),
            ).with("text_with_attachment_markers"@, JsonView::Text(text)).with(
                "items"@,
                JsonView::Array(items_with_text(items_of(m), text)),
            )
        },
        MessageChange::Call(call_id, item_id, delta) => m.with(
            "items"@,
            JsonView::Array(items_with_call(items_of(m), call_id, item_id, delta)),
        ),
        MessageChange::Reasoning(index, delta) => m.with(
            "items"@,
            JsonView::Array(items_with_reasoning(items_of(m), index, delta)),
        ),
    }
}

impl LiveView {
    pub open spec fn empty() -> Self {
        LiveView {
            turn: None,
            provisional: None,
            tools: Seq::empty(),
            queued: Seq::empty(),
            last_committed_id: None,
            last_committed_index: None,
            last_error: None,
        }
    }

    /// The state of the session in a word.
    pub open spec fn summary(self) -> Seq<char> {
        if self.turn is Some {
            "running"@
        } else if self.queued.len() > 0 {
            "queued"@
        } else if self.last_error is Some {
            "failed"@
        } else {
            "idle"@
        }
    }

    pub open spec fn turn_id(self) -> Option<Seq<char>> {
        match self.turn {
            Some(t) => t.text_field("turn_id"@),
            None => None,
        }
    }

    /// An event that names a turn sets it.
    pub open spec fn with_turn(self, event: JsonView) -> Self {
        match event.text_field("turn_id"@) {
            Some(id) => LiveView {
                turn: Some(
                    JsonView::empty_object().with("turn_id"@, JsonView::Text(id)).with(
                        "message_id"@,
                        or_null(event.text_field("message_id"@)),
                    ),
                ),
                ..self
            },
            None => self,
        }
    }

    /// The message that is being written, after a change that an event brings.
    pub open spec fn with_change(
        self,
        event: JsonView,
        message_id: Seq<char>,
        change: MessageChange,
        now: Seq<char>,
    ) -> Self {
        let turn_id = or_empty(event.text_field("turn_id"@));
        let index = event.unsigned_field("message_index"@);
        let p = provisional_for(self.provisional, message_id, turn_id, index, now);
        LiveView {
            provisional: Some(
                match p.field("message"@) {
                    Some(m) => if m is Object {
                        p.with(
                            "message"@,
                            changed_message(
                                marked_message(m, message_id, turn_id, index),
                                change,
                            ),
                        )
                    } else {
                        p
                    },
                    None => p,
                },
            ),
            ..self
        }
    }

    pub open spec fn assistant_delta(self, event: JsonView, now: Seq<char>) -> Self {
        let s = self.with_turn(event);
        let delta = or_empty(event.text_field("delta"@));
        match event.text_field("message_id"@) {
            Some(id) => if delta.len() == 0 {
                s
            } else {
                s.with_change(event, id, MessageChange::Text(delta), now)
            },
            None => s,
        }
    }

    /// The id of a tool call: its own, else that of its item.
    pub open spec fn call_id(event: JsonView) -> Seq<char> {
        match event.text_field("call_id"@) {
            Some(id) => if id.len() > 0 {
                id
            } else {
                or_empty(event.text_field("item_id"@))
            },
            None => or_empty(event.text_field("item_id"@)),
        }
    }

    pub open spec fn tool_call_delta(self, event: JsonView, now: Seq<char>) -> Self {
        let s = self.with_turn(event);
        let call = Self::call_id(event);
        match event.text_field("message_id"@) {
            Some(id) => if call.len() == 0 {
                s
            } else {
                s.with_change(
                    event,
                    id,
                    MessageChange::Call(
                        call,
                        or_empty(event.text_field("item_id"@)),
                        or_empty(event.text_field("delta"@)),
                    ),
                    now,
                )
            },
            None => s,
        }
    }

    pub open spec fn reasoning_delta(self, event: JsonView, now: Seq<char>) -> Self {
        let s = self.with_turn(event);
        let delta = or_empty(event.text_field("delta"@));
        let index = match event.signed_field("summary_index"@) {
            Some(i) => i,
            None => 0,
        };
        match event.text_field("message_id"@) {
            Some(id) => if delta.len() == 0 {
                s
            } else {
                s.with_change(event, id, MessageChange::Reasoning(index, delta), now)
            },
            None => s,
        }
    }

    /// The result of a tool takes the place of an earlier result of the same call.
    pub open spec fn tool_result(self, event: JsonView) -> Self {
        match event.field("tool_result"@) {
            None => self,
            Some(result) => {
                let next = JsonView::empty_object().with(
                    "turn_id"@,
                    JsonView::Text(or_empty(event.text_field("turn_id"@))),
                ).with("tool_result"@, result).with("committed"@, JsonView::Bool(false));
                match result.text_field("tool_call_id"@) {
                    Some(id) => {
                        let i = tool_index(self.tools, id, 0);
                        LiveView {
                            tools: if 0 <= i < self.tools.len() {
                                self.tools.update(i, next)
                            } else {
                                self.tools.push(next)
                            },
                            ..self
                        }
                    },
                    None => LiveView { tools: self.tools.push(next), ..self },
                }
            },
        }
    }

    pub open spec fn turn_started(self, event: JsonView) -> Self {
        LiveView {
            last_error: None,
            turn: match event.text_field("turn_id"@) {
                Some(id) => Some(
                    JsonView::empty_object().with("turn_id"@, JsonView::Text(id)).with(
                        "message_id"@,
                        JsonView::Null,
                    ),
                ),
                None => None,
            },
            provisional: None,
            tools: Seq::empty(),
            ..self
        }
    }

    pub open spec fn stream_error(self, event: JsonView) -> Self {
        let id = or_empty(event.text_field("message_id"@));
        LiveView {
            provisional: if id.len() == 0 {
                None
            } else {
                match self.provisional {
                    Some(p) => if p.text_field("message_id"@) == Some(id) {
                        None
                    } else {
                        Some(p)
                    },
                    None => None,
                }
            },
            turn: None,
            tools: Seq::empty(),
            last_error: event.text_field("error"@),
            ..self
        }
    }

    pub open spec fn turn_completed(self) -> Self {
        LiveView {
            turn: None,
            provisional: None,
            tools: Seq::empty(),
            queued: Seq::empty(),
            last_error: None,
            ..self
        }
    }

    /// The state after an event of a stream.
    pub open spec fn stream_event(self, event: JsonView, kind: Seq<char>, now: Seq<char>) -> Self {
        if kind == "turn_started"@ {
            self.turn_started(event)
        } else if kind == "stream_assistant_message_delta"@ {
            self.assistant_delta(event, now)
        } else if kind == "stream_tool_call_delta"@ {
            self.tool_call_delta(event, now)
        } else if kind == "stream_reasoning_summary_part_added"@ {
            self.with_turn(event)
        } else if kind == "stream_reasoning_summary_delta"@ {
            self.reasoning_delta(event, now)
        } else if kind == "stream_tool_result_done"@ {
            self.tool_result(event)
        } else if kind == "stream_error"@ {
            self.stream_error(event)
        } else if kind == "turn_completed"@ {
            self.turn_completed()
        } else {
            self
        }
    }

    /// A message of the user waits, unless it waits already.
    pub open spec fn user_message_queued(
        self,
        client_message_id: Seq<char>,
        conversation_id: Seq<char>,
        session_id: Seq<char>,
    ) -> Self {
        LiveView {
            queued: if waits(self.queued, client_message_id) {
                self.queued
            } else {
                self.queued.push(
                    JsonView::empty_object().with(
                        "client_message_id"@,
                        JsonView::Text(client_message_id),
                    ).with("conversation_id"@, JsonView::Text(conversation_id)).with(
                        "foreground_session_id"@,
                        JsonView::Text(session_id),
                    ),
                )
            },
            last_error: None,
            ..self
        }
    }

    /// The state after a message was added to the log.
    pub open spec fn message_appended(
        self,
        message: JsonView,
        index: usize,
        from_user: bool,
        conversation_id: Seq<char>,
    ) -> Self {
        let id = id_of_message(message);
        let queued = match id {
            Some(id) => without_id(self.queued, id, self.queued.len() as int),
            None => self.queued,
        };
        LiveView {
            last_committed_id: id,
            last_committed_index: Some(index),
            queued: if from_user {
                without_first_of(queued, conversation_id)
            } else {
                queued
            },
            provisional: match (id, self.provisional) {
                (Some(id), Some(p)) => if p.text_field("message_id"@) == Some(id) {
                    None
                } else {
                    Some(p)
                },
                (_, p) => p,
            },
            tools: committed_tools(self.tools, message),
            ..self
        }
    }
}

/// The id of the call that a running tool belongs to.
pub open spec fn tool_call_of(tool: JsonView) -> Option<Seq<char>> {
    match tool.field("tool_result"@) {
        Some(r) => r.text_field("tool_call_id"@),
        None => None,
    }
}

/// The index of the first tool of a call; the length when there is none.
pub open spec fn tool_index(tools: Seq<JsonView>, id: Seq<char>, i: int) -> int
    decreases tools.len() - i,
{
    if i < 0 || i >= tools.len() {
        tools.len() as int
    } else if tool_call_of(tools[i]) == Some(id) {
        i
    } else {
        tool_index(tools, id, i + 1)
    }
}

pub open spec fn waits(queued: Seq<JsonView>, id: Seq<char>) -> bool {
    exists|i: int|
        0 <= i < queued.len() && (#[trigger] queued[i]).text_field("client_message_id"@) == Some(id)
}

/// The first `n` waiting messages without those of an id.
pub open spec fn without_id(queued: Seq<JsonView>, id: Seq<char>, n: int) -> Seq<JsonView>
    decreases n,
{
    if n <= 0 || n > queued.len() {
        Seq::empty()
    } else {
        let rest = without_id(queued, id, n - 1);
        if queued[n - 1].text_field("client_message_id"@) == Some(id) {
            rest
        } else {
            rest.push(queued[n - 1])
        }
    }
}

/// The index of the first waiting message of a conversation.
pub open spec fn first_of(queued: Seq<JsonView>, conversation_id: Seq<char>, i: int) -> int
    decreases queued.len() - i,
{
    if i < 0 || i >= queued.len() {
        queued.len() as int
    } else if queued[i].text_field("conversation_id"@) == Some(conversation_id) {
        i
    } else {
        first_of(queued, conversation_id, i + 1)
    }
}

pub open spec fn without_first_of(queued: Seq<JsonView>, conversation_id: Seq<char>) -> Seq<
    JsonView,
> {
    let i = first_of(queued, conversation_id, 0);
    if 0 <= i < queued.len() {
        queued.remove(i)
    } else {
        queued
    }
}

/// The items that a logged message has: its `items`, else its `data`.
pub open spec fn logged_items(message: JsonView) -> Seq<JsonView> {
    let v = match message.field("items"@) {
        Some(v) => Some(v),
        None => message.field("data"@),
    };
    match v {
        Some(JsonView::Array(items)) => items,
        _ => Seq::empty(),
    }
}

/// Whether a logged message holds the result of a call.
pub open spec fn holds_result_of(message: JsonView, id: Seq<char>) -> bool {
    exists|i: int|
        0 <= i < logged_items(message).len() && (#[trigger] logged_items(message)[i]).text_field(
            "type"@,
        ) == Some("tool_result"@) && logged_items(message)[i].text_field("tool_call_id"@) == Some(
            id,
        )
}

pub open spec fn committed_tool(tool: JsonView, message: JsonView) -> JsonView {
    if tool_call_of(tool) matches Some(id) && holds_result_of(message, id) {
        tool.with("committed"@, JsonView::Bool(true))
    } else {
        tool
    }
}

/// The running tools; those whose results a logged message holds are committed.
pub open spec fn committed_tools(tools: Seq<JsonView>, message: JsonView) -> Seq<JsonView> {
    tools.map_values(|t: JsonView| committed_tool(t, message))
}

// ---------------------------------------------------------------------------
// Laws
// ---------------------------------------------------------------------------
/// When a turn is over nothing of it is left, and the session is idle.
pub proof fn completed_turn_leaves_nothing(s: LiveView)
    ensures
        s.turn_completed().summary() == "idle"@,
        s.turn_completed().turn_id() is None,
        s.turn_completed().provisional is None,
        s.turn_completed().tools.len() == 0,
{
}

/// A turn that has an id makes the session run, and the id is found again.
pub proof fn started_turn_runs(s: LiveView, event: JsonView, id: Seq<char>)
    requires
        event.text_field("turn_id"@) == Some(id),
    ensures
        s.turn_started(event).summary() == "running"@,
        s.turn_started(event).turn_id() == Some(id),
{
    reveal_strlit("turn_id");
    reveal_strlit("message_id");
    assert("turn_id"@.len() != "message_id"@.len());
}

/// A failed turn shows its error until something else happens.
pub proof fn failed_turn_shows_its_error(s: LiveView, event: JsonView)
    requires
        event.text_field("error"@) is Some,
        s.queued.len() == 0,
    ensures
        s.stream_error(event).summary() == "failed"@,
        s.stream_error(event).last_error == event.text_field("error"@),
{
}

/// A message that waits is not queued a second time.
pub proof fn message_waits_once(
    s: LiveView,
    id: Seq<char>,
    conversation_id: Seq<char>,
    session_id: Seq<char>,
)
    ensures
        waits(s.user_message_queued(id, conversation_id, session_id).queued, id),
        s.user_message_queued(id, conversation_id, session_id).user_message_queued(
            id,
            conversation_id,
            session_id,
        ) == s.user_message_queued(id, conversation_id, session_id),
{
    let t = s.user_message_queued(id, conversation_id, session_id);
    if !waits(s.queued, id) {
        let n = s.queued.len() as int;
        reveal_strlit("client_message_id");
        reveal_strlit("conversation_id");
        reveal_strlit("foreground_session_id");
        assert("client_message_id"@.len() != "conversation_id"@.len());
        assert("client_message_id"@.len() != "foreground_session_id"@.len());
        assert(t.queued[n].text_field("client_message_id"@) == Some(id));
    }
}

proof fn lemma_without_id(queued: Seq<JsonView>, id: Seq<char>, n: int, k: int)
    requires
        0 <= n <= queued.len(),
        0 <= k < without_id(queued, id, n).len(),
    ensures
        without_id(queued, id, n)[k].text_field("client_message_id"@) != Some(id),
    decreases n,
{
    if n > 0 {
        let rest = without_id(queued, id, n - 1);
        if k < rest.len() {
            lemma_without_id(queued, id, n - 1, k);
        }
    }
}

/// A message that was logged waits no longer.
pub proof fn logged_message_no_longer_waits(
    s: LiveView,
    message: JsonView,
    index: usize,
    conversation_id: Seq<char>,
    id: Seq<char>,
)
    requires
        id_of_message(message) == Some(id),
    ensures
        !waits(s.message_appended(message, index, false, conversation_id).queued, id),
{
    let q = s.message_appended(message, index, false, conversation_id).queued;
    if waits(q, id) {
        let i = choose|i: int|
            0 <= i < q.len() && (#[trigger] q[i]).text_field("client_message_id"@) == Some(id);
        lemma_without_id(s.queued, id, s.queued.len() as int, i);
    }
}

} // verus!

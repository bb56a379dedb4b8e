//! Laws of what clients see of a running turn: text, reasoning and calls grow by the parts
//! that come in, and nothing else changes with them.

use vstd::prelude::*;
use crate::json::JsonView;
use crate::text::mark;
use super::live_model::{
    changed_message, extended_text, id_of_message, item_index, item_is, items_of, items_with_call,
    items_with_reasoning, items_with_text, marked_message, overlap, readable_id, shorter,
    tool_call_of, tool_index, ItemKey, LiveView, MessageChange,
};

verus! {

// ---------------------------------------------------------------------------
// Text that comes in parts
// ---------------------------------------------------------------------------
/// Whether a text is `before` with a part added: it starts with what was there, ends in the
/// part, and no shorter text does.
pub open spec fn grows(before: Seq<char>, delta: Seq<char>, after: Seq<char>) -> bool {
    &&& before.is_prefix_of(after)
    &&& delta.is_suffix_of(after)
    &&& forall|t: Seq<char>| #[trigger]
        before.is_prefix_of(t) && delta.is_suffix_of(t) ==> after.len() <= t.len()
}

proof fn lemma_longest_overlap(a: Seq<char>, b: Seq<char>, k: int, j: int)
    requires
        0 <= k <= a.len(),
        k <= b.len(),
        0 <= j <= k,
        a.skip(a.len() - j) == b.take(j),
    ensures
        j <= overlap(a, b, k) <= k,
        a.skip(a.len() - overlap(a, b, k)) == b.take(overlap(a, b, k)),
    decreases k,
{
    if k == 0 {
        assert(a.skip(a.len() as int) =~= b.take(0));
    } else if a.skip(a.len() - k) != b.take(k) {
        lemma_longest_overlap(a, b, k - 1, j);
    }
}

/// A text with a part added is the shortest one that starts with the text and ends in the
/// part.
pub proof fn part_is_added_to_the_text(before: Seq<char>, delta: Seq<char>)
    ensures
        grows(before, delta, extended_text(before, delta)),
{
    let r = extended_text(before, delta);
    super::live_model::repeated_part_counts_once(before, delta);
    if before.len() == 0 {
        assert(r.subrange(0, 0) =~= before);
    } else if delta.len() == 0 || delta.is_suffix_of(before) {
        assert(r.subrange(0, before.len() as int) =~= before);
    } else if before.is_prefix_of(delta) {
    } else {
        let n = shorter(before, delta);
        assert(before.skip(before.len() as int) =~= delta.take(0));
        lemma_longest_overlap(before, delta, n, 0);
        assert(r.subrange(0, before.len() as int) =~= before);
        assert forall|t: Seq<char>| #[trigger]
            before.is_prefix_of(t) && delta.is_suffix_of(t) implies r.len() <= t.len() by {
            if t.len() < before.len() + delta.len() {
                let j = before.len() + delta.len() - t.len();
                if t.len() == before.len() {
                    assert(t =~= before);
                } else if t.len() == delta.len() {
                    assert(t.subrange(0, t.len() as int) =~= t);
                    assert(t =~= delta);
                } else {
                    let d = t.subrange(t.len() - delta.len(), t.len() as int);
                    assert(d == delta);
                    assert(t.subrange(0, before.len() as int) == before);
                    assert forall|i: int| 0 <= i < j implies before.skip(before.len() - j)[i]
                        == delta.take(j)[i] by {
                        assert(before[before.len() - j + i] == t[before.len() - j + i]);
                        assert(delta[i] == t[t.len() - delta.len() + i]);
                    }
                    assert(before.skip(before.len() - j) =~= delta.take(j));
                    lemma_longest_overlap(before, delta, n, j);
                }
            }
        }
    }
}

// ---------------------------------------------------------------------------
// The message that is being written
// ---------------------------------------------------------------------------
/// Whether a message with these items is being written.
pub open spec fn is_writing(s: LiveView, id: Seq<char>, m: JsonView, items: Seq<JsonView>) -> bool {
    &&& s.provisional matches Some(p)
    &&& p.text_field("message_id"@) == Some(id)
    &&& p.field("message"@) == Some(m)
    &&& m is Object
    &&& m.field("items"@) == Some(JsonView::Array(items))
}

proof fn lemma_keys()
    ensures
        mark("items"@) == 106854981,
        mark("id"@) == 105683522,
        mark("message_id"@) == 108829514,
        mark("role"@) == 114080900,
        mark("_streamTurnId"@) == 115120077,
        mark("_streaming"@) == 102561738,
        mark("index"@) == 105847365,
        mark("text"@) == 126786820,
        mark("preview"@) == 124713991,
        mark("content"@) == 122591431,
        mark("text_with_attachment_markers"@) == 104758556,
        mark("summary"@) == 115293383,
        mark("_summaryIndex"@) == 120526797,
        mark("type"@) == 118275332,
        mark("tool_call_id"@) == 102538508,
        mark("tool_name"@) == 100449545,
        mark("arguments"@) == 115243081,
        mark("message"@) == 121420615,
        mark("turn_id"@) == 116169991,
        mark("reasoning"@) == 117243017,
        mark("tool_call"@) == 100506889,
{
    reveal_strlit("items");
    reveal_strlit("id");
    reveal_strlit("message_id");
    reveal_strlit("role");
    reveal_strlit("_streamTurnId");
    reveal_strlit("_streaming");
    reveal_strlit("index");
    reveal_strlit("text");
    reveal_strlit("preview");
    reveal_strlit("content");
    reveal_strlit("text_with_attachment_markers");
    reveal_strlit("summary");
    reveal_strlit("_summaryIndex");
    reveal_strlit("type");
    reveal_strlit("tool_call_id");
    reveal_strlit("tool_name");
    reveal_strlit("arguments");
    reveal_strlit("message");
    reveal_strlit("turn_id");
    reveal_strlit("reasoning");
    reveal_strlit("tool_call");
}

proof fn lemma_kinds()
    ensures
        mark("stream_assistant_message_delta"@) == 122436830,
        mark("turn_started"@) == 122461452,
        mark("stream_tool_call_delta"@) == 100416726,
        mark("stream_reasoning_summary_delta"@) == 108805342,
        mark("stream_reasoning_summary_part_added"@) == 121412835,
        mark("stream_tool_result_done"@) == 100449495,
        mark("stream_error"@) == 100555980,
        mark("turn_completed"@) == 115121422,
{
    reveal_strlit("stream_assistant_message_delta");
    reveal_strlit("turn_started");
    reveal_strlit("stream_tool_call_delta");
    reveal_strlit("stream_reasoning_summary_delta");
    reveal_strlit("stream_reasoning_summary_part_added");
    reveal_strlit("stream_tool_result_done");
    reveal_strlit("stream_error");
    reveal_strlit("turn_completed");
}

/// What a change does to the message that is being written. The ids of the message are set
/// and the rest is done by the change.
proof fn lemma_change(
    s: LiveView,
    event: JsonView,
    id: Seq<char>,
    m: JsonView,
    items: Seq<JsonView>,
    change: MessageChange,
    now: Seq<char>,
) -> (marked: JsonView)
    requires
        is_writing(s, id, m, items),
    ensures
        marked is Object,
        marked.field("items"@) == Some(JsonView::Array(items)),
        marked.field("text"@) == m.field("text"@),
        s.with_change(event, id, change, now).provisional matches Some(p) && p.text_field(
            "message_id"@,
        ) == Some(id) && p.field("message"@) == Some(changed_message(marked, change)),
        s.with_change(event, id, change, now).tools == s.tools,
        s.with_change(event, id, change, now).queued == s.queued,
        s.with_change(event, id, change, now).turn == s.turn,
        s.with_change(event, id, change, now).last_error == s.last_error,
{
    lemma_keys();
    let turn_id = super::live_model::or_empty(event.text_field("turn_id"@));
    let index = event.unsigned_field("message_index"@);
    marked_message(m, id, turn_id, index)
}

/// No item before the one at `i` is of a kind.
pub open spec fn is_first(items: Seq<JsonView>, key: ItemKey, i: int) -> bool {
    &&& 0 <= i < items.len()
    &&& item_is(items[i], key)
    &&& forall|j: int| 0 <= j < i ==> !item_is(#[trigger] items[j], key)
}

proof fn lemma_first(items: Seq<JsonView>, key: ItemKey, from: int, i: int)
    requires
        is_first(items, key, i),
        0 <= from <= i,
    ensures
        item_index(items, key, from) == i,
    decreases i - from,
{
    if from < i {
        assert(!item_is(items[from], key));
        lemma_first(items, key, from + 1, i);
    }
}

proof fn lemma_none(items: Seq<JsonView>, key: ItemKey, from: int)
    requires
        0 <= from <= items.len(),
        forall|j: int| 0 <= j < items.len() ==> !item_is(#[trigger] items[j], key),
    ensures
        item_index(items, key, from) == items.len(),
    decreases items.len() - from,
{
    if from < items.len() {
        assert(!item_is(items[from], key));
        lemma_none(items, key, from + 1);
    }
}

/// Whether items are as they were but for the one at `i`.
pub open spec fn only_item_changed(before: Seq<JsonView>, after: Seq<JsonView>, i: int) -> bool {
    after.len() == before.len() && forall|j: int|
        0 <= j < before.len() && j != i ==> #[trigger] after[j] == before[j]
}

/// A part of the reasoning is added to the text and the summary of the item with its index:
/// what was there stays in front. Other items stay as they are.
pub proof fn reasoning_grows_by_its_parts(
    s: LiveView,
    event: JsonView,
    now: Seq<char>,
    id: Seq<char>,
    m: JsonView,
    items: Seq<JsonView>,
    i: int,
    index: i64,
    before: Seq<char>,
    delta: Seq<char>,
)
    requires
        event.text_field("message_id"@) == Some(id),
        event.text_field("delta"@) == Some(delta),
        event.signed_field("summary_index"@) == Some(index),
        delta.len() > 0,
        is_writing(s, id, m, items),
        0 <= i < items.len(),
        items[i].text_field("type"@) == Some("reasoning"@),
        items[i].signed_field("_summaryIndex"@) == Some(index),
        items[i].text_field("text"@) == Some(before),
        forall|j: int|
            0 <= j < i ==> (#[trigger] items[j]).text_field("type"@) != Some("reasoning"@)
                || items[j].signed_field("_summaryIndex"@) != Some(index),
    ensures
        ({
            let t = s.stream_event(event, "stream_reasoning_summary_delta"@, now);
            exists|n: JsonView, list: Seq<JsonView>, after: Seq<char>|
                {
                    &&& #[trigger] is_writing(t, id, n, list)
                    &&& only_item_changed(items, list, i)
                    &&& list[i].text_field("type"@) == Some("reasoning"@)
                    &&& list[i].signed_field("_summaryIndex"@) == Some(index)
                    &&& list[i].text_field("text"@) == Some(after)
                    &&& list[i].text_field("summary"@) == Some(after)
                    &&& #[trigger] grows(before, delta, after)
                    &&& n.field("text"@) == m.field("text"@)
                }
        }),
{
    lemma_keys();
    lemma_kinds();
    let key = ItemKey::Reasoning(index);
    let change = MessageChange::Reasoning(index, delta);
    let started = s.with_turn(event);
    let t = s.stream_event(event, "stream_reasoning_summary_delta"@, now);
    assert(is_writing(started, id, m, items));
    let marked = lemma_change(started, event, id, m, items, change, now);
    assert(is_first(items, key, i));
    lemma_first(items, key, 0, i);
    part_is_added_to_the_text(before, delta);
    let after = extended_text(before, delta);
    let list = items_with_reasoning(items, index, delta);
    let n = changed_message(marked, change);
    assert(items_of(marked) == items);
    assert(is_writing(t, id, n, list));
    assert(grows(before, delta, after));
}

/// Reasoning with a new index becomes an item of its own, behind the others, that shows the
/// part.
pub proof fn new_reasoning_is_an_item_of_its_own(
    s: LiveView,
    event: JsonView,
    now: Seq<char>,
    id: Seq<char>,
    m: JsonView,
    items: Seq<JsonView>,
    index: i64,
    delta: Seq<char>,
)
    requires
        event.text_field("message_id"@) == Some(id),
        event.text_field("delta"@) == Some(delta),
        event.signed_field("summary_index"@) == Some(index),
        delta.len() > 0,
        is_writing(s, id, m, items),
        forall|j: int|
            0 <= j < items.len() ==> (#[trigger] items[j]).text_field("type"@) != Some(
                "reasoning"@,
            ) || items[j].signed_field("_summaryIndex"@) != Some(index),
    ensures
        ({
            let t = s.stream_event(event, "stream_reasoning_summary_delta"@, now);
            exists|n: JsonView, added: JsonView|
                {
                    &&& is_writing(t, id, n, #[trigger] items.push(added))
                    &&& added.text_field("type"@) == Some("reasoning"@)
                    &&& added.signed_field("_summaryIndex"@) == Some(index)
                    &&& added.text_field("text"@) == Some(delta)
                    &&& added.text_field("summary"@) == Some(delta)
                    &&& added.field("index"@) == Some(JsonView::number(items.len()))
                    &&& #[trigger] n.field("text"@) == m.field("text"@)
                }
        }),
{
    lemma_keys();
    lemma_kinds();
    reveal_strlit("");
    assert(""@ =~= Seq::<char>::empty());
    let key = ItemKey::Reasoning(index);
    let change = MessageChange::Reasoning(index, delta);
    let started = s.with_turn(event);
    let t = s.stream_event(event, "stream_reasoning_summary_delta"@, now);
    assert(is_writing(started, id, m, items));
    let marked = lemma_change(started, event, id, m, items, change, now);
    lemma_none(items, key, 0);
    let list = items_with_reasoning(items, index, delta);
    let added = list[items.len() as int];
    let n = changed_message(marked, change);
    assert(items_of(marked) == items);
    assert(list =~= items.push(added));
    assert(is_writing(t, id, n, items.push(added)));
    assert(n.field("text"@) == m.field("text"@));
}

/// A part of the answer is added to the text of the message, wherever the text is shown, and
/// to its item of text. Other items stay as they are.
pub proof fn answer_grows_by_its_parts(
    s: LiveView,
    event: JsonView,
    now: Seq<char>,
    id: Seq<char>,
    m: JsonView,
    items: Seq<JsonView>,
    i: int,
    before: Seq<char>,
    delta: Seq<char>,
)
    requires
        event.text_field("message_id"@) == Some(id),
        event.text_field("delta"@) == Some(delta),
        delta.len() > 0,
        is_writing(s, id, m, items),
        m.text_field("text"@) == Some(before),
        0 <= i <= items.len(),
        i < items.len() ==> items[i] is Object && items[i].text_field("type"@) == Some("text"@),
        forall|j: int|
            0 <= j < i ==> (#[trigger] items[j]).text_field("type"@) != Some("text"@),
    ensures
        ({
            let t = s.stream_event(event, "stream_assistant_message_delta"@, now);
            exists|n: JsonView, list: Seq<JsonView>, after: Seq<char>|
                {
                    &&& #[trigger] is_writing(t, id, n, list)
                    &&& #[trigger] grows(before, delta, after)
                    &&& n.text_field("text"@) == Some(after)
                    &&& n.text_field("preview"@) == Some(after)
                    &&& n.text_field("content"@) == Some(after)
                    &&& n.text_field("text_with_attachment_markers"@) == Some(after)
                    &&& list.len() == (if i < items.len() {
                        items.len()
                    } else {
                        items.len() + 1
                    })
                    &&& forall|j: int|
                        0 <= j < items.len() && j != i ==> #[trigger] list[j] == items[j]
                    &&& list[i].text_field("type"@) == Some("text"@)
                    &&& list[i].text_field("text"@) == Some(after)
                    &&& list[i].text_field("text_with_attachment_markers"@) == Some(after)
                }
        }),
{
    lemma_keys();
    lemma_kinds();
    let key = ItemKey::Text;
    let change = MessageChange::Text(delta);
    let started = s.with_turn(event);
    let t = s.stream_event(event, "stream_assistant_message_delta"@, now);
    assert(is_writing(started, id, m, items));
    let marked = lemma_change(started, event, id, m, items, change, now);
    if i < items.len() {
        assert(is_first(items, key, i));
        lemma_first(items, key, 0, i);
    } else {
        lemma_none(items, key, 0);
    }
    part_is_added_to_the_text(before, delta);
    let after = extended_text(before, delta);
    let list = items_with_text(items, after);
    let n = changed_message(marked, change);
    assert(items_of(marked) == items);
    assert(is_writing(t, id, n, list));
    assert(grows(before, delta, after));
}

/// A part of the arguments of a call is added to those of the call with its id; a call that
/// is new becomes an item of its own, behind the others. Other items stay as they are.
pub proof fn call_grows_by_its_parts(
    s: LiveView,
    event: JsonView,
    now: Seq<char>,
    id: Seq<char>,
    m: JsonView,
    items: Seq<JsonView>,
    i: int,
    call_id: Seq<char>,
    before: Seq<char>,
    delta: Seq<char>,
)
    requires
        event.text_field("message_id"@) == Some(id),
        event.text_field("call_id"@) == Some(call_id),
        event.text_field("delta"@) == Some(delta),
        call_id.len() > 0,
        is_writing(s, id, m, items),
        0 <= i <= items.len(),
        i < items.len() ==> items[i].text_field("type"@) == Some("tool_call"@)
            && items[i].text_field("tool_call_id"@) == Some(call_id) && items[i].text_field(
            "arguments"@,
        ) == Some(before),
        i == items.len() ==> before.len() == 0,
        forall|j: int|
            0 <= j < i ==> (#[trigger] items[j]).text_field("type"@) != Some("tool_call"@)
                || items[j].text_field("tool_call_id"@) != Some(call_id),
    ensures
        ({
            let t = s.stream_event(event, "stream_tool_call_delta"@, now);
            exists|n: JsonView, list: Seq<JsonView>, after: Seq<char>|
                {
                    &&& #[trigger] is_writing(t, id, n, list)
                    &&& #[trigger] grows(before, delta, after)
                    &&& list.len() == (if i < items.len() {
                        items.len()
                    } else {
                        items.len() + 1
                    })
                    &&& forall|j: int|
                        0 <= j < items.len() && j != i ==> #[trigger] list[j] == items[j]
                    &&& list[i].text_field("type"@) == Some("tool_call"@)
                    &&& list[i].text_field("tool_call_id"@) == Some(call_id)
                    &&& list[i].text_field("arguments"@) == Some(after)
                    &&& i < items.len() ==> list[i].field("tool_name"@) == items[i].field(
                        "tool_name"@,
                    )
                    &&& n.field("text"@) == m.field("text"@)
                }
        }),
{
    lemma_keys();
    lemma_kinds();
    let key = ItemKey::ToolCall(call_id);
    let item_id = super::live_model::or_empty(event.text_field("item_id"@));
    let change = MessageChange::Call(call_id, item_id, delta);
    let started = s.with_turn(event);
    let t = s.stream_event(event, "stream_tool_call_delta"@, now);
    assert(is_writing(started, id, m, items));
    let marked = lemma_change(started, event, id, m, items, change, now);
    let after = extended_text(before, delta);
    if i < items.len() {
        assert(is_first(items, key, i));
        lemma_first(items, key, 0, i);
    } else {
        lemma_none(items, key, 0);
        assert(after == delta);
    }
    part_is_added_to_the_text(before, delta);
    let list = items_with_call(items, call_id, item_id, delta);
    let n = changed_message(marked, change);
    assert(items_of(marked) == items);
    assert(is_writing(t, id, n, list));
    assert(grows(before, delta, after));
}

/// The first part of an answer begins a new message of the assistant that shows the part and
/// nothing of the message before it.
pub proof fn another_answer_begins_anew(
    s: LiveView,
    event: JsonView,
    now: Seq<char>,
    id: Seq<char>,
    turn_id: Seq<char>,
    delta: Seq<char>,
)
    requires
        event.text_field("message_id"@) == Some(id),
        event.text_field("turn_id"@) == Some(turn_id),
        event.text_field("delta"@) == Some(delta),
        delta.len() > 0,
        s.provisional matches Some(p) ==> p.text_field("message_id"@) != Some(id),
    ensures
        ({
            let t = s.stream_event(event, "stream_assistant_message_delta"@, now);
            &&& t.turn_id() == Some(turn_id)
            &&& t.summary() == "running"@
            &&& exists|n: JsonView, item: JsonView|
                {
                    &&& #[trigger] is_writing(t, id, n, seq![item])
                    &&& n.text_field("id"@) == Some(id)
                    &&& n.text_field("message_id"@) == Some(id)
                    &&& n.text_field("role"@) == Some("assistant"@)
                    &&& n.text_field("message_time"@) == Some(now)
                    &&& n.text_field("_streamTurnId"@) == Some(turn_id)
                    &&& n.bool_field("_streaming"@) == Some(true)
                    &&& n.text_field("text"@) == Some(delta)
                    &&& n.text_field("preview"@) == Some(delta)
                    &&& item.text_field("type"@) == Some("text"@)
                    &&& item.text_field("text"@) == Some(delta)
                }
        }),
{
    lemma_keys();
    lemma_kinds();
    lemma_blank_keys();
    reveal_strlit("");
    assert(""@ =~= Seq::<char>::empty());
    let t = s.stream_event(event, "stream_assistant_message_delta"@, now);
    let index = event.unsigned_field("message_index"@);
    let none = Seq::<JsonView>::empty();
    let fresh = super::live_model::blank_message(id, turn_id, index, now);
    let marked = marked_message(fresh, id, turn_id, index);
    let n = changed_message(marked, MessageChange::Text(delta));
    assert(items_of(marked) == none);
    lemma_none(none, ItemKey::Text, 0);
    let list = items_with_text(none, delta);
    assert(list =~= seq![list[0]]);
    assert(is_writing(t, id, n, seq![list[0]]));
}

proof fn lemma_blank_keys()
    ensures
        mark("items"@) == 106854981,
        mark("attachments"@) == 110000203,
        mark("attachment_count"@) == 116299856,
        mark("message_time"@) == 106740556,
        mark("text"@) == 126786820,
        mark("preview"@) == 124713991,
        mark("content"@) == 122591431,
        mark("text_with_attachment_markers"@) == 104758556,
        mark("id"@) == 105683522,
        mark("message_id"@) == 108829514,
        mark("role"@) == 114080900,
        mark("index"@) == 105847365,
        mark("_streamTurnId"@) == 115120077,
        mark("_streaming"@) == 102561738,
{
    reveal_strlit("items");
    reveal_strlit("attachments");
    reveal_strlit("attachment_count");
    reveal_strlit("message_time");
    reveal_strlit("text");
    reveal_strlit("preview");
    reveal_strlit("content");
    reveal_strlit("text_with_attachment_markers");
    reveal_strlit("id");
    reveal_strlit("message_id");
    reveal_strlit("role");
    reveal_strlit("index");
    reveal_strlit("_streamTurnId");
    reveal_strlit("_streaming");
}

// ---------------------------------------------------------------------------
// Tools
// ---------------------------------------------------------------------------
proof fn lemma_tool_keys()
    ensures
        "turn_id"@ != "tool_result"@,
        "turn_id"@ != "committed"@,
        "tool_result"@ != "committed"@,
{
    reveal_strlit("turn_id");
    reveal_strlit("tool_result");
    reveal_strlit("committed");
    assert("turn_id"@.len() != "tool_result"@.len());
    assert("turn_id"@.len() != "committed"@.len());
    assert("tool_result"@.len() != "committed"@.len());
}

proof fn lemma_tool_index(tools: Seq<JsonView>, id: Seq<char>, from: int, i: int)
    requires
        0 <= from <= i <= tools.len(),
        i < tools.len() ==> tool_call_of(tools[i]) == Some(id),
        forall|j: int| 0 <= j < i ==> tool_call_of(#[trigger] tools[j]) != Some(id),
    ensures
        tool_index(tools, id, from) == i,
    decreases i - from,
{
    if from < i {
        assert(tool_call_of(tools[from]) != Some(id));
        lemma_tool_index(tools, id, from + 1, i);
    }
}

/// The result of a tool is shown once: it takes the place of an earlier result of the same
/// call, or comes behind the others. It is not yet committed.
pub proof fn result_of_a_call_is_shown_once(
    s: LiveView,
    event: JsonView,
    now: Seq<char>,
    result: JsonView,
    id: Seq<char>,
    i: int,
)
    requires
        event.field("tool_result"@) == Some(result),
        result.text_field("tool_call_id"@) == Some(id),
        0 <= i <= s.tools.len(),
        i < s.tools.len() ==> (s.tools[i].field("tool_result"@) matches Some(r) && r.text_field(
            "tool_call_id"@,
        ) == Some(id)),
        forall|j: int|
            0 <= j < i ==> ((#[trigger] s.tools[j]).field("tool_result"@) matches Some(r)
                ==> r.text_field("tool_call_id"@) != Some(id)),
    ensures
        ({
            let t = s.stream_event(event, "stream_tool_result_done"@, now);
            &&& t.tools.len() == (if i < s.tools.len() {
                s.tools.len()
            } else {
                s.tools.len() + 1
            })
            &&& t.tools[i].field("tool_result"@) == Some(result)
            &&& t.tools[i].bool_field("committed"@) == Some(false)
            &&& t.tools[i].text_field("turn_id"@) == Some(
                match event.text_field("turn_id"@) {
                    Some(turn) => turn,
                    None => Seq::empty(),
                },
            )
            &&& forall|j: int|
                0 <= j < s.tools.len() && j != i ==> #[trigger] t.tools[j] == s.tools[j]
            &&& t.provisional == s.provisional
            &&& t.turn == s.turn
            &&& t.queued == s.queued
        }),
{
    lemma_kinds();
    lemma_tool_keys();
    assert forall|j: int| 0 <= j < i implies tool_call_of(#[trigger] s.tools[j]) != Some(id) by {
        assert(s.tools[j].field("tool_result"@) matches Some(r) ==> r.text_field("tool_call_id"@)
            != Some(id));
    }
    lemma_tool_index(s.tools, id, 0, i);
}

/// A message that was logged is the last committed one, and is no longer being written; one
/// with another id goes on being written.
pub proof fn logged_message_is_committed(
    s: LiveView,
    message: JsonView,
    index: usize,
    from_user: bool,
    conversation_id: Seq<char>,
    id: Seq<char>,
)
    requires
        message.text_field("message_id"@) == Some(id),
    ensures
        ({
            let t = s.message_appended(message, index, from_user, conversation_id);
            &&& t.last_committed_id == Some(id)
            &&& t.last_committed_index == Some(index)
            &&& t.provisional == (match s.provisional {
                Some(p) => if p.text_field("message_id"@) == Some(id) {
                    None
                } else {
                    Some(p)
                },
                None => None,
            })
            &&& t.turn == s.turn
            &&& t.last_error == s.last_error
            &&& t.tools.len() == s.tools.len()
        }),
{
}

/// The result of a tool is committed by the message that holds it, and by no other.
pub proof fn result_is_committed_by_its_message(
    s: LiveView,
    message: JsonView,
    index: usize,
    from_user: bool,
    conversation_id: Seq<char>,
    items: Seq<JsonView>,
    k: int,
    r: JsonView,
    call: Seq<char>,
)
    requires
        message.field("items"@) == Some(JsonView::Array(items)),
        0 <= k < s.tools.len(),
        s.tools[k] is Object,
        s.tools[k].field("tool_result"@) == Some(r),
        r.text_field("tool_call_id"@) == Some(call),
    ensures
        ({
            let t = s.message_appended(message, index, from_user, conversation_id);
            &&& (exists|i: int|
                0 <= i < items.len() && (#[trigger] items[i]).text_field("type"@) == Some(
                    "tool_result"@,
                ) && items[i].text_field("tool_call_id"@) == Some(call))
                ==> t.tools[k].bool_field("committed"@) == Some(true)
            &&& (forall|i: int|
                0 <= i < items.len() ==> (#[trigger] items[i]).text_field("type"@) != Some(
                    "tool_result"@,
                ) || items[i].text_field("tool_call_id"@) != Some(call)) ==> t.tools[k]
                == s.tools[k]
            &&& t.tools[k].field("tool_result"@) == Some(r)
        }),
{
    lemma_tool_keys();
    let t = s.message_appended(message, index, from_user, conversation_id);
    assert(t.tools[k] == super::live_model::committed_tool(s.tools[k], message));
    assert(super::live_model::logged_items(message) == items);
}

/// A message of the user that was logged takes one waiting message of its conversation away,
/// the first; those of other conversations wait on.
pub proof fn logged_user_message_waits_no_longer(
    s: LiveView,
    message: JsonView,
    index: usize,
    conversation_id: Seq<char>,
    i: int,
)
    requires
        id_of_message(message) is None,
        0 <= i <= s.queued.len(),
        i < s.queued.len() ==> s.queued[i].text_field("conversation_id"@) == Some(conversation_id),
        forall|j: int|
            0 <= j < i ==> (#[trigger] s.queued[j]).text_field("conversation_id"@) != Some(
                conversation_id,
            ),
    ensures
        s.message_appended(message, index, true, conversation_id).queued == (if i
            < s.queued.len() {
            s.queued.remove(i)
        } else {
            s.queued
        }),
        s.message_appended(message, index, false, conversation_id).queued == s.queued,
{
    lemma_first_of(s.queued, conversation_id, 0, i);
}

proof fn lemma_first_of(queued: Seq<JsonView>, conversation_id: Seq<char>, from: int, i: int)
    requires
        0 <= from <= i <= queued.len(),
        i < queued.len() ==> queued[i].text_field("conversation_id"@) == Some(conversation_id),
        forall|j: int|
            0 <= j < i ==> (#[trigger] queued[j]).text_field("conversation_id"@) != Some(
                conversation_id,
            ),
    ensures
        super::live_model::first_of(queued, conversation_id, from) == i,
    decreases i - from,
{
    if from < i {
        assert(queued[from].text_field("conversation_id"@) != Some(conversation_id));
        lemma_first_of(queued, conversation_id, from + 1, i);
    }
}

/// The name of a tool is shown where a service did not make it up.
pub proof fn made_up_ids_are_no_names(t: Seq<char>, rest: Seq<char>)
    requires
        t.len() > 0,
        !crate::text::is_space(t[0]),
        !crate::text::is_space(t.last()),
    ensures
        readable_id(Seq::empty()) is None,
        t == "item_"@ + rest || t == "fc_"@ + rest || t == "call_"@ + rest ==> readable_id(t)
            is None,
        !"item_"@.is_prefix_of(t) && !"fc_"@.is_prefix_of(t) && !"call_"@.is_prefix_of(t)
            ==> readable_id(t) == Some(t),
{
    let e = Seq::<char>::empty();
    crate::text::trimming_drops_the_space_around(e, t, e);
    assert(e + t + e =~= t);
    crate::text::trimming_drops_the_space_around(e, e, e);
    assert(e + e + e =~= e);
    if t == "item_"@ + rest {
        assert(t.subrange(0, "item_"@.len() as int) =~= "item_"@);
    }
    if t == "fc_"@ + rest {
        assert(t.subrange(0, "fc_"@.len() as int) =~= "fc_"@);
    }
    if t == "call_"@ + rest {
        assert(t.subrange(0, "call_"@.len() as int) =~= "call_"@);
    }
}

// ---------------------------------------------------------------------------
// Turns
// ---------------------------------------------------------------------------
/// An event that names a turn and a message makes them the current ones; another event leaves
/// the turn as it is.
pub proof fn event_names_the_current_turn(
    s: LiveView,
    event: JsonView,
    turn: Seq<char>,
    message: Seq<char>,
)
    requires
        event.text_field("turn_id"@) == Some(turn),
        event.text_field("message_id"@) == Some(message),
    ensures
        ({
            let r = s.with_turn(event);
            &&& r.turn is Some
            &&& r.turn->0.text_field("turn_id"@) == Some(turn)
            &&& r.turn->0.text_field("message_id"@) == Some(message)
            &&& r.provisional == s.provisional
            &&& r.queued == s.queued
        }),
        s.with_turn(JsonView::empty_object()) == s,
{
    reveal_strlit("turn_id");
    reveal_strlit("message_id");
    assert("turn_id"@.len() != "message_id"@.len());
}

/// Reasoning that names no part belongs to the first.
pub proof fn reasoning_without_a_number_is_the_first_part(
    s: LiveView,
    event: JsonView,
    id: Seq<char>,
    delta: Seq<char>,
    now: Seq<char>,
)
    requires
        event.text_field("message_id"@) == Some(id),
        event.text_field("delta"@) == Some(delta),
        delta.len() > 0,
        event.signed_field("summary_index"@) is None,
    ensures
        s.reasoning_delta(event, now) == s.with_turn(event).with_change(
            event,
            id,
            MessageChange::Reasoning(0, delta),
            now,
        ),
{
}

} // verus!

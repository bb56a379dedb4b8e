//! Copies of messages and of what they are made of.

use vstd::prelude::*;
use crate::chat::{
    ChatMessage, ChatMessageItem, ContextItem, FileItem, FileState, ReasoningItem,
    SelectionContext, SelectionLocator, SelectionReferenceItem, ToolCallItem, ToolResultItem,
};
use crate::json::Json;
use crate::json_ops::{copy_array, opt_json};
use crate::text::opt_copy;
use crate::web::files::file_view;
use crate::web::selection::{file_views, item_view, item_views, selection_view, ItemView};

verus! {

pub fn copy_file(file: &FileItem) -> (r: FileItem)
    ensures
        file_view(r) == file_view(*file),
{
    FileItem {
        uri: file.uri.clone(),
        name: opt_copy(&file.name),
        media_type: opt_copy(&file.media_type),
        width: file.width,
        height: file.height,
        state: match &file.state {
            Some(FileState::Crashed { reason }) => Some(
                FileState::Crashed { reason: reason.clone() },
            ),
            None => None,
        },
    }
}

fn copy_files(files: &Vec<FileItem>) -> (r: Vec<FileItem>)
    ensures
        file_views(r@) == file_views(files@),
{
    let mut r: Vec<FileItem> = Vec::new();
    let mut i: usize = 0;
    while i < files.len()
        invariant
            i <= files@.len(),
            file_views(r@) =~= file_views(files@).take(i as int),
        decreases files@.len() - i,
    {
        let file: FileItem = copy_file(&files[i]);
        let ghost before = r@;
        r.push(file);
        assert(file_views(r@) =~= file_views(before).push(file_view(file)));
        i += 1;
    }
    assert(file_views(files@).take(files@.len() as int) =~= file_views(files@));
    r
}

pub fn copy_selection(s: &SelectionReferenceItem) -> (r: SelectionReferenceItem)
    ensures
        selection_view(r) == selection_view(*s),
{
    SelectionReferenceItem {
        file_path: s.file_path.clone(),
        source_kind: s.source_kind.clone(),
        selected_text: s.selected_text.clone(),
        original_text_length: s.original_text_length,
        file_name: opt_copy(&s.file_name),
        media_type: opt_copy(&s.media_type),
        locator: match &s.locator {
            Some(l) => Some(
                SelectionLocator {
                    kind: l.kind.clone(),
                    heading: opt_copy(&l.heading),
                    selector: opt_copy(&l.selector),
                    xpath: opt_copy(&l.xpath),
                    block_id: opt_copy(&l.block_id),
                    anchor_text: opt_copy(&l.anchor_text),
                    rects: copy_array(&l.rects),
                },
            ),
            None => None,
        },
        context: match &s.context {
            Some(c) => Some(
                SelectionContext { before: opt_copy(&c.before), after: opt_copy(&c.after) },
            ),
            None => None,
        },
    }
}

pub fn copy_opt_json(v: &Option<Json>) -> (r: Option<Json>)
    ensures
        opt_json(r) == opt_json(*v),
{
    match v {
        Some(j) => Some(j.copy()),
        None => None,
    }
}

/// An item without what only its model can read.
pub open spec fn readable_item(v: ItemView) -> ItemView {
    match v {
        ItemView::Reasoning { text, summary, .. } => ItemView::Reasoning {
            text,
            summary,
            encrypted: None,
        },
        other => other,
    }
}

fn copy_readable_item(item: &ChatMessageItem) -> (r: ChatMessageItem)
    ensures
        item_view(r) == readable_item(item_view(*item)),
{
    match item {
        ChatMessageItem::Reasoning(x) => ChatMessageItem::Reasoning(
            ReasoningItem {
                text: x.text.clone(),
                summary: opt_copy(&x.summary),
                encrypted_content: None,
            },
        ),
        ChatMessageItem::Context(c) => ChatMessageItem::Context(
            ContextItem { text: c.text.clone() },
        ),
        ChatMessageItem::SelectionReference(s) => ChatMessageItem::SelectionReference(
            copy_selection(s),
        ),
        ChatMessageItem::File(f) => ChatMessageItem::File(copy_file(f)),
        ChatMessageItem::ToolCall(c) => ChatMessageItem::ToolCall(
            ToolCallItem {
                tool_call_id: c.tool_call_id.clone(),
                tool_name: c.tool_name.clone(),
                arguments: c.arguments.clone(),
                value: copy_opt_json(&c.value),
            },
        ),
        ChatMessageItem::ToolResult(t) => ChatMessageItem::ToolResult(
            ToolResultItem {
                tool_call_id: t.tool_call_id.clone(),
                tool_name: t.tool_name.clone(),
                text: t.text.clone(),
                structured: copy_opt_json(&t.structured),
                files: copy_files(&t.files),
            },
        ),
    }
}

/// The items of a message, without what only its model can read.
pub fn web_chat_message_data(message: &ChatMessage) -> (r: Vec<ChatMessageItem>)
    ensures
        item_views(r@) == item_views(message.data@).map_values(|v: ItemView| readable_item(v)),
{
    let ghost expected = item_views(message.data@).map_values(|v: ItemView| readable_item(v));
    let mut r: Vec<ChatMessageItem> = Vec::new();
    let mut i: usize = 0;
    while i < message.data.len()
        invariant
            i <= message.data@.len(),
            expected.len() == message.data@.len(),
            forall|k: int|
                0 <= k < message.data@.len() ==> (#[trigger] expected[k]) == readable_item(
                    item_view(message.data@[k]),
                ),
            item_views(r@) =~= expected.take(i as int),
        decreases message.data@.len() - i,
    {
        let item: ChatMessageItem = copy_readable_item(&message.data[i]);
        assert(expected[i as int] == item_view(item));
        let ghost before = r@;
        r.push(item);
        assert(item_views(r@) =~= item_views(before).push(item_view(item)));
        i += 1;
    }
    assert(expected.take(expected.len() as int) =~= expected);
    r
}

} // verus!

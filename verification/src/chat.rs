//! Chat messages and the items that they are made of.

use vstd::prelude::*;
use crate::json::Json;

verus! {

#[derive(Clone, Copy, Debug, PartialEq, Eq, Structural)]
pub enum ChatRole {
    System,
    User,
    Assistant,
}

#[derive(Debug)]
pub struct ContextItem {
    pub text: String,
}

/// What a model thought; the summary is the text that it gave of its own.
#[derive(Debug)]
pub struct ReasoningItem {
    pub text: String,
    pub summary: Option<String>,
    pub encrypted_content: Option<String>,
}

#[derive(Debug)]
pub enum FileState {
    Crashed { reason: String },
}

#[derive(Debug)]
pub struct FileItem {
    pub uri: String,
    pub name: Option<String>,
    pub media_type: Option<String>,
    pub width: Option<u32>,
    pub height: Option<u32>,
    pub state: Option<FileState>,
}

/// Where in a file a selection stands.
#[derive(Debug)]
pub struct SelectionLocator {
    pub kind: String,
    pub heading: Option<String>,
    pub selector: Option<String>,
    pub xpath: Option<String>,
    pub block_id: Option<String>,
    pub anchor_text: Option<String>,
    pub rects: Vec<Json>,
}

/// The text around a selection.
#[derive(Debug)]
pub struct SelectionContext {
    pub before: Option<String>,
    pub after: Option<String>,
}

/// A part of a file that a message refers to.
#[derive(Debug)]
pub struct SelectionReferenceItem {
    pub file_path: String,
    pub source_kind: String,
    pub selected_text: String,
    pub original_text_length: Option<u32>,
    pub file_name: Option<String>,
    pub media_type: Option<String>,
    pub locator: Option<SelectionLocator>,
    pub context: Option<SelectionContext>,
}

/// A call of a tool; `value` is what the arguments stand for, where they are JSON.
#[derive(Debug)]
pub struct ToolCallItem {
    pub tool_call_id: String,
    pub tool_name: String,
    pub arguments: String,
    pub value: Option<Json>,
}

/// The result of a tool: its text, its structured value and its files.
#[derive(Debug)]
pub struct ToolResultItem {
    pub tool_call_id: String,
    pub tool_name: String,
    pub text: String,
    pub structured: Option<Json>,
    pub files: Vec<FileItem>,
}

#[derive(Debug)]
pub enum ChatMessageItem {
    Reasoning(ReasoningItem),
    Context(ContextItem),
    SelectionReference(SelectionReferenceItem),
    File(FileItem),
    ToolCall(ToolCallItem),
    ToolResult(ToolResultItem),
}

/// The tokens that a message took. The costs are kept as they came.
#[derive(Debug)]
pub struct TokenUsage {
    pub cache_read: u64,
    pub cache_write: u64,
    pub uncache_input: u64,
    pub output: u64,
    pub cost_usd: Option<Json>,
}

#[derive(Debug)]
pub struct ChatMessage {
    pub message_id: String,
    pub role: ChatRole,
    pub user_name: Option<String>,
    pub message_time: Option<String>,
    pub token_usage: Option<TokenUsage>,
    pub data: Vec<ChatMessageItem>,
}

} // verus!

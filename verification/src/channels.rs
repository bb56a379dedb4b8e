//! What channels take in and give out.

use vstd::prelude::*;
use crate::chat::{ChatMessage, FileItem, SelectionReferenceItem};
use crate::config::SandboxMode;
use crate::json::Json;
use crate::text::{cat3, opt_view, text_eq, trim, trimmed};
use crate::words::{lower_seq, to_lower};

verus! {

#[derive(Debug)]
pub struct IncomingConversationMessage {
    pub remote_message_id: String,
    pub user_name: Option<String>,
    pub message_time: Option<String>,
    pub text: Option<String>,
    pub selection_references: Vec<SelectionReferenceItem>,
    pub files: Vec<FileItem>,
    pub control: Option<ConversationControl>,
}

/// What a user can ask of a conversation besides talking to it.
#[derive(Debug)]
pub enum ConversationControl {
    Continue,
    Cancel,
    Compact,
    ShowStatus,
    ShowModel,
    SwitchModel { model_name: String },
    ShowReasoning,
    SetReasoning { effort: Option<String> },
    InvalidReasoning { reason: String },
    ShowRemote,
    SetRemote { host: String, path: String },
    DisableRemote,
    InvalidRemote { reason: String },
    ShowSandbox,
    SetSandbox { mode: Option<SandboxMode> },
    InvalidSandbox { reason: String },
}

pub enum ControlView {
    Continue,
    Cancel,
    Compact,
    ShowStatus,
    ShowModel,
    SwitchModel { model_name: Seq<char> },
    ShowReasoning,
    SetReasoning { effort: Option<Seq<char>> },
    InvalidReasoning { reason: Seq<char> },
    ShowRemote,
    SetRemote { host: Seq<char>, path: Seq<char> },
    DisableRemote,
    InvalidRemote { reason: Seq<char> },
    ShowSandbox,
    SetSandbox { mode: Option<SandboxMode> },
    InvalidSandbox { reason: Seq<char> },
}

impl ConversationControl {
    pub open spec fn view(self) -> ControlView {
        match self {
            ConversationControl::Continue => ControlView::Continue,
            ConversationControl::Cancel => ControlView::Cancel,
            ConversationControl::Compact => ControlView::Compact,
            ConversationControl::ShowStatus => ControlView::ShowStatus,
            ConversationControl::ShowModel => ControlView::ShowModel,
            ConversationControl::SwitchModel { model_name } => ControlView::SwitchModel {
                model_name: model_name@,
            },
            ConversationControl::ShowReasoning => ControlView::ShowReasoning,
            ConversationControl::SetReasoning { effort } => ControlView::SetReasoning {
                effort: opt_view(effort),
            },
            ConversationControl::InvalidReasoning { reason } => ControlView::InvalidReasoning {
                reason: reason@,
            },
            ConversationControl::ShowRemote => ControlView::ShowRemote,
            ConversationControl::SetRemote { host, path } => ControlView::SetRemote {
                host: host@,
                path: path@,
            },
            ConversationControl::DisableRemote => ControlView::DisableRemote,
            ConversationControl::InvalidRemote { reason } => ControlView::InvalidRemote {
                reason: reason@,
            },
            ConversationControl::ShowSandbox => ControlView::ShowSandbox,
            ConversationControl::SetSandbox { mode } => ControlView::SetSandbox { mode },
            ConversationControl::InvalidSandbox { reason } => ControlView::InvalidSandbox {
                reason: reason@,
            },
        }
    }
}

pub open spec fn opt_control(c: Option<ConversationControl>) -> Option<ControlView> {
    match c {
        Some(c) => Some(c@),
        None => None,
    }
}

/// Whether the word asks for the effort that a model has by itself.
pub open spec fn is_default_effort(w: Seq<char>) -> bool {
    w == "default"@ || w == "model"@ || w == "model_default"@ || w == "model-default"@ || w
        == "global"@
}

pub open spec fn is_effort(w: Seq<char>) -> bool {
    w == "minimal"@ || w == "low"@ || w == "medium"@ || w == "high"@ || w == "xhigh"@
}

pub fn names_default_effort(w: &str) -> (b: bool)
    ensures
        b == is_default_effort(w@),
{
    text_eq(w, "default") || text_eq(w, "model") || text_eq(w, "model_default") || text_eq(
        w,
        "model-default",
    ) || text_eq(w, "global")
}

pub fn names_effort(w: &str) -> (b: bool)
    ensures
        b == is_effort(w@),
{
    text_eq(w, "minimal") || text_eq(w, "low") || text_eq(w, "medium") || text_eq(w, "high")
        || text_eq(w, "xhigh")
}

/// What is asked of the reasoning effort.
pub open spec fn reasoning_control(argument: Seq<char>) -> ControlView {
    let a = trimmed(argument);
    if a.len() == 0 {
        ControlView::ShowReasoning
    } else if is_default_effort(lower_seq(a)) {
        ControlView::SetReasoning { effort: None }
    } else if is_effort(lower_seq(a)) {
        ControlView::SetReasoning { effort: Some(lower_seq(a)) }
    } else {
        ControlView::InvalidReasoning { reason: "未知 reasoning effort `"@ + a + "`。"@ }
    }
}

pub fn parse_reasoning_control_argument(argument: &str) -> (r: ConversationControl)
    ensures
        r@ == reasoning_control(argument@),
{
    let argument: &str = trim(argument);
    if argument.is_empty() {
        return ConversationControl::ShowReasoning;
    }
    let lower: String = to_lower(argument);
    if names_default_effort(lower.as_str()) {
        ConversationControl::SetReasoning { effort: None }
    } else if names_effort(lower.as_str()) {
        ConversationControl::SetReasoning { effort: Some(lower) }
    } else {
        ConversationControl::InvalidReasoning {
            reason: cat3("未知 reasoning effort `", argument, "`。"),
        }
    }
}

#[derive(Debug)]
pub struct IncomingMessageDispatch {
    pub channel_id: String,
    pub platform_chat_id: String,
    pub conversation_id: String,
    pub message: IncomingConversationMessage,
}

#[derive(Clone, Copy, Debug, PartialEq, Eq, Structural)]
pub enum OutgoingAttachmentKind {
    Image,
    Audio,
    Voice,
    Video,
    Animation,
    Document,
}

/// The name of a kind of attachment.
pub open spec fn kind_name(kind: OutgoingAttachmentKind) -> Seq<char> {
    match kind {
        OutgoingAttachmentKind::Image => "image"@,
        OutgoingAttachmentKind::Audio => "audio"@,
        OutgoingAttachmentKind::Voice => "voice"@,
        OutgoingAttachmentKind::Video => "video"@,
        OutgoingAttachmentKind::Animation => "animation"@,
        OutgoingAttachmentKind::Document => "document"@,
    }
}

pub fn kind_label(kind: OutgoingAttachmentKind) -> (r: &'static str)
    ensures
        r@ == kind_name(kind),
{
    match kind {
        OutgoingAttachmentKind::Image => "image",
        OutgoingAttachmentKind::Audio => "audio",
        OutgoingAttachmentKind::Voice => "voice",
        OutgoingAttachmentKind::Video => "video",
        OutgoingAttachmentKind::Animation => "animation",
        OutgoingAttachmentKind::Document => "document",
    }
}

#[derive(Debug)]
pub struct OutgoingAttachment {
    pub path: String,
    pub kind: OutgoingAttachmentKind,
}

#[derive(Debug)]
pub struct OutgoingOption {
    pub label: String,
    pub value: String,
}

#[derive(Debug)]
pub struct OutgoingOptions {
    pub prompt: String,
    pub options: Vec<OutgoingOption>,
}

#[derive(Debug)]
pub struct OutgoingDelivery {
    pub channel_id: String,
    pub platform_chat_id: String,
    pub conversation_id: String,
    pub session_id: Option<String>,
    pub message: Option<ChatMessage>,
    pub text: String,
    pub attachments: Vec<OutgoingAttachment>,
    pub options: Option<OutgoingOptions>,
}

#[derive(Debug)]
pub struct OutgoingMessageAppended {
    pub channel_id: String,
    pub platform_chat_id: String,
    pub conversation_id: String,
    pub session_id: String,
    pub index: usize,
    pub message: ChatMessage,
}

#[derive(Debug)]
pub struct OutgoingSessionStream {
    pub channel_id: String,
    pub platform_chat_id: String,
    pub conversation_id: String,
    pub session_id: String,
    pub event: Json,
}

#[derive(Clone, Copy, Debug, PartialEq, Eq, Structural)]
pub enum OutgoingErrorScope {
    Turn,
    Runtime,
    Control,
    Configuration,
    RemoteWorkspace,
    Sandbox,
    Attachment,
    Delivery,
    BackgroundSession,
    Subagent,
}

#[derive(Clone, Copy, Debug, PartialEq, Eq, Structural)]
pub enum OutgoingErrorSeverity {
    Info,
    Warning,
    Error,
}

#[derive(Debug)]
pub struct OutgoingError {
    pub channel_id: String,
    pub platform_chat_id: String,
    pub conversation_id: String,
    pub scope: OutgoingErrorScope,
    pub severity: OutgoingErrorSeverity,
    pub code: String,
    pub message: String,
    pub detail: Option<Json>,
    pub can_continue: bool,
    pub suggested_action: Option<String>,
}

#[derive(Clone, Copy, Debug, PartialEq, Eq, Structural)]
pub enum ProcessingState {
    Idle,
    Typing,
}

pub open spec fn processing_name(state: ProcessingState) -> Seq<char> {
    match state {
        ProcessingState::Idle => "idle"@,
        ProcessingState::Typing => "typing"@,
    }
}

pub fn processing_state_name(state: ProcessingState) -> (r: &'static str)
    ensures
        r@ == processing_name(state),
{
    match state {
        ProcessingState::Idle => "idle",
        ProcessingState::Typing => "typing",
    }
}

#[derive(Debug)]
pub struct OutgoingProcessing {
    pub channel_id: String,
    pub platform_chat_id: String,
    pub state: ProcessingState,
}

#[derive(Debug)]
pub enum ChannelEvent {
    Delivery(OutgoingDelivery),
    MessageAppended(OutgoingMessageAppended),
    SessionStream(OutgoingSessionStream),
    Processing(OutgoingProcessing),
    Error(OutgoingError),
}

impl ChannelEvent {
    /// The channel that the event goes to.
    pub fn channel_id(&self) -> (r: &str)
        ensures
            r@ == match *self {
                ChannelEvent::Delivery(e) => e.channel_id@,
                ChannelEvent::MessageAppended(e) => e.channel_id@,
                ChannelEvent::SessionStream(e) => e.channel_id@,
                ChannelEvent::Processing(e) => e.channel_id@,
                ChannelEvent::Error(e) => e.channel_id@,
            },
    {
        match self {
            ChannelEvent::Delivery(e) => e.channel_id.as_str(),
            ChannelEvent::MessageAppended(e) => e.channel_id.as_str(),
            ChannelEvent::SessionStream(e) => e.channel_id.as_str(),
            ChannelEvent::Processing(e) => e.channel_id.as_str(),
            ChannelEvent::Error(e) => e.channel_id.as_str(),
        }
    }

    /// The chat on the platform that the event goes to.
    pub fn platform_chat_id(&self) -> (r: &str)
        ensures
            r@ == match *self {
                ChannelEvent::Delivery(e) => e.platform_chat_id@,
                ChannelEvent::MessageAppended(e) => e.platform_chat_id@,
                ChannelEvent::SessionStream(e) => e.platform_chat_id@,
                ChannelEvent::Processing(e) => e.platform_chat_id@,
                ChannelEvent::Error(e) => e.platform_chat_id@,
            },
    {
        match self {
            ChannelEvent::Delivery(e) => e.platform_chat_id.as_str(),
            ChannelEvent::MessageAppended(e) => e.platform_chat_id.as_str(),
            ChannelEvent::SessionStream(e) => e.platform_chat_id.as_str(),
            ChannelEvent::Processing(e) => e.platform_chat_id.as_str(),
            ChannelEvent::Error(e) => e.platform_chat_id.as_str(),
        }
    }
}

#[derive(Debug)]
pub enum OutgoingDispatch {
    Event(ChannelEvent),
}

} // verus!

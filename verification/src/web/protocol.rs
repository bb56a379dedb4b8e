//! What clients are told: snapshots, and the events that follow them.

use vstd::prelude::*;
use vstd::std_specs::convert::FromSpecImpl;
use crate::chat::{ChatMessage, ToolResultItem};
use crate::json::Json;

verus! {

/// The path of the connection that shows all conversations.
pub const HOME_WS_PATH: &'static str = "/api/ws/home";

/// The time between two signs of life on a connection.
pub const HEARTBEAT_INTERVAL_SECS: u64 = 30;

#[derive(Debug)]
pub struct WebHeartbeat {
    pub server_time: String,
}

/// All conversations, as a client sees them when it connects.
#[derive(Debug)]
pub struct HomeSnapshot {
    pub kind: String,
    pub seq: u64,
    pub server_time: String,
    pub conversations: Vec<HomeConversationSummary>,
}

#[derive(Debug)]
pub struct HomeConversationSummary {
    pub conversation_id: String,
    pub conversation_name: String,
    pub updated_at: Option<String>,
    pub last_committed_message_id: Option<String>,
    pub last_committed_message_index: Option<usize>,
    pub last_message_preview: Option<String>,
    pub foreground_sessions: Vec<HomeForegroundSessionSummary>,
}

#[derive(Debug)]
pub struct HomeForegroundSessionSummary {
    pub foreground_session_id: String,
    pub session_name: String,
    pub state: HomeForegroundSessionState,
    pub active_turn_id: Option<String>,
    pub last_committed_message_id: Option<String>,
    pub last_committed_message_index: Option<usize>,
    pub last_activity_at: Option<String>,
    pub last_seen_message_id: Option<String>,
    pub last_seen_at: Option<String>,
}

#[derive(Clone, Copy, Debug, PartialEq, Eq, Structural)]
pub enum HomeForegroundSessionState {
    Idle,
    Queued,
    Running,
    Failed,
}

/// The state that a session of an agent is in.
#[derive(Clone, Copy, Debug, PartialEq, Eq, Structural)]
pub enum AgentSessionState {
    Idle,
    Running,
    Stopping,
    Stopped,
    Crashed,
}

/// The state of a session, as clients are told.
pub open spec fn shown_state(value: AgentSessionState) -> HomeForegroundSessionState {
    match value {
        AgentSessionState::Running => HomeForegroundSessionState::Running,
        AgentSessionState::Stopping => HomeForegroundSessionState::Running,
        AgentSessionState::Crashed => HomeForegroundSessionState::Failed,
        AgentSessionState::Idle => HomeForegroundSessionState::Idle,
        AgentSessionState::Stopped => HomeForegroundSessionState::Idle,
    }
}

impl From<AgentSessionState> for HomeForegroundSessionState {
    fn from(value: AgentSessionState) -> (r: Self) {
        match value {
            AgentSessionState::Running => HomeForegroundSessionState::Running,
            AgentSessionState::Stopping => HomeForegroundSessionState::Running,
            AgentSessionState::Crashed => HomeForegroundSessionState::Failed,
            AgentSessionState::Idle => HomeForegroundSessionState::Idle,
            AgentSessionState::Stopped => HomeForegroundSessionState::Idle,
        }
    }
}

impl FromSpecImpl<AgentSessionState> for HomeForegroundSessionState {
    open spec fn obeys_from_spec() -> bool {
        true
    }

    open spec fn from_spec(value: AgentSessionState) -> Self {
        shown_state(value)
    }
}

/// An event on the connection that shows all conversations.
#[derive(Debug)]
pub enum HomeEvent {
    ConversationUpserted { seq: u64, conversation: HomeConversationSummary },
    ConversationUpdated { seq: u64, conversation_id: String, patch: Json },
    ConversationDeleted { seq: u64, conversation_id: String },
    ForegroundSessionUpserted {
        seq: u64,
        conversation_id: String,
        foreground_session: HomeForegroundSessionSummary,
    },
    ForegroundSessionUpdated {
        seq: u64,
        conversation_id: String,
        foreground_session_id: String,
        patch: Json,
    },
    ForegroundSessionDeleted { seq: u64, conversation_id: String, foreground_session_id: String },
    ForegroundSessionStateUpdated {
        seq: u64,
        conversation_id: String,
        foreground_session_id: String,
        state: HomeForegroundSessionState,
        active_turn_id: Option<String>,
    },
    ForegroundSessionSeenStateUpdated {
        seq: u64,
        conversation_id: String,
        foreground_session_id: String,
        last_seen_message_id: Option<String>,
        last_seen_at: Option<String>,
    },
    Heartbeat(WebHeartbeat),
    Error { seq: u64, code: String, message: String, detail: Option<Json> },
}

/// A session, as a client sees it when it connects.
#[derive(Debug)]
pub struct ChatSnapshot {
    pub kind: String,
    pub conversation_id: String,
    pub foreground_session_id: String,
    pub last_committed_message_id: Option<String>,
    pub last_committed_message_index: Option<usize>,
    pub current_turn_state: Option<ChatTurnState>,
    pub current_provisional_assistant_message: Option<ChatProvisionalMessage>,
    pub running_tool_results: Vec<ChatToolResultState>,
    pub queued_outbound_messages: Vec<QueuedOutboundMessage>,
}

#[derive(Debug)]
pub struct ChatTurnState {
    pub turn_id: String,
    pub message_id: Option<String>,
}

/// The message that is being written.
#[derive(Debug)]
pub struct ChatProvisionalMessage {
    pub turn_id: String,
    pub message_id: String,
    pub message: ChatMessage,
}

#[derive(Debug)]
pub struct ChatToolResultState {
    pub turn_id: String,
    pub tool_result: ToolResultItem,
    pub committed: bool,
}

/// A message of the user that waits.
#[derive(Debug)]
pub struct QueuedOutboundMessage {
    pub client_message_id: String,
    pub conversation_id: String,
    pub foreground_session_id: String,
}

/// An event on the connection that shows one session.
#[derive(Debug)]
pub enum ChatEvent {
    UserMessageQueued {
        client_message_id: String,
        conversation_id: String,
        foreground_session_id: String,
        message_id: Option<String>,
        message: Option<ChatMessage>,
    },
    UserMessageStarted {
        conversation_id: String,
        foreground_session_id: String,
        origin: Json,
        ingress_id: Option<String>,
        message: ChatMessage,
    },
    UserMessageCommitted {
        conversation_id: String,
        foreground_session_id: String,
        message_index: usize,
        message_id: String,
        committed: bool,
        message: ChatMessage,
    },
    MessageAppended {
        conversation_id: String,
        foreground_session_id: String,
        message_index: usize,
        message_id: String,
        committed: bool,
        message: ChatMessage,
        turn_id: Option<String>,
    },
    StreamToolResultDone {
        conversation_id: String,
        foreground_session_id: String,
        turn_id: String,
        batch_id: String,
        tool_result: ToolResultItem,
    },
    StreamTurnStart {
        conversation_id: String,
        foreground_session_id: String,
        turn_id: String,
        plan: Option<Json>,
    },
    StreamAssistantMessageDelta {
        conversation_id: String,
        foreground_session_id: String,
        message_id: String,
        next_message_id: String,
        turn_id: String,
        in_message_index: u64,
        item_id: Option<String>,
        delta: String,
        message_index: Option<usize>,
    },
    StreamToolCallDelta {
        conversation_id: String,
        foreground_session_id: String,
        message_id: String,
        next_message_id: String,
        turn_id: String,
        in_message_index: u64,
        item_id: String,
        call_id: Option<String>,
        delta: String,
    },
    StreamReasoningSummaryPartAdded {
        conversation_id: String,
        foreground_session_id: String,
        message_id: String,
        next_message_id: String,
        turn_id: String,
        in_message_index: u64,
        item_id: Option<String>,
        summary_index: i64,
    },
    StreamReasoningSummaryDelta {
        conversation_id: String,
        foreground_session_id: String,
        message_id: String,
        next_message_id: String,
        turn_id: String,
        in_message_index: u64,
        item_id: Option<String>,
        summary_index: i64,
        delta: String,
    },
    StreamError {
        conversation_id: String,
        foreground_session_id: String,
        message_id: String,
        next_message_id: String,
        turn_id: String,
        in_message_index: u64,
        item_id: Option<String>,
        message_index: Option<usize>,
        error: String,
        error_detail: Json,
    },
    StreamTurnDone {
        conversation_id: String,
        foreground_session_id: String,
        message: ChatMessage,
    },
    PlanUpdated { conversation_id: String, foreground_session_id: String, plan: Option<Json> },
    Heartbeat(WebHeartbeat),
}

impl HomeForegroundSessionState {
    pub open spec fn name_view(self) -> Seq<char> {
        match self {
            HomeForegroundSessionState::Idle => "idle"@,
            HomeForegroundSessionState::Queued => "queued"@,
            HomeForegroundSessionState::Running => "running"@,
            HomeForegroundSessionState::Failed => "failed"@,
        }
    }

    /// The state as it is written in an event.
    pub fn name(&self) -> (r: &'static str)
        ensures
            r@ == self.name_view(),
    {
        match self {
            HomeForegroundSessionState::Idle => "idle",
            HomeForegroundSessionState::Queued => "queued",
            HomeForegroundSessionState::Running => "running",
            HomeForegroundSessionState::Failed => "failed",
        }
    }
}

impl HomeEvent {
    pub open spec fn type_view(self) -> Seq<char> {
        match self {
            HomeEvent::ConversationUpserted { .. } => "home.conversation_upserted"@,
            HomeEvent::ConversationUpdated { .. } => "home.conversation_updated"@,
            HomeEvent::ConversationDeleted { .. } => "home.conversation_deleted"@,
            HomeEvent::ForegroundSessionUpserted { .. } => "home.foreground_session_upserted"@,
            HomeEvent::ForegroundSessionUpdated { .. } => "home.foreground_session_updated"@,
            HomeEvent::ForegroundSessionDeleted { .. } => "home.foreground_session_deleted"@,
            HomeEvent::ForegroundSessionStateUpdated { .. } =>
                "home.foreground_session_state_updated"@,
            HomeEvent::ForegroundSessionSeenStateUpdated { .. } =>
                "home.foreground_session_seen_state_updated"@,
            HomeEvent::Heartbeat(_) => "home.heartbeat"@,
            HomeEvent::Error { .. } => "home.error"@,
        }
    }

    /// The kind of an event as it is written in it.
    pub fn wire_type(&self) -> (r: &'static str)
        ensures
            r@ == self.type_view(),
    {
        match self {
            HomeEvent::ConversationUpserted { .. } => "home.conversation_upserted",
            HomeEvent::ConversationUpdated { .. } => "home.conversation_updated",
            HomeEvent::ConversationDeleted { .. } => "home.conversation_deleted",
            HomeEvent::ForegroundSessionUpserted { .. } => "home.foreground_session_upserted",
            HomeEvent::ForegroundSessionUpdated { .. } => "home.foreground_session_updated",
            HomeEvent::ForegroundSessionDeleted { .. } => "home.foreground_session_deleted",
            HomeEvent::ForegroundSessionStateUpdated { .. } =>
                "home.foreground_session_state_updated",
            HomeEvent::ForegroundSessionSeenStateUpdated { .. } =>
                "home.foreground_session_seen_state_updated",
            HomeEvent::Heartbeat(_) => "home.heartbeat",
            HomeEvent::Error { .. } => "home.error",
        }
    }
}

impl ChatEvent {
    pub open spec fn type_view(self) -> Seq<char> {
        match self {
            ChatEvent::UserMessageQueued { .. } => "chat.user_message_queued"@,
            ChatEvent::UserMessageStarted { .. } => "chat.user_message_started"@,
            ChatEvent::UserMessageCommitted { .. } => "chat.user_message_committed"@,
            ChatEvent::MessageAppended { .. } => "chat.message_appended"@,
            ChatEvent::StreamToolResultDone { .. } => "chat.stream_tool_result_done"@,
            ChatEvent::StreamTurnStart { .. } => "chat.stream_turn_start"@,
            ChatEvent::StreamAssistantMessageDelta { .. } => "chat.stream_assistant_message_delta"@,
            ChatEvent::StreamToolCallDelta { .. } => "chat.stream_tool_call_delta"@,
            ChatEvent::StreamReasoningSummaryPartAdded { .. } =>
                "chat.stream_reasoning_summary_part_added"@,
            ChatEvent::StreamReasoningSummaryDelta { .. } => "chat.stream_reasoning_summary_delta"@,
            ChatEvent::StreamError { .. } => "chat.stream_error"@,
            ChatEvent::StreamTurnDone { .. } => "chat.stream_turn_done"@,
            ChatEvent::PlanUpdated { .. } => "chat.plan_updated"@,
            ChatEvent::Heartbeat(_) => "chat.heartbeat"@,
        }
    }

    /// The kind of an event as it is written in it.
    pub fn wire_type(&self) -> (r: &'static str)
        ensures
            r@ == self.type_view(),
    {
        match self {
            ChatEvent::UserMessageQueued { .. } => "chat.user_message_queued",
            ChatEvent::UserMessageStarted { .. } => "chat.user_message_started",
            ChatEvent::UserMessageCommitted { .. } => "chat.user_message_committed",
            ChatEvent::MessageAppended { .. } => "chat.message_appended",
            ChatEvent::StreamToolResultDone { .. } => "chat.stream_tool_result_done",
            ChatEvent::StreamTurnStart { .. } => "chat.stream_turn_start",
            ChatEvent::StreamAssistantMessageDelta { .. } => "chat.stream_assistant_message_delta",
            ChatEvent::StreamToolCallDelta { .. } => "chat.stream_tool_call_delta",
            ChatEvent::StreamReasoningSummaryPartAdded { .. } =>
                "chat.stream_reasoning_summary_part_added",
            ChatEvent::StreamReasoningSummaryDelta { .. } => "chat.stream_reasoning_summary_delta",
            ChatEvent::StreamError { .. } => "chat.stream_error",
            ChatEvent::StreamTurnDone { .. } => "chat.stream_turn_done",
            ChatEvent::PlanUpdated { .. } => "chat.plan_updated",
            ChatEvent::Heartbeat(_) => "chat.heartbeat",
        }
    }
}

} // verus!

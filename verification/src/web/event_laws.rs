//! Laws of what clients are told: every event and every summary carries what it is about.

use vstd::prelude::*;
use crate::channels::{
    processing_name, OutgoingDelivery, OutgoingError, OutgoingMessageAppended, OutgoingSessionStream,
    ProcessingState,
};
use crate::chat::ChatRole;
use crate::config::{SandboxMode, StellaclawConfig};
use crate::encoding::base64_of;
use crate::json::JsonView;
use crate::json_ops::opt_json;
use crate::progress::ProgressFeedbackFinalState;
use crate::text::{mark, opt_view};
use super::conversations::{delivery_payload, logged_payload, nested_payload, page_payload};
use super::frame::ClientWebSocketFrame;
use super::history::{ConversationMessageSummary, MessageOrder, MessageSummary, order_of};
use super::ids::{public_type, route_or_self, storage_id, ConversationMetadata};
use super::lists::page_of;
use super::live::public_payload;
use super::live_model::LiveView;
use super::main_state::{
    appended_payload, error_payload, queued_payload, seen_payload, state_payload, stream_kind,
    ConversationSeen, EffectView, MainView, WebMainCommand,
};
use super::session_book::{listening_key, BookEffectView, BookView};
use super::session_terminal::{
    closed_message, control_step, failed_message, frame_step, joined_messages, missed_message, output_message, service_step, snapshot_message,
    StepView,
};
use super::single_session::{
    ack_payload, addressed, error_fields, last_is_unread, scope_name, severity_name,
    turn_completed_payload, WebChannelBook,
};
use super::summary::{
    conversation_payload, model_label, models_payload, reasoning_label, session_name,
    session_payload, own_sandbox, remote_label, shown_name, ConversationRuntimeConfig, ConversationSummary,
};
use super::terminal_stream::{
    attached_message, chunk_frames, control_event, decoded_data, dropped_message, error_message, exit_message,
    fatal, replay_actions,
    ActionView, ClientView, RequestView, TerminalDataEncoding, TerminalReplaySnapshot,
    TerminalResponse, TerminalStream, TerminalWebSocketControl,
};
use crate::web_terminal::TerminalResizeRequest;

verus! {

/// The event of a state names the session and tells its state, its turn and its error.
pub proof fn state_event_tells_the_session(key: (Seq<char>, Seq<char>), live: LiveView)
    ensures
        ({
            let v = state_payload(key, live);
            &&& v.field("type"@) == Some(JsonView::Text("home.foreground_session_state_updated"@))
            &&& v.field("conversation_id"@) == Some(JsonView::Text(key.0))
            &&& v.field("foreground_session_id"@) == Some(JsonView::Text(key.1))
            &&& v.field("state"@) == Some(JsonView::Text(live.summary()))
            &&& v.field("active_turn_id"@) == Some(match live.turn_id() {
                    Some(x) => JsonView::Text(x),
                    None => JsonView::Null,
                })
            &&& v.field("last_error"@) == Some(match live.last_error {
                    Some(x) => JsonView::Text(x),
                    None => JsonView::Null,
                })
        }),
{
    reveal_strlit("type");
    assert(mark("type"@) == 118275332);
    reveal_strlit("conversation_id");
    assert(mark("conversation_id"@) == 102537423);
    reveal_strlit("foreground_session_id");
    assert(mark("foreground_session_id"@) == 100440469);
    reveal_strlit("state");
    assert(mark("state"@) == 102546629);
    reveal_strlit("active_turn_id");
    assert(mark("active_turn_id"@) == 122460238);
    reveal_strlit("last_error");
    assert(mark("last_error"@) == 106846986);
}

/// The event of a waiting message names its session and its id.
pub proof fn queued_event_tells_the_message(key: (Seq<char>, Seq<char>), id: Seq<char>)
    ensures
        ({
            let v = queued_payload(key, id);
            &&& v.field("type"@) == Some(JsonView::Text("chat.user_message_queued"@))
            &&& v.field("client_message_id"@) == Some(JsonView::Text(id))
            &&& v.field("conversation_id"@) == Some(JsonView::Text(key.0))
            &&& v.field("foreground_session_id"@) == Some(JsonView::Text(key.1))
        }),
{
    reveal_strlit("type");
    assert(mark("type"@) == 118275332);
    reveal_strlit("client_message_id");
    assert(mark("client_message_id"@) == 106731729);
    reveal_strlit("conversation_id");
    assert(mark("conversation_id"@) == 102537423);
    reveal_strlit("foreground_session_id");
    assert(mark("foreground_session_id"@) == 100440469);
}

/// The event of a logged message names its session, its number and its id, and carries it.
pub proof fn appended_event_tells_the_message(
    key: (Seq<char>, Seq<char>),
    index: u64,
    id: Seq<char>,
    message: JsonView,
)
    ensures
        ({
            let v = appended_payload(key, index as nat, id, message);
            &&& v.field("type"@) == Some(JsonView::Text("chat.message_appended"@))
            &&& v.field("conversation_id"@) == Some(JsonView::Text(key.0))
            &&& v.field("foreground_session_id"@) == Some(JsonView::Text(key.1))
            &&& v.field("message_index"@) == Some(JsonView::number(index as nat))
            &&& v.field("message_id"@) == Some(JsonView::Text(id))
            &&& v.field("message"@) == Some(message)
        }),
{
    reveal_strlit("type");
    assert(mark("type"@) == 118275332);
    reveal_strlit("conversation_id");
    assert(mark("conversation_id"@) == 102537423);
    reveal_strlit("foreground_session_id");
    assert(mark("foreground_session_id"@) == 100440469);
    reveal_strlit("message_index");
    assert(mark("message_index"@) == 106896205);
    reveal_strlit("message_id");
    assert(mark("message_id"@) == 108829514);
    reveal_strlit("message");
    assert(mark("message"@) == 121420615);
}

/// The event of a seen message names the session, the message and the time.
pub proof fn seen_event_tells_the_message(
    key: (Seq<char>, Seq<char>),
    seen: (Seq<char>, Seq<char>),
)
    ensures
        ({
            let v = seen_payload(key, seen);
            &&& v.field("type"@) == Some(JsonView::Text("home.foreground_session_seen_state_updated"@))
            &&& v.field("conversation_id"@) == Some(JsonView::Text(key.0))
            &&& v.field("foreground_session_id"@) == Some(JsonView::Text(key.1))
            &&& v.field("last_seen_message_id"@) == Some(JsonView::Text(seen.0))
            &&& v.field("last_seen_at"@) == Some(JsonView::Text(seen.1))
        }),
{
    reveal_strlit("type");
    assert(mark("type"@) == 118275332);
    reveal_strlit("conversation_id");
    assert(mark("conversation_id"@) == 102537423);
    reveal_strlit("foreground_session_id");
    assert(mark("foreground_session_id"@) == 100440469);
    reveal_strlit("last_seen_message_id");
    assert(mark("last_seen_message_id"@) == 115120916);
    reveal_strlit("last_seen_at");
    assert(mark("last_seen_at"@) == 106863372);
}

/// The event of an error goes to the main session and tells what went wrong.
pub proof fn error_event_tells_the_error(error: OutgoingError)
    ensures
        ({
            let v = error_payload(error);
            &&& v.field("type"@) == Some(JsonView::Text("chat.stream_error"@))
            &&& v.field("conversation_id"@) == Some(JsonView::Text(error.conversation_id@))
            &&& v.field("foreground_session_id"@) == Some(JsonView::Text("main"@))
            &&& v.field("code"@) == Some(JsonView::Text(error.code@))
            &&& v.field("error"@) == Some(JsonView::Text(error.message@))
            &&& v.field("detail"@) == Some(match opt_json(error.detail) {
                    Some(x) => x,
                    None => JsonView::Null,
                })
            &&& v.field("can_continue"@) == Some(JsonView::Bool(error.can_continue))
        }),
{
    reveal_strlit("type");
    assert(mark("type"@) == 118275332);
    reveal_strlit("conversation_id");
    assert(mark("conversation_id"@) == 102537423);
    reveal_strlit("foreground_session_id");
    assert(mark("foreground_session_id"@) == 100440469);
    reveal_strlit("code");
    assert(mark("code"@) == 105691332);
    reveal_strlit("error");
    assert(mark("error"@) == 120478021);
    reveal_strlit("detail");
    assert(mark("detail"@) == 102603014);
    reveal_strlit("can_continue");
    assert(mark("can_continue"@) == 116177100);
}

/// An error is told with its scope, its weight and what can be done.
pub proof fn error_is_told_whole(head: JsonView, error: OutgoingError)
    requires
        head is Object,
    ensures
        ({
            let v = error_fields(head, error);
            &&& v.field("conversation_id"@) == Some(JsonView::Text(error.conversation_id@))
            &&& v.field("scope"@) == Some(JsonView::Text(scope_name(error.scope)))
            &&& v.field("severity"@) == Some(JsonView::Text(severity_name(error.severity)))
            &&& v.field("code"@) == Some(JsonView::Text(error.code@))
            &&& v.field("message"@) == Some(JsonView::Text(error.message@))
            &&& v.field("detail"@) == Some(match opt_json(error.detail) {
                    Some(x) => x,
                    None => JsonView::Null,
                })
            &&& v.field("can_continue"@) == Some(JsonView::Bool(error.can_continue))
            &&& v.field("suggested_action"@) == Some(match opt_view(error.suggested_action) {
                    Some(x) => JsonView::Text(x),
                    None => JsonView::Null,
                })
        }),
{
    reveal_strlit("conversation_id");
    assert(mark("conversation_id"@) == 102537423);
    reveal_strlit("scope");
    assert(mark("scope"@) == 117226693);
    reveal_strlit("severity");
    assert(mark("severity"@) == 120536264);
    reveal_strlit("code");
    assert(mark("code"@) == 105691332);
    reveal_strlit("message");
    assert(mark("message"@) == 121420615);
    reveal_strlit("detail");
    assert(mark("detail"@) == 102603014);
    reveal_strlit("can_continue");
    assert(mark("can_continue"@) == 116177100);
    reveal_strlit("suggested_action");
    assert(mark("suggested_action"@) == 105766096);
}

/// Who begins to watch a conversation is told its session, its last message and the number
/// of the next.
pub proof fn acknowledgement_tells_where_to_go_on(
    c: Seq<char>,
    s: Seq<char>,
    last: Option<Seq<char>>,
    count: u64,
    reason: Seq<char>,
    progress: JsonView,
)
    ensures
        ({
            let v = ack_payload(c, s, last, count as nat, reason, progress);
            &&& v.field("type"@) == Some(JsonView::Text("subscription_ack"@))
            &&& v.field("reason"@) == Some(JsonView::Text(reason))
            &&& v.field("conversation_id"@) == Some(JsonView::Text(c))
            &&& v.field("session_id"@) == Some(JsonView::Text(s))
            &&& v.field("current_message_id"@) == Some(match last {
                    Some(x) => JsonView::Text(x),
                    None => JsonView::Null,
                })
            &&& v.field("next_message_index"@) == Some(JsonView::number(count as nat))
            &&& v.field("total"@) == Some(JsonView::number(count as nat))
            &&& v.field("turn_progress"@) == Some(progress)
        }),
{
    reveal_strlit("type");
    assert(mark("type"@) == 118275332);
    reveal_strlit("reason");
    assert(mark("reason"@) == 121494662);
    reveal_strlit("conversation_id");
    assert(mark("conversation_id"@) == 102537423);
    reveal_strlit("session_id");
    assert(mark("session_id"@) == 117218506);
    reveal_strlit("current_message_id");
    assert(mark("current_message_id"@) == 106731730);
    reveal_strlit("next_message_index");
    assert(mark("next_message_index"@) == 102701970);
    reveal_strlit("total");
    assert(mark("total"@) == 122526981);
    reveal_strlit("turn_progress");
    assert(mark("turn_progress"@) == 120487181);
}

/// The event of a delivery carries its text and names its conversation and session.
pub proof fn delivery_event_tells_the_text(d: OutgoingDelivery)
    ensures
        ({
            let v = delivery_payload(d);
            &&& v.field("type"@) == Some(JsonView::Text("delivery"@))
            &&& v.field("text"@) == Some(JsonView::Text(d.text@))
            &&& v.field("conversation_id"@) == Some(JsonView::Text(d.conversation_id@))
            &&& v.field("session_id"@) == Some(match opt_view(d.session_id) {
                    Some(x) => JsonView::Text(x),
                    None => JsonView::Null,
                })
        }),
{
    reveal_strlit("type");
    assert(mark("type"@) == 118275332);
    reveal_strlit("text");
    assert(mark("text"@) == 126786820);
    reveal_strlit("conversation_id");
    assert(mark("conversation_id"@) == 102537423);
    reveal_strlit("session_id");
    assert(mark("session_id"@) == 117218506);
}

/// The event of a logged message names its session in both ways, its number and its id, and
/// carries it.
pub proof fn logged_event_tells_the_message(a: OutgoingMessageAppended, message: JsonView)
    ensures
        ({
            let v = logged_payload(a, message);
            &&& v.field("type"@) == Some(JsonView::Text("chat.message_appended"@))
            &&& v.field("conversation_id"@) == Some(JsonView::Text(a.conversation_id@))
            &&& v.field("session_id"@) == Some(JsonView::Text(a.session_id@))
            &&& v.field("foreground_session_id"@) == Some(JsonView::Text(route_or_self(a.session_id@)))
            &&& v.field("message_index"@) == Some(JsonView::number(a.index as nat))
            &&& v.field("message_id"@) == Some(JsonView::Text(a.message.message_id@))
            &&& v.field("message"@) == Some(message)
        }),
{
    reveal_strlit("type");
    assert(mark("type"@) == 118275332);
    reveal_strlit("conversation_id");
    assert(mark("conversation_id"@) == 102537423);
    reveal_strlit("session_id");
    assert(mark("session_id"@) == 117218506);
    reveal_strlit("foreground_session_id");
    assert(mark("foreground_session_id"@) == 100440469);
    reveal_strlit("message_index");
    assert(mark("message_index"@) == 106896205);
    reveal_strlit("message_id");
    assert(mark("message_id"@) == 108829514);
    reveal_strlit("message");
    assert(mark("message"@) == 121420615);
}

/// An event of a stream is told under its public name, inside what names its session.
pub proof fn stream_event_is_nested(s: OutgoingSessionStream)
    ensures
        ({
            let v = nested_payload(s);
            &&& v.field("type"@) == Some(JsonView::Text(public_type(stream_kind(s.event@))))
            &&& v.field("conversation_id"@) == Some(JsonView::Text(s.conversation_id@))
            &&& v.field("session_id"@) == Some(JsonView::Text(s.session_id@))
            &&& v.field("event"@) == Some(s.event@)
        }),
{
    reveal_strlit("type");
    assert(mark("type"@) == 118275332);
    reveal_strlit("conversation_id");
    assert(mark("conversation_id"@) == 102537423);
    reveal_strlit("session_id");
    assert(mark("session_id"@) == 117218506);
    reveal_strlit("event");
    assert(mark("event"@) == 106862917);
}

/// A page tells where it begins, how many entries it holds at most and how many there are,
/// and holds those of its window.
pub proof fn page_tells_its_place(head: JsonView, all: Seq<JsonView>, offset: nat, limit: nat)
    requires
        head is Object,
    ensures
        ({
            let v = page_payload(head, "messages"@, all, offset, limit);
            &&& v.field("offset"@) == Some(JsonView::number(offset))
            &&& v.field("limit"@) == Some(JsonView::number(limit))
            &&& v.field("total"@) == Some(JsonView::number(all.len()))
            &&& v.field("messages"@) == Some(JsonView::Array(page_of(all, offset, limit)))
        }),
{
    reveal_strlit("offset");
    assert(mark("offset"@) == 121543622);
    reveal_strlit("limit");
    assert(mark("limit"@) == 115251973);
    reveal_strlit("total");
    assert(mark("total"@) == 122526981);
    reveal_strlit("messages");
    assert(mark("messages"@) == 102660936);
}

/// The summary of a session tells its name, its state, its messages and what was seen.
pub proof fn session_summary_tells_the_session(
    m: ConversationMetadata,
    session: Seq<char>,
    messages: MessageSummary,
    seen: Option<ConversationSeen>,
    live: LiveView,
)
    ensures
        ({
            let v = session_payload(m, session, messages, seen, live);
            &&& v.field("id"@) == Some(JsonView::Text(session))
            &&& v.field("foreground_session_id"@) == Some(JsonView::Text(session))
            &&& v.field("session_id"@) == Some(JsonView::Text(storage_id(session)))
            &&& v.field("nickname"@) == Some(JsonView::Text(session_name(m, session)))
            &&& v.field("session_name"@) == Some(JsonView::Text(session_name(m, session)))
            &&& v.field("last_activity_at"@) == Some(match opt_view(messages.last_message_time) {
                    Some(x) => JsonView::Text(x),
                    None => JsonView::Null,
                })
            &&& v.field("state"@) == Some(JsonView::Text(live.summary()))
            &&& v.field("active_turn_id"@) == Some(match live.turn_id() {
                    Some(x) => JsonView::Text(x),
                    None => JsonView::Null,
                })
            &&& v.field("is_main"@) == Some(JsonView::Bool(session == "main"@))
            &&& v.field("message_count"@) == Some(JsonView::number(messages.message_count as nat))
            &&& v.field("last_message_id"@) == Some(match opt_view(messages.last_message_id) {
                    Some(x) => JsonView::Text(x),
                    None => JsonView::Null,
                })
            &&& v.field("last_message_time"@) == Some(match opt_view(messages.last_message_time) {
                    Some(x) => JsonView::Text(x),
                    None => JsonView::Null,
                })
            &&& v.field("last_committed_message_id"@) == Some(match opt_view(messages.last_message_id) {
                    Some(x) => JsonView::Text(x),
                    None => JsonView::Null,
                })
            &&& v.field("last_committed_message_index"@) == Some(match messages.last_message_index {
                    Some(x) => JsonView::number(x as nat),
                    None => JsonView::Null,
                })
            &&& v.field("last_seen_message_id"@) == Some(match seen {
                    Some(x) => JsonView::Text(x.last_seen_message_id@),
                    None => JsonView::Null,
                })
            &&& v.field("last_seen_at"@) == Some(match seen {
                    Some(x) => JsonView::Text(x.updated_at@),
                    None => JsonView::Null,
                })
        }),
{
    reveal_strlit("id");
    assert(mark("id"@) == 105683522);
    reveal_strlit("foreground_session_id");
    assert(mark("foreground_session_id"@) == 100440469);
    reveal_strlit("session_id");
    assert(mark("session_id"@) == 117218506);
    reveal_strlit("nickname");
    assert(mark("nickname"@) == 116177800);
    reveal_strlit("session_name");
    assert(mark("session_name"@) == 116178124);
    reveal_strlit("last_activity_at");
    assert(mark("last_activity_at"@) == 111057680);
    reveal_strlit("state");
    assert(mark("state"@) == 102546629);
    reveal_strlit("active_turn_id");
    assert(mark("active_turn_id"@) == 122460238);
    reveal_strlit("is_main");
    assert(mark("is_main"@) == 115202631);
    reveal_strlit("message_count");
    assert(mark("message_count"@) == 106863437);
    reveal_strlit("last_message_id");
    assert(mark("last_message_id"@) == 121412367);
    reveal_strlit("last_message_time");
    assert(mark("last_message_time"@) == 121420561);
    reveal_strlit("last_committed_message_id");
    assert(mark("last_committed_message_id"@) == 106732313);
    reveal_strlit("last_committed_message_index");
    assert(mark("last_committed_message_index"@) == 100604700);
    reveal_strlit("last_seen_message_id");
    assert(mark("last_seen_message_id"@) == 115120916);
    reveal_strlit("last_seen_at");
    assert(mark("last_seen_at"@) == 106863372);
}

/// The summary of a conversation tells its names, its settings, its work, its messages and
/// its sessions.
pub proof fn conversation_is_told_whole(
    m: ConversationMetadata,
    config: StellaclawConfig,
    runtime: Option<ConversationRuntimeConfig>,
    workspace: Seq<char>,
    processing: ProcessingState,
    messages: MessageSummary,
    sessions: Seq<JsonView>,
)
    ensures
        ({
            let v = conversation_payload(m, config, runtime, workspace, processing, messages, sessions);
            &&& v.field("conversation_id"@) == Some(JsonView::Text(m.conversation_id@))
            &&& v.field("nickname"@) == Some(JsonView::Text(shown_name(m)))
            &&& v.field("platform_chat_id"@) == Some(JsonView::Text(m.platform_chat_id@))
            &&& v.field("foreground_session_id"@) == Some(JsonView::Text(m.foreground_session_id@))
            &&& v.field("model"@) == Some(JsonView::Text(model_label(runtime, config)))
            &&& v.field("reasoning"@) == Some(JsonView::Text(reasoning_label(runtime)))
            &&& v.field("conversation_name"@) == Some(JsonView::Text(shown_name(m)))
            &&& v.field("sandbox"@) == Some(JsonView::Text(
                    match own_sandbox(runtime) {
                        Some(SandboxMode::Subprocess) => "Subprocess"@,
                        Some(SandboxMode::Bubblewrap) => "Bubblewrap"@,
                        None => "default"@,
                    },
                ))
            &&& v.field("remote"@) == Some(JsonView::Text(
                    match runtime {
                        Some(x) => remote_label(x.tool_remote_mode@),
                        None => "selectable"@,
                    },
                ))
            &&& v.field("last_committed_message_id"@) == Some(match opt_view(messages.last_message_id) {
                    Some(x) => JsonView::Text(x),
                    None => JsonView::Null,
                })
            &&& v.field("last_committed_message_index"@) == Some(match messages.last_message_index {
                    Some(x) => JsonView::number(x as nat),
                    None => JsonView::Null,
                })
            &&& v.field("updated_at"@) == Some(match opt_view(messages.last_message_time) {
                    Some(x) => JsonView::Text(x),
                    None => JsonView::Null,
                })
            &&& v.field("workspace"@) == Some(JsonView::Text(workspace))
            &&& v.field("processing_state"@) == Some(JsonView::Text(processing_name(processing)))
            &&& v.field("running"@) == Some(JsonView::Bool(processing != ProcessingState::Idle))
            &&& v.field("message_count"@) == Some(JsonView::number(messages.message_count as nat))
            &&& v.field("last_message_id"@) == Some(match opt_view(messages.last_message_id) {
                    Some(x) => JsonView::Text(x),
                    None => JsonView::Null,
                })
            &&& v.field("last_message_time"@) == Some(match opt_view(messages.last_message_time) {
                    Some(x) => JsonView::Text(x),
                    None => JsonView::Null,
                })
            &&& v.field("foreground_sessions"@) == Some(JsonView::Array(sessions))
        }),
{
    reveal_strlit("conversation_id");
    assert(mark("conversation_id"@) == 102537423);
    reveal_strlit("nickname");
    assert(mark("nickname"@) == 116177800);
    reveal_strlit("platform_chat_id");
    assert(mark("platform_chat_id"@) == 100441104);
    reveal_strlit("foreground_session_id");
    assert(mark("foreground_session_id"@) == 100440469);
    reveal_strlit("model");
    assert(mark("model"@) == 105749317);
    reveal_strlit("reasoning");
    assert(mark("reasoning"@) == 117243017);
    reveal_strlit("conversation_name");
    assert(mark("conversation_name"@) == 122468561);
    reveal_strlit("sandbox");
    assert(mark("sandbox"@) == 105848007);
    reveal_strlit("remote");
    assert(mark("remote"@) == 117226630);
    reveal_strlit("last_committed_message_id");
    assert(mark("last_committed_message_id"@) == 106732313);
    reveal_strlit("last_committed_message_index");
    assert(mark("last_committed_message_index"@) == 100604700);
    reveal_strlit("updated_at");
    assert(mark("updated_at"@) == 106863946);
    reveal_strlit("workspace");
    assert(mark("workspace"@) == 121421257);
    reveal_strlit("processing_state");
    assert(mark("processing_state"@) == 116177936);
    reveal_strlit("running");
    assert(mark("running"@) == 116194439);
    reveal_strlit("message_count");
    assert(mark("message_count"@) == 106863437);
    reveal_strlit("last_message_id");
    assert(mark("last_message_id"@) == 121412367);
    reveal_strlit("last_message_time");
    assert(mark("last_message_time"@) == 121420561);
    reveal_strlit("foreground_sessions");
    assert(mark("foreground_sessions"@) == 105806227);
}

/// The summary of a conversation with one session is told with all that it holds.
pub proof fn summary_is_told_whole(s: ConversationSummary)
    ensures
        ({
            let v = s.payload_view();
            &&& v.field("conversation_id"@) == Some(JsonView::Text(s.conversation_id@))
            &&& v.field("nickname"@) == Some(JsonView::Text(s.nickname@))
            &&& v.field("platform_chat_id"@) == Some(JsonView::Text(s.platform_chat_id@))
            &&& v.field("model"@) == Some(JsonView::Text(s.model@))
            &&& v.field("model_selection_pending"@) == Some(JsonView::Bool(s.model_selection_pending))
            &&& v.field("reasoning"@) == Some(JsonView::Text(s.reasoning@))
            &&& v.field("sandbox"@) == Some(JsonView::Text(s.sandbox@))
            &&& v.field("sandbox_source"@) == Some(JsonView::Text(s.sandbox_source@))
            &&& v.field("remote"@) == Some(JsonView::Text(s.remote@))
            &&& v.field("workspace"@) == Some(JsonView::Text(s.workspace@))
            &&& v.field("total_background"@) == Some(JsonView::number(s.total_background as nat))
            &&& v.field("total_subagents"@) == Some(JsonView::number(s.total_subagents as nat))
            &&& v.field("foreground_session_id"@) == Some(JsonView::Text(s.foreground_session_id@))
            &&& v.field("processing_state"@) == Some(JsonView::Text(s.processing_state@))
            &&& v.field("running"@) == Some(JsonView::Bool(s.running))
            &&& v.field("message_count"@) == Some(JsonView::number(s.message_count as nat))
            &&& v.field("last_message_id"@) == Some(match opt_view(s.last_message_id) {
                    Some(x) => JsonView::Text(x),
                    None => JsonView::Null,
                })
            &&& v.field("last_message_time"@) == Some(match opt_view(s.last_message_time) {
                    Some(x) => JsonView::Text(x),
                    None => JsonView::Null,
                })
            &&& v.field("last_seen_message_id"@) == Some(match opt_view(s.last_seen_message_id) {
                    Some(x) => JsonView::Text(x),
                    None => JsonView::Null,
                })
            &&& v.field("last_seen_at"@) == Some(match opt_view(s.last_seen_at) {
                    Some(x) => JsonView::Text(x),
                    None => JsonView::Null,
                })
        }),
{
    reveal_strlit("conversation_id");
    assert(mark("conversation_id"@) == 102537423);
    reveal_strlit("nickname");
    assert(mark("nickname"@) == 116177800);
    reveal_strlit("platform_chat_id");
    assert(mark("platform_chat_id"@) == 100441104);
    reveal_strlit("model");
    assert(mark("model"@) == 105749317);
    reveal_strlit("model_selection_pending");
    assert(mark("model_selection_pending"@) == 122485591);
    reveal_strlit("reasoning");
    assert(mark("reasoning"@) == 117243017);
    reveal_strlit("sandbox");
    assert(mark("sandbox"@) == 105848007);
    reveal_strlit("sandbox_source");
    assert(mark("sandbox_source"@) == 100449486);
    reveal_strlit("remote");
    assert(mark("remote"@) == 117226630);
    reveal_strlit("workspace");
    assert(mark("workspace"@) == 121421257);
    reveal_strlit("total_background");
    assert(mark("total_background"@) == 104635664);
    reveal_strlit("total_subagents");
    assert(mark("total_subagents"@) == 123632911);
    reveal_strlit("foreground_session_id");
    assert(mark("foreground_session_id"@) == 100440469);
    reveal_strlit("processing_state");
    assert(mark("processing_state"@) == 116177936);
    reveal_strlit("running");
    assert(mark("running"@) == 116194439);
    reveal_strlit("message_count");
    assert(mark("message_count"@) == 106863437);
    reveal_strlit("last_message_id");
    assert(mark("last_message_id"@) == 121412367);
    reveal_strlit("last_message_time");
    assert(mark("last_message_time"@) == 121420561);
    reveal_strlit("last_seen_message_id");
    assert(mark("last_seen_message_id"@) == 115120916);
    reveal_strlit("last_seen_at");
    assert(mark("last_seen_at"@) == 106863372);
}

/// The models are told with the default one and their number.
pub proof fn models_are_told_whole(default_model: Option<Seq<char>>, models: Seq<JsonView>)
    ensures
        ({
            let v = models_payload(default_model, models);
            &&& v.field("default_model"@) == Some(match default_model {
                    Some(x) => JsonView::Text(x),
                    None => JsonView::Null,
                })
            &&& v.field("total"@) == Some(JsonView::number(models.len()))
            &&& v.field("models"@) == Some(JsonView::Array(models))
        }),
{
    reveal_strlit("default_model");
    assert(mark("default_model"@) == 122525965);
    reveal_strlit("total");
    assert(mark("total"@) == 122526981);
    reveal_strlit("models");
    assert(mark("models"@) == 106855238);
}

/// The end of a turn is told with its outcome, the last message, what was seen of it and
/// the conversation.
pub proof fn finished_turn_is_told(
    c: Seq<char>,
    m: ConversationMetadata,
    turn: Option<Seq<char>>,
    f: Option<ProgressFeedbackFinalState>,
    messages: ConversationMessageSummary,
    last: Seq<char>,
    seen: Option<ConversationSeen>,
    unread: bool,
    summary: JsonView,
)
    ensures
        ({
            let v = turn_completed_payload(c, m, turn, f, messages, last, seen, unread, summary);
            &&& v.field("type"@) == Some(JsonView::Text("conversation_turn_completed"@))
            &&& v.field("channel_id"@) == Some(JsonView::Text(c))
            &&& v.field("conversation_id"@) == Some(JsonView::Text(m.conversation_id@))
            &&& v.field("platform_chat_id"@) == Some(JsonView::Text(m.platform_chat_id@))
            &&& v.field("turn_id"@) == Some(match turn {
                    Some(x) => JsonView::Text(x),
                    None => JsonView::Null,
                })
            &&& v.field("final_state"@) == Some(match f {
                    Some(ProgressFeedbackFinalState::Done) => JsonView::Text("done"@),
                    Some(ProgressFeedbackFinalState::Failed) => JsonView::Text("failed"@),
                    None => JsonView::Null,
                })
            &&& v.field("last_seen_message_id"@) == Some(match seen {
                    Some(x) => JsonView::Text(x.last_seen_message_id@),
                    None => JsonView::Null,
                })
            &&& v.field("last_seen_at"@) == Some(match seen {
                    Some(x) => JsonView::Text(x.updated_at@),
                    None => JsonView::Null,
                })
            &&& v.field("message_count"@) == Some(JsonView::number(messages.message_count as nat))
            &&& v.field("last_message_id"@) == Some(JsonView::Text(last))
            &&& v.field("last_message_time"@) == Some(match opt_view(messages.last_message_time) {
                    Some(x) => JsonView::Text(x),
                    None => JsonView::Null,
                })
            &&& v.field("unread"@) == Some(JsonView::Bool(unread))
            &&& v.field("conversation"@) == Some(summary)
        }),
{
    reveal_strlit("type");
    assert(mark("type"@) == 118275332);
    reveal_strlit("channel_id");
    assert(mark("channel_id"@) == 106731722);
    reveal_strlit("conversation_id");
    assert(mark("conversation_id"@) == 102537423);
    reveal_strlit("platform_chat_id");
    assert(mark("platform_chat_id"@) == 100441104);
    reveal_strlit("turn_id");
    assert(mark("turn_id"@) == 116169991);
    reveal_strlit("final_state");
    assert(mark("final_state"@) == 100448651);
    reveal_strlit("last_seen_message_id");
    assert(mark("last_seen_message_id"@) == 115120916);
    reveal_strlit("last_seen_at");
    assert(mark("last_seen_at"@) == 106863372);
    reveal_strlit("message_count");
    assert(mark("message_count"@) == 106863437);
    reveal_strlit("last_message_id");
    assert(mark("last_message_id"@) == 121412367);
    reveal_strlit("last_message_time");
    assert(mark("last_message_time"@) == 121420561);
    reveal_strlit("unread");
    assert(mark("unread"@) == 106732870);
    reveal_strlit("conversation");
    assert(mark("conversation"@) == 121493708);
}

/// An event of a stream is told to the clients of a session under its public name, and
/// names the session.
pub proof fn event_is_public(c: Seq<char>, s: Seq<char>, kind: Seq<char>, event: JsonView)
    ensures
        ({
            let v = public_payload(c, s, kind, event);
            &&& v.field("type"@) == Some(JsonView::Text(public_type(kind)))
            &&& v.field("conversation_id"@) == Some(JsonView::Text(c))
            &&& v.field("foreground_session_id"@) == Some(JsonView::Text(s))
        }),
{
    reveal_strlit("type");
    assert(mark("type"@) == 118275332);
    reveal_strlit("conversation_id");
    assert(mark("conversation_id"@) == 102537423);
    reveal_strlit("foreground_session_id");
    assert(mark("foreground_session_id"@) == 100440469);
}

/// Who joins a terminal is told what it gets of the output.
pub proof fn snapshot_tells_where_it_begins(r: TerminalReplaySnapshot)
    ensures
        ({
            let v = snapshot_message(r);
            &&& v.field("type"@) == Some(JsonView::Text("terminal.snapshot"@))
            &&& v.field("terminal_id"@) == Some(JsonView::Text(r.terminal_id@))
            &&& v.field("requested_offset"@) == Some(JsonView::number(r.requested_offset as nat))
            &&& v.field("replay_start_offset"@) == Some(JsonView::number(r.replay_start_offset as nat))
            &&& v.field("buffer_start_offset"@) == Some(JsonView::number(r.buffer_start_offset as nat))
            &&& v.field("next_offset"@) == Some(JsonView::number(r.next_offset as nat))
            &&& v.field("dropped_bytes"@) == Some(JsonView::number(r.dropped_bytes as nat))
            &&& v.field("running"@) == Some(JsonView::Bool(r.running))
        }),
{
    reveal_strlit("type");
    assert(mark("type"@) == 118275332);
    reveal_strlit("terminal_id");
    assert(mark("terminal_id"@) == 116169995);
    reveal_strlit("requested_offset");
    assert(mark("requested_offset"@) == 105815184);
    reveal_strlit("replay_start_offset");
    assert(mark("replay_start_offset"@) == 102669459);
    reveal_strlit("buffer_start_offset");
    assert(mark("buffer_start_offset"@) == 102668435);
    reveal_strlit("next_offset");
    assert(mark("next_offset"@) == 117349259);
    reveal_strlit("dropped_bytes");
    assert(mark("dropped_bytes"@) == 105806093);
    reveal_strlit("running");
    assert(mark("running"@) == 116194439);
}

/// Who attaches to a terminal is told what it gets of the output.
pub proof fn attachment_tells_where_it_begins(r: TerminalReplaySnapshot)
    ensures
        ({
            let v = attached_message(r);
            &&& v.field("type"@) == Some(JsonView::Text("attached"@))
            &&& v.field("terminal_id"@) == Some(JsonView::Text(r.terminal_id@))
            &&& v.field("offset"@) == Some(JsonView::number(r.requested_offset as nat))
            &&& v.field("replay_start_offset"@) == Some(JsonView::number(r.replay_start_offset as nat))
            &&& v.field("buffer_start_offset"@) == Some(JsonView::number(r.buffer_start_offset as nat))
            &&& v.field("next_offset"@) == Some(JsonView::number(r.next_offset as nat))
            &&& v.field("running"@) == Some(JsonView::Bool(r.running))
        }),
{
    reveal_strlit("type");
    assert(mark("type"@) == 118275332);
    reveal_strlit("terminal_id");
    assert(mark("terminal_id"@) == 116169995);
    reveal_strlit("offset");
    assert(mark("offset"@) == 121543622);
    reveal_strlit("replay_start_offset");
    assert(mark("replay_start_offset"@) == 102669459);
    reveal_strlit("buffer_start_offset");
    assert(mark("buffer_start_offset"@) == 102668435);
    reveal_strlit("next_offset");
    assert(mark("next_offset"@) == 117349259);
    reveal_strlit("running");
    assert(mark("running"@) == 116194439);
}

/// What was dropped of the output is told.
pub proof fn dropped_output_is_told(r: TerminalReplaySnapshot)
    ensures
        ({
            let v = dropped_message(r);
            &&& v.field("type"@) == Some(JsonView::Text("dropped"@))
            &&& v.field("terminal_id"@) == Some(JsonView::Text(r.terminal_id@))
            &&& v.field("buffer_start_offset"@) == Some(JsonView::number(r.buffer_start_offset as nat))
            &&& v.field("dropped_bytes"@) == Some(JsonView::number(r.dropped_bytes as nat))
        }),
{
    reveal_strlit("type");
    assert(mark("type"@) == 118275332);
    reveal_strlit("terminal_id");
    assert(mark("terminal_id"@) == 116169995);
    reveal_strlit("buffer_start_offset");
    assert(mark("buffer_start_offset"@) == 102668435);
    reveal_strlit("dropped_bytes");
    assert(mark("dropped_bytes"@) == 105806093);
}

/// Output of a terminal is told with its encoding and its bytes.
pub proof fn output_is_told_with_its_encoding(
    id: Seq<char>,
    e: TerminalDataEncoding,
    data: Seq<char>,
)
    ensures
        ({
            let v = output_message(id, e, data);
            &&& v.field("type"@) == Some(JsonView::Text("terminal.output"@))
            &&& v.field("terminal_id"@) == Some(JsonView::Text(id))
            &&& v.field("encoding"@) == Some(JsonView::Text(match e {
                    TerminalDataEncoding::Utf8 => "utf8"@,
                    TerminalDataEncoding::Base64 => "base64"@,
                }))
            &&& v.field("data"@) == Some(JsonView::Text(data))
        }),
{
    reveal_strlit("type");
    assert(mark("type"@) == 118275332);
    reveal_strlit("terminal_id");
    assert(mark("terminal_id"@) == 116169995);
    reveal_strlit("encoding");
    assert(mark("encoding"@) == 105707848);
    reveal_strlit("data");
    assert(mark("data"@) == 122435844);
}

// ---------------------------------------------------------------------------
// Who is told
// ---------------------------------------------------------------------------
/// A logged message is told to those that watch its session, and to no others, and the state
/// of the session to all.
pub proof fn logged_message_reaches_its_session(
    s: MainView,
    a: OutgoingMessageAppended,
    message: JsonView,
    i: int,
)
    requires
        0 <= i < s.appended(a, message, None).1.len(),
    ensures
        ({
            let key = (a.conversation_id@, route_or_self(a.session_id@));
            let (after, told) = s.appended(a, message, None);
            &&& told.len() == 2
            &&& told[0] == EffectView::Chat(
                key,
                appended_payload(key, a.index as nat, a.message.message_id@, message),
            )
            &&& told[1] is Home
            &&& after.live_of(key).last_committed_index == Some(a.index)
            &&& after.live_of(key) == s.live_of(key).message_appended(
                message,
                a.index,
                a.message.role == ChatRole::User,
                a.conversation_id@,
            )
            &&& after.seen == s.seen && after.processing == s.processing
        }),
{
}

/// An event of a stream is told to those that watch its session; the state of the session is
/// told to all where a turn begins, ends or fails, and only there.
pub proof fn stream_reaches_its_session(s: MainView, stream: OutgoingSessionStream, now: Seq<char>)
    ensures
        ({
            let key = (stream.conversation_id@, route_or_self(stream.session_id@));
            let kind = stream_kind(stream.event@);
            let (after, told) = s.streamed(stream, now);
            let bounds = kind == "turn_started"@ || kind == "turn_completed"@ || kind
                == "stream_error"@;
            &&& told.last() matches EffectView::Chat(to, _) && to == key
            &&& told.len() == (if bounds {
                2int
            } else {
                1
            })
            &&& bounds ==> told[0] is Home
            &&& after.live_of(key) == s.live_of(key).stream_event(stream.event@, kind, now)
        }),
{
}

/// A message that waits is told to those that watch its session, and the session notes it.
pub proof fn waiting_message_reaches_its_session(
    s: MainView,
    key: (Seq<char>, Seq<char>),
    id: Seq<char>,
)
    ensures
        s.queued(key, id).1.len() == 2,
        s.queued(key, id).1[1] == EffectView::Chat(key, queued_payload(key, id)),
        s.queued(key, id).1[0] is Home,
        s.queued(key, id).0.live_of(key) == s.live_of(key).user_message_queued(id, key.0, key.1),
{
}

/// In a book of sessions, too, messages and events reach the session that they are of.
pub proof fn book_tells_the_right_session(
    b: BookView,
    a: OutgoingMessageAppended,
    message: JsonView,
    stream: OutgoingSessionStream,
    now: Seq<char>,
)
    ensures
        ({
            let key = listening_key(a.conversation_id@, route_or_self(a.session_id@));
            let (after, told) = b.appended(a, message);
            &&& told.len() == 2
            &&& told[0] == BookEffectView::Chat(key, logged_payload(a, message))
            &&& after.live_of(key).last_committed_index == Some(a.index)
        }),
        ({
            let key = listening_key(stream.conversation_id@, route_or_self(stream.session_id@));
            let (after, told) = b.streamed(stream, now);
            &&& told.last() == BookEffectView::Chat(key, nested_payload(stream))
            &&& after.live_of(key) == b.live_of(key).stream_event(
                stream.event@,
                stream_kind(stream.event@),
                now,
            )
        }),
{
}

/// What goes to a session is told to that session, and an error to the main one.
pub proof fn published_events_reach_their_session(s: MainView, command: WebMainCommand)
    ensures
        command matches WebMainCommand::PublishChat { conversation_id, session_id, payload }
            ==> s.step(command) == (
            s,
            seq![EffectView::Chat((conversation_id@, route_or_self(session_id@)), payload@)],
        ),
        command matches WebMainCommand::SendError { error } ==> s.step(command) == (
            s,
            seq![EffectView::Chat((error.conversation_id@, "main"@), error_payload(error))],
        ),
        command matches WebMainCommand::SetProcessing { platform_chat_id, state }
            ==> s.step(command).0.processing.contains_key(platform_chat_id@) && s.step(
            command,
        ).0.processing[platform_chat_id@] == state && s.step(command).1.len() == 0,
{
}

/// An event is addressed to a subscriber where it names no conversation or chat of its own.
pub proof fn event_is_addressed(event: JsonView, c: Seq<char>, p: Seq<char>, other: Seq<char>)
    requires
        event is Object,
        other != "conversation_id"@ && other != "platform_chat_id"@,
    ensures
        event.field("conversation_id"@) is None ==> addressed(event, c, p).text_field(
            "conversation_id"@,
        ) == Some(c),
        event.field("conversation_id"@) is Some ==> addressed(event, c, p).field(
            "conversation_id"@,
        ) == event.field("conversation_id"@),
        event.field("platform_chat_id"@) is None ==> addressed(event, c, p).text_field(
            "platform_chat_id"@,
        ) == Some(p),
        event.field("platform_chat_id"@) is Some ==> addressed(event, c, p).field(
            "platform_chat_id"@,
        ) == event.field("platform_chat_id"@),
        addressed(event, c, p).field(other) == event.field(other),
{
    reveal_strlit("conversation_id");
    reveal_strlit("platform_chat_id");
    assert("conversation_id"@.len() != "platform_chat_id"@.len());
}

/// What was seen moves on to a later message, and the last message is unread where it comes
/// after the one that was seen.
pub proof fn seen_moves_on_with_later_messages(
    book: WebChannelBook,
    c: Seq<char>,
    message_id: Seq<char>,
    before: Option<usize>,
    here: Option<usize>,
    now: Seq<char>,
    seen: ConversationSeen,
)
    ensures
        !book.seen@.contains_key(c) ==> book.seen_after(c, message_id, before, here, now) == (
            message_id,
            now,
        ),
        book.seen@.contains_key(c) && order_of(book.seen@[c]@.0, message_id, before, here) == Some(
            MessageOrder::Before,
        ) ==> book.seen_after(c, message_id, before, here, now) == (message_id, now),
        book.seen@.contains_key(c) && order_of(book.seen@[c]@.0, message_id, before, here) == Some(
            MessageOrder::Same,
        ) ==> book.seen_after(c, message_id, before, here, now) == book.seen@[c]@,
        last_is_unread(message_id, None, here, before),
        order_of(message_id, seen.last_seen_message_id@, here, before) == Some(
            MessageOrder::After,
        ) ==> last_is_unread(message_id, Some(seen), here, before),
        message_id == seen.last_seen_message_id@ ==> !last_is_unread(
            message_id,
            Some(seen),
            here,
            before,
        ),
        order_of(message_id, seen.last_seen_message_id@, here, before) == Some(
            MessageOrder::Before,
        ) ==> !last_is_unread(message_id, Some(seen), here, before),
{
}

// ---------------------------------------------------------------------------
// Terminals
// ---------------------------------------------------------------------------
/// What a client types, and the size it sets, go to its terminal; what it sends besides is
/// answered.
pub proof fn client_reaches_its_terminal(
    t: TerminalStream,
    bytes: Seq<u8>,
    size: TerminalResizeRequest,
    offset: u64,
    message: Seq<char>,
)
    ensures
        t.client_actions(ClientView::Input(bytes)) == seq![
            ActionView::Ask(
                "terminal-input"@,
                RequestView::Input(t.terminal_id@, TerminalDataEncoding::Base64, base64_of(bytes)),
            ),
        ],
        t.client_actions(ClientView::Resize(size)) == seq![
            ActionView::Ask("terminal-resize"@, RequestView::Resize(t.terminal_id@, size)),
        ],
        t.client_actions(ClientView::Attach(offset)) == seq![
            ActionView::Ask("terminal-replay"@, RequestView::Replay(t.terminal_id@, offset)),
            ActionView::AwaitReplay,
        ],
        t.client_actions(ClientView::WsPing(bytes)) == seq![ActionView::Frame(10, bytes)],
        t.client_actions(ClientView::Close).last() is End,
        t.client_actions(ClientView::Error(message))[0] is Message,
{
}

/// Only the output of its own terminal, to its own subscription, is shown to a client.
pub proof fn client_sees_its_own_terminal(
    t: TerminalStream,
    response: TerminalResponse,
    id: Seq<char>,
    subscriber: Option<u64>,
)
    requires
        response is Output,
    ensures
        response matches TerminalResponse::Output { terminal_id, subscriber_id, encoding, data } && {
            &&& terminal_id@ != t.terminal_id@ || subscriber_id != t.subscriber_id
                ==> t.service_actions(Some(response)).len() == 0
            &&& terminal_id@ == t.terminal_id@ && subscriber_id == t.subscriber_id && encoding
                == TerminalDataEncoding::Utf8 ==> t.service_actions(Some(response)) == seq![
                ActionView::Frame(2, vstd::utf8::encode_utf8(data@)),
            ]
            &&& terminal_id@ != id || subscriber_id != subscriber ==> service_step(
                id,
                subscriber,
                response,
            ) == (None::<JsonView>, false)
            &&& terminal_id@ == id && subscriber_id == subscriber ==> service_step(
                id,
                subscriber,
                response,
            ) == (Some(output_message(id, encoding, data@)), false)
        },
{
}

/// A replay tells where it begins, what was dropped, and then shows every chunk, in order.
pub proof fn replay_shows_every_chunk(
    r: TerminalReplaySnapshot,
    bytes: Seq<Seq<u8>>,
    from: int,
)
    requires
        bytes.len() == r.chunks@.len(),
        0 <= from <= bytes.len(),
        forall|i: int|
            0 <= i < bytes.len() ==> decoded_data(
                (#[trigger] r.chunks@[i]).encoding,
                r.chunks@[i].data@,
            ) == Ok::<Seq<u8>, Seq<char>>(bytes[i]),
    ensures
        chunk_frames(r.chunks@, from) == Seq::new(
            (bytes.len() - from) as nat,
            |i: int| ActionView::Frame(2, bytes[from + i]),
        ),
        replay_actions(r)[0] == ActionView::Message(attached_message(r), true),
        r.dropped_bytes > 0 ==> replay_actions(r)[1] == ActionView::Message(
            dropped_message(r),
            true,
        ),
        r.dropped_bytes == 0 ==> replay_actions(r) == seq![
            ActionView::Message(attached_message(r), true),
        ] + chunk_frames(r.chunks@, 0),
    decreases bytes.len() - from,
{
    let f = |i: int| ActionView::Frame(2, bytes[from + i]);
    let all = Seq::new((bytes.len() - from) as nat, f);
    if from < bytes.len() {
        replay_shows_every_chunk(r, bytes, from + 1);
        assert(decoded_data(r.chunks@[from].encoding, r.chunks@[from].data@) == Ok::<
            Seq<u8>,
            Seq<char>,
        >(bytes[from]));
        let rest = Seq::new(
            (bytes.len() - from - 1) as nat,
            |i: int| ActionView::Frame(2, bytes[from + 1 + i]),
        );
        assert(all =~= seq![ActionView::Frame(2, bytes[from])] + rest);
    } else {
        assert(all =~= Seq::empty());
    }
    if r.dropped_bytes == 0 {
        assert(replay_actions(r) =~= seq![ActionView::Message(attached_message(r), true)]
            + chunk_frames(r.chunks@, 0));
    }
}

/// Who joins a terminal is told where the output begins, and then shown every chunk, in
/// order.
pub proof fn joining_shows_every_chunk(id: Seq<char>, r: TerminalReplaySnapshot, i: int)
    requires
        0 <= i < r.chunks@.len(),
    ensures
        joined_messages(id, r)[0] == snapshot_message(r),
        r.dropped_bytes == 0 ==> joined_messages(id, r).len() == 1 + r.chunks@.len()
            && joined_messages(id, r)[1 + i] == output_message(
            id,
            r.chunks@[i].encoding,
            r.chunks@[i].data@,
        ),
        r.dropped_bytes > 0 ==> joined_messages(id, r).len() == 2 + r.chunks@.len()
            && joined_messages(id, r)[2 + i] == output_message(
            id,
            r.chunks@[i].encoding,
            r.chunks@[i].data@,
        ),
{
}

/// The control messages of a client mean what they name.
pub proof fn control_messages_mean_what_they_name(c: TerminalWebSocketControl)
    ensures
        c.kind@ == "resize"@ && c.cols is Some && c.rows is Some ==> control_event(Some(c)) == Ok::<
            ClientView,
            Seq<char>,
        >(ClientView::Resize(TerminalResizeRequest { cols: c.cols->0, rows: c.rows->0 })),
        c.kind@ == "resize"@ && (c.cols is None || c.rows is None) ==> control_event(Some(c)) is Err,
        c.kind@ == "attach"@ && c.offset is Some ==> control_event(Some(c)) == Ok::<
            ClientView,
            Seq<char>,
        >(ClientView::Attach(c.offset->0)),
        c.kind@ == "attach"@ && c.offset is None ==> control_event(Some(c)) == Ok::<
            ClientView,
            Seq<char>,
        >(ClientView::Attach(0)),
        c.kind@ == "ping"@ ==> control_event(Some(c)) == Ok::<ClientView, Seq<char>>(
            ClientView::JsonPing,
        ),
        c.kind@ != "resize"@ && c.kind@ != "attach"@ && c.kind@ != "ping"@ ==> control_event(Some(c))
            is Err,
{
    reveal_strlit("resize");
    reveal_strlit("attach");
    reveal_strlit("ping");
    assert("resize"@[0] != "attach"@[0]);
    assert("resize"@.len() != "ping"@.len());
    assert("attach"@.len() != "ping"@.len());
}

/// What a client of a session types goes to the terminal as it is.
pub proof fn typed_bytes_reach_the_terminal(
    id: Seq<char>,
    frame: ClientWebSocketFrame,
    value: JsonView,
    data: Seq<char>,
    cols: u64,
    rows: u64,
)
    requires
        data.len() > 0,
        cols <= u16::MAX,
        rows <= u16::MAX,
    ensures
        frame matches ClientWebSocketFrame::Binary(bytes) && bytes@.len() > 0 ==> frame_step(
            id,
            frame,
            None,
        ) == StepView::Ask(
            "terminal-input"@,
            RequestView::Input(id, TerminalDataEncoding::Base64, base64_of(frame->Binary_0@)),
        ),
        frame is Close ==> frame_step(id, frame, None) == StepView::Stop,
        value.text_field("type"@) == Some("input"@) && value.text_field("data"@) == Some(data)
            && value.text_field("encoding"@) is None ==> control_step(id, value) == StepView::Ask(
            "terminal-input"@,
            RequestView::Input(id, TerminalDataEncoding::Utf8, data),
        ),
        value.text_field("type"@) == Some("resize"@) && value.unsigned_field("cols"@) == Some(cols)
            && value.unsigned_field("rows"@) == Some(rows) ==> control_step(id, value)
            == StepView::Ask(
            "terminal-resize"@,
            RequestView::Resize(
                id,
                TerminalResizeRequest { cols: cols as u16, rows: rows as u16 },
            ),
        ),
{
    reveal_strlit("input");
    reveal_strlit("resize");
    assert("input"@.len() != "resize"@.len());
}

/// A client is told that its terminal was closed, that something failed, and how much output
/// is missing.
pub proof fn terminal_messages_tell_what_happened(
    id: Seq<char>,
    message: Seq<char>,
    code: Seq<char>,
    r: TerminalReplaySnapshot,
    request: RequestView,
)
    ensures
        closed_message(id).text_field("type"@) == Some("terminal.closed"@),
        closed_message(id).text_field("terminal_id"@) == Some(id),
        failed_message(message).text_field("type"@) == Some("terminal.error"@),
        failed_message(message).text_field("message"@) == Some(message),
        missed_message(r).text_field("type"@) == Some("terminal.dropped"@),
        missed_message(r).unsigned_field("dropped_bytes"@) == Some(r.dropped_bytes),
        missed_message(r).unsigned_field("buffer_start_offset"@) == Some(r.buffer_start_offset),
        exit_message(id).text_field("type"@) == Some("exit"@),
        exit_message(id).text_field("terminal_id"@) == Some(id),
        error_message(code, message).text_field("type"@) == Some("error"@),
        error_message(code, message).text_field("error"@) == Some(code),
        error_message(code, message).text_field("message"@) == Some(message),
        fatal(code, message) == seq![
            ActionView::Message(error_message(code, message), false),
            ActionView::Close(false),
            ActionView::End,
        ],
        request is Input ==> TerminalStream::failure_code(request) == "terminal_input_failed"@,
        request is Resize ==> TerminalStream::failure_code(request) == "terminal_resize_failed"@,
        request is Replay ==> TerminalStream::failure_code(request) == "terminal_replay_failed"@,
{
    reveal_strlit("type");
    reveal_strlit("terminal_id");
    reveal_strlit("message");
    reveal_strlit("dropped_bytes");
    reveal_strlit("buffer_start_offset");
    reveal_strlit("error");
    assert("type"@.len() != "terminal_id"@.len());
    assert("type"@.len() != "message"@.len());
    assert("type"@.len() != "dropped_bytes"@.len());
    assert("type"@.len() != "buffer_start_offset"@.len());
    assert("type"@.len() != "error"@.len());
    assert("error"@.len() != "message"@.len());
    assert("dropped_bytes"@.len() != "buffer_start_offset"@.len());
}

/// What is told to all that watch the conversations has the number of its place, and the
/// next has the next number.
pub proof fn told_events_are_numbered(book: BookView, payload: JsonView)
    requires
        payload is Object,
    ensures
        match book.home(payload) {
            BookEffectView::Home(told) => told.unsigned_field("seq"@) == Some(book.seq),
            BookEffectView::Chat(..) => false,
        },
        book.seq < u64::MAX ==> book.numbered().seq == book.seq + 1,
        book.numbered().live == book.live,
        book.numbered().seen == book.seen,
{
}

} // verus!

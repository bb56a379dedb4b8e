//! Conversations that have sessions: what requests change and how they are answered.

use vstd::prelude::*;
use crate::channels::{OutgoingDelivery, OutgoingError, OutgoingMessageAppended, OutgoingSessionStream};
use crate::chat::{ChatMessageItem, FileItem, SelectionReferenceItem};
use crate::config::StellaclawConfig;
use crate::json::{array_view, group_json, number_or_null, or_null, Json, JsonView};
use crate::json_ops::{copy_array, opt_json};
use crate::text::{is_blank, opt_view, text_eq, trimmed};
use crate::text_map::TextMap;
use crate::web::control::{
    command_and_argument, control_ingress_from_text, control_of, knows_model, ControlIngress,
    IngressView,
};
use crate::web::files::{some_text, trimmed_text};
use crate::web::history::find_message;
use crate::web::http::{query_usize, HttpError};
use crate::web::ids::{
    foreground_session_storage_id, public_chat_stream_type, public_type, route_id_or_self,
    route_or_self, storage_id, ConversationMetadata,
};
use crate::web::lists::{page_of, sort_by_field, sorted_by, take_page};
use crate::web::live::ChatLiveState;
use crate::web::live_model::id_of_message;
use crate::web::main_state::{session_fields, stream_kind, typed, ConversationSeen};
use crate::web::selection::{
    file_views, item_views, items_of_parts, message_items, selection_views, ItemView,
};
use crate::web::workspace::size_parameter;

verus! {

broadcast use group_json;

/// How a request is answered.
#[derive(Debug)]
pub struct Reply {
    pub status: u16,
    pub payload: Json,
}

impl Reply {
    pub open spec fn is(self, status: u16, payload: JsonView) -> bool {
        self.status == status && self.payload@ == payload
    }
}

fn typed_event(kind: &str) -> (r: Json)
    ensures
        r@ == typed(kind@),
{
    let mut p: Json = Json::object();
    p.put("type", Json::text(kind));
    p
}

/// The sign that the server is there.
pub fn health_reply() -> (r: Reply)
    ensures
        r.is(200, JsonView::empty_object().with("ok"@, JsonView::Bool(true))),
{
    let mut payload: Json = Json::object();
    payload.put("ok", Json::Bool(true));
    Reply { status: 200, payload }
}

// ---------------------------------------------------------------------------
// Pages
// ---------------------------------------------------------------------------
/// The window that a request asks for. At most two hundred entries are shown.
pub open spec fn asked_window(query: TextMap<String>, default_limit: nat) -> (nat, nat) {
    let offset = match size_parameter(query, "offset"@) {
        Some(n) => n,
        None => 0,
    };
    let limit = match size_parameter(query, "limit"@) {
        Some(n) => n,
        None => default_limit,
    };
    (
        offset,
        if limit <= 200 {
            limit
        } else {
            200
        },
    )
}

pub fn query_window(query: &TextMap<String>, default_limit: usize) -> (r: (usize, usize))
    requires
        query.wf(),
    ensures
        (r.0 as nat, r.1 as nat) == asked_window(*query, default_limit as nat),
{
    let offset: usize = query_usize(query, "offset", 0);
    let limit: usize = query_usize(query, "limit", default_limit);
    if limit <= 200 {
        (offset, limit)
    } else {
        (offset, 200)
    }
}

/// A page: the window, how much there is, and the entries of the page under a name.
pub open spec fn page_payload(
    head: JsonView,
    name: Seq<char>,
    all: Seq<JsonView>,
    offset: nat,
    limit: nat,
) -> JsonView {
    head.with("offset"@, JsonView::number(offset)).with("limit"@, JsonView::number(limit)).with(
        "total"@,
        JsonView::number(all.len()),
    ).with(name, JsonView::Array(page_of(all, offset, limit)))
}

fn make_page(head: Json, name: &str, all: &Vec<Json>, offset: usize, limit: usize) -> (r: Json)
    ensures
        r@ == page_payload(head@, name@, array_view(all@), offset as nat, limit as nat),
{
    let mut p: Json = head;
    p.put("offset", Json::count(offset));
    p.put("limit", Json::count(limit));
    p.put("total", Json::count(all.len()));
    p.put(name, Json::Array(take_page(all, offset, limit)));
    p
}

/// Lists conversations by their ids.
pub fn list_conversations(
    channel_id: &str,
    query: &TextMap<String>,
    default_limit: usize,
    conversations: Vec<Json>,
) -> (r: Reply)
    requires
        query.wf(),
    ensures
        ({
            let (offset, limit) = asked_window(*query, default_limit as nat);
            r.is(
                200,
                page_payload(
                    JsonView::empty_object().with("channel_id"@, JsonView::Text(channel_id@)),
                    "conversations"@,
                    sorted_by(array_view(conversations@), "conversation_id"@),
                    offset,
                    limit,
                ),
            )
        }),
{
    let (offset, limit) = query_window(query, default_limit);
    let sorted: Vec<Json> = sort_by_field(conversations, "conversation_id");
    let mut head: Json = Json::object();
    head.put("channel_id", Json::text(channel_id));
    Reply {
        status: 200,
        payload: make_page(head, "conversations", &sorted, offset, limit),
    }
}

pub open spec fn session_head(conversation_id: Seq<char>, session: Seq<char>) -> JsonView {
    session_fields(JsonView::empty_object(), (conversation_id, session))
}

fn make_session_head(conversation_id: &str, session: &str) -> (r: Json)
    ensures
        r@ == session_head(conversation_id@, session@),
{
    let mut p: Json = Json::object();
    p.put("conversation_id", Json::text(conversation_id));
    p.put("foreground_session_id", Json::text(session));
    p
}

/// Lists the messages of a session.
pub fn list_messages(
    conversation_id: &str,
    foreground_session_id: &str,
    query: &TextMap<String>,
    messages: &Vec<Json>,
) -> (r: Reply)
    requires
        query.wf(),
    ensures
        ({
            let (offset, limit) = asked_window(*query, 80);
            r.is(
                200,
                page_payload(
                    session_head(conversation_id@, foreground_session_id@),
                    "messages"@,
                    array_view(messages@),
                    offset,
                    limit,
                ),
            )
        }),
{
    let (offset, limit) = query_window(query, 80);
    let head: Json = make_session_head(conversation_id, foreground_session_id);
    Reply { status: 200, payload: make_page(head, "messages", messages, offset, limit) }
}

/// Shows one message of a session, by its id or by its place.
pub fn message_detail(
    conversation_id: &str,
    foreground_session_id: &str,
    message_id: &str,
    messages: &Vec<Json>,
) -> (r: Result<Reply, HttpError>)
    ensures
        ({
            let v = array_view(messages@);
            let i = crate::web::history::asked_index(v, message_id@, 0);
            if 0 <= i < v.len() {
                r matches Ok(x) && x.is(
                    200,
                    session_head(conversation_id@, foreground_session_id@).with("message"@, v[i]),
                )
            } else {
                r matches Err(e) && e.status == 404 && e.message@ == "message_not_found"@
            }
        }),
{
    match find_message(messages, message_id) {
        Some(m) => {
            let mut payload: Json = make_session_head(conversation_id, foreground_session_id);
            payload.put("message", m.copy());
            Ok(Reply { status: 200, payload })
        },
        None => Err(HttpError::new(404, "message_not_found")),
    }
}

// ---------------------------------------------------------------------------
// Conversations
// ---------------------------------------------------------------------------
/// The event that shows a conversation that is new or has changed.
pub fn conversation_upserted(summary: &Json) -> (r: Json)
    ensures
        r@ == typed("home.conversation_upserted"@).with("conversation"@, summary@),
{
    let mut p: Json = typed_event("home.conversation_upserted");
    p.put("conversation", summary.copy());
    p
}

/// The event that tells that a conversation is gone.
pub fn conversation_deleted(conversation_id: &str) -> (r: Json)
    ensures
        r@ == typed("home.conversation_deleted"@).with(
            "conversation_id"@,
            JsonView::Text(conversation_id@),
        ),
{
    let mut p: Json = typed_event("home.conversation_deleted");
    p.put("conversation_id", Json::text(conversation_id));
    p
}

/// Names a new conversation; a blank name names nothing.
pub fn name_conversation(metadata: &mut ConversationMetadata, nickname: Option<String>)
    ensures
        *final(metadata) == (match nickname {
            Some(n) => if trimmed(n@).len() > 0 {
                ConversationMetadata { nickname: n, ..*old(metadata) }
            } else {
                *old(metadata)
            },
            None => *old(metadata),
        }),
{
    if let Some(n) = nickname {
        if !is_blank(n.as_str()) {
            metadata.nickname = n;
        }
    }
}

/// Renames a conversation; without a name it is named by its id.
pub fn rename_conversation(metadata: &mut ConversationMetadata, nickname: Option<String>)
    ensures
        final(metadata).nickname@ == (match nickname {
            Some(n) => n@,
            None => old(metadata).conversation_id@,
        }),
        *final(metadata) == (ConversationMetadata {
            nickname: final(metadata).nickname,
            ..*old(metadata)
        }),
{
    metadata.nickname = match nickname {
        Some(n) => n,
        None => metadata.conversation_id.clone(),
    };
}

pub fn created_reply(conversation_id: &str, summary: Json) -> (r: Reply)
    ensures
        r.is(
            201,
            JsonView::empty_object().with(
                "conversation_id"@,
                JsonView::Text(conversation_id@),
            ).with("conversation"@, summary@),
        ),
{
    let mut payload: Json = Json::object();
    payload.put("conversation_id", Json::text(conversation_id));
    payload.put("conversation", summary);
    Reply { status: 201, payload }
}

pub fn renamed_reply(summary: Json) -> (r: Reply)
    ensures
        r.is(200, JsonView::empty_object().with("conversation"@, summary@)),
{
    let mut payload: Json = Json::object();
    payload.put("conversation", summary);
    Reply { status: 200, payload }
}

pub fn deleted_reply() -> (r: Reply)
    ensures
        r.is(200, JsonView::empty_object().with("deleted"@, JsonView::Bool(true))),
{
    let mut payload: Json = Json::object();
    payload.put("deleted", Json::Bool(true));
    Reply { status: 200, payload }
}

pub open spec fn seen_value(seen: (Seq<char>, Seq<char>)) -> JsonView {
    JsonView::empty_object().with("last_seen_message_id"@, JsonView::Text(seen.0)).with(
        "updated_at"@,
        JsonView::Text(seen.1),
    )
}

pub fn seen_payload_value(seen: &ConversationSeen) -> (r: Json)
    ensures
        r@ == seen_value(seen@),
{
    let mut p: Json = Json::object();
    p.put("last_seen_message_id", Json::text(seen.last_seen_message_id.as_str()));
    p.put("updated_at", Json::text(seen.updated_at.as_str()));
    p
}

/// Notes what was seen: the session that is meant, the event and the reply.
pub fn mark_seen(
    conversation_id: &str,
    foreground_session_id: &Option<String>,
    seen: &ConversationSeen,
) -> (r: (String, Json, Reply))
    ensures
        r.0@ == (match *foreground_session_id {
            Some(s) => s@,
            None => "main"@,
        }),
        r.1@ == session_fields(
            typed("home.foreground_session_seen_state_updated"@),
            (conversation_id@, r.0@),
        ).with("seen"@, seen_value(seen@)),
        r.2.is(200, JsonView::empty_object().with("seen"@, seen_value(seen@))),
{
    let session: String = match foreground_session_id {
        Some(s) => s.clone(),
        None => "main".to_owned(),
    };
    let mut event: Json = typed_event("home.foreground_session_seen_state_updated");
    event.put("conversation_id", Json::text(conversation_id));
    event.put("foreground_session_id", Json::text(session.as_str()));
    event.put("seen", seen_payload_value(seen));
    let mut payload: Json = Json::object();
    payload.put("seen", seen_payload_value(seen));
    (session, event, Reply { status: 200, payload })
}

// ---------------------------------------------------------------------------
// Sessions
// ---------------------------------------------------------------------------
pub fn sessions_reply(conversation_id: &str, sessions: Vec<Json>) -> (r: Reply)
    ensures
        r.is(
            200,
            JsonView::empty_object().with(
                "conversation_id"@,
                JsonView::Text(conversation_id@),
            ).with("foreground_sessions"@, JsonView::Array(array_view(sessions@))),
        ),
{
    let mut payload: Json = Json::object();
    payload.put("conversation_id", Json::text(conversation_id));
    payload.put("foreground_sessions", Json::Array(sessions));
    Reply { status: 200, payload }
}

/// The id by which a new session is addressed: that of the session that was made, else
/// the one that was asked for, else that of the main session.
pub fn created_session_id(created: &Option<String>, requested: &Option<String>) -> (r: String)
    ensures
        r@ == route_or_self(
            match *created {
                Some(s) => s@,
                None => storage_id(
                    match *requested {
                        Some(s) => s@,
                        None => "main"@,
                    },
                ),
            },
        ),
{
    let kept: String = match created {
        Some(s) => s.clone(),
        None => match requested {
            Some(s) => foreground_session_storage_id(s.as_str()),
            None => foreground_session_storage_id("main"),
        },
    };
    route_id_or_self(kept.as_str())
}

pub fn session_created_reply(conversation_id: &str, session: Json, sessions: Vec<Json>) -> (r: Reply)
    ensures
        r.is(
            201,
            JsonView::empty_object().with(
                "conversation_id"@,
                JsonView::Text(conversation_id@),
            ).with("foreground_session"@, session@).with(
                "foreground_sessions"@,
                JsonView::Array(array_view(sessions@)),
            ),
        ),
{
    let mut payload: Json = Json::object();
    payload.put("conversation_id", Json::text(conversation_id));
    payload.put("foreground_session", session);
    payload.put("foreground_sessions", Json::Array(sessions));
    Reply { status: 201, payload }
}

pub fn session_renamed_reply(session: Json) -> (r: Reply)
    ensures
        r.is(200, JsonView::empty_object().with("foreground_session"@, session@)),
{
    let mut payload: Json = Json::object();
    payload.put("foreground_session", session);
    Reply { status: 200, payload }
}

/// Answers a request to delete a session; the main session stays.
pub fn delete_session_reply(conversation_id: &str, foreground_session_id: &str) -> (r: Result<
    Reply,
    HttpError,
>)
    ensures
        if foreground_session_id@ == "main"@ {
            r matches Err(e) && e.status == 400 && e.message@
                == "main foreground session cannot be deleted"@
        } else {
            r matches Ok(x) && x.is(
                200,
                session_head(conversation_id@, foreground_session_id@).with(
                    "deleted"@,
                    JsonView::Bool(true),
                ),
            )
        },
{
    if text_eq(foreground_session_id, "main") {
        return Err(HttpError::new(400, "main foreground session cannot be deleted"));
    }
    let mut payload: Json = make_session_head(conversation_id, foreground_session_id);
    payload.put("deleted", Json::Bool(true));
    Ok(Reply { status: 200, payload })
}

/// Names a session, or takes its name away.
pub fn set_session_nickname(
    metadata: &mut ConversationMetadata,
    foreground_session_id: &str,
    nickname: Option<String>,
)
    requires
        old(metadata).session_nicknames.wf(),
    ensures
        final(metadata).session_nicknames.wf(),
        final(metadata).session_nicknames@ == (match nickname {
            Some(n) => if trimmed(n@).len() > 0 {
                old(metadata).session_nicknames@.insert(storage_id(foreground_session_id@), n)
            } else {
                old(metadata).session_nicknames@.remove(storage_id(foreground_session_id@))
            },
            None => old(metadata).session_nicknames@.remove(storage_id(foreground_session_id@)),
        }),
        *final(metadata) == (ConversationMetadata {
            session_nicknames: final(metadata).session_nicknames,
            ..*old(metadata)
        }),
{
    let key: String = foreground_session_storage_id(foreground_session_id);
    match nickname {
        Some(n) => {
            if is_blank(n.as_str()) {
                metadata.session_nicknames.remove(key.as_str());
            } else {
                metadata.session_nicknames.insert(key.as_str(), n);
            }
        },
        None => {
            metadata.session_nicknames.remove(key.as_str());
        },
    }
}

// ---------------------------------------------------------------------------
// Posting a message
// ---------------------------------------------------------------------------
/// A message as it is posted to a session.
#[derive(Debug)]
pub struct PostMessageRequest {
    pub client_message_id: Option<String>,
    pub text: Option<String>,
    pub user_name: Option<String>,
    pub selection_references: Vec<SelectionReferenceItem>,
    pub files: Vec<FileItem>,
}

/// What becomes of a posted message.
#[derive(Debug)]
pub enum PostPlan {
    /// It is a command.
    Control(ControlIngress),
    /// It is passed on, with the id that the client gave it.
    Message { items: Vec<ChatMessageItem>, client_message_id: Option<String> },
}

/// The text of a message unless it is blank.
pub open spec fn written_text(text: Option<Seq<char>>) -> Option<Seq<char>> {
    match text {
        Some(t) => if trimmed(t).len() > 0 {
            Some(t)
        } else {
            None
        },
        None => None,
    }
}

/// What a posted message asks for as a command; only a text that stands alone does.
pub open spec fn posted_control(
    config: StellaclawConfig,
    request: PostMessageRequest,
    session: Seq<char>,
) -> Result<Option<IngressView>, Seq<char>> {
    if request.selection_references@.len() > 0 || request.files@.len() > 0 {
        Ok(None)
    } else {
        match request.text {
            Some(t) => match command_and_argument(t@) {
                Some((command, argument)) => control_of(
                    knows_model(config),
                    command,
                    argument,
                    Some(session),
                ),
                None => Ok(None),
            },
            None => Ok(None),
        }
    }
}

pub open spec fn posted_items(request: PostMessageRequest) -> Seq<ItemView> {
    items_of_parts(
        written_text(opt_view(request.text)),
        selection_views(request.selection_references@),
        file_views(request.files@),
    )
}

/// Decides what becomes of a posted message.
pub fn plan_post(config: &StellaclawConfig, foreground_session_id: &str, request: PostMessageRequest) -> (r:
    Result<PostPlan, HttpError>)
    requires
        config.models.wf(),
    ensures
        match posted_control(*config, request, foreground_session_id@) {
            Err(message) => r matches Err(e) && e.status == 400 && e.message@ == message,
            Ok(Some(v)) => r matches Ok(PostPlan::Control(i)) && i.is(v),
            Ok(None) => if posted_items(request).len() == 0 {
                r matches Err(e) && e.status == 400 && e.message@ == "message body is empty"@
            } else {
                r matches Ok(PostPlan::Message { items, client_message_id }) && item_views(items@)
                    == posted_items(request) && opt_view(client_message_id) == some_text(
                    opt_view(request.client_message_id),
                )
            },
        },
{
    if request.selection_references.len() == 0 && request.files.len() == 0 {
        if let Some(text) = &request.text {
            match control_ingress_from_text(config, text.as_str(), foreground_session_id) {
                Ok(Some(ingress)) => {
                    return Ok(PostPlan::Control(ingress));
                },
                Ok(None) => {},
                Err(e) => {
                    return Err(e);
                },
            }
        }
    }
    let text: Option<String> = match request.text {
        Some(t) => if is_blank(t.as_str()) {
            None
        } else {
            Some(t)
        },
        None => None,
    };
    let items: Vec<ChatMessageItem> = message_items(
        text,
        request.selection_references,
        request.files,
    );
    assert(item_views(items@).len() == items@.len());
    if items.len() == 0 {
        return Err(HttpError::new(400, "message body is empty"));
    }
    let client_message_id: Option<String> = trimmed_text(&request.client_message_id);
    Ok(PostPlan::Message { items, client_message_id })
}

pub open spec fn accepted(head: JsonView) -> JsonView {
    head.with("accepted"@, JsonView::Bool(true))
}

/// Answers a command.
pub fn control_accepted(conversation_id: &str, foreground_session_id: &str) -> (r: Reply)
    ensures
        r.is(
            202,
            accepted(session_head(conversation_id@, foreground_session_id@)).with(
                "control"@,
                JsonView::Bool(true),
            ),
        ),
{
    let mut payload: Json = make_session_head(conversation_id, foreground_session_id);
    payload.put("accepted", Json::Bool(true));
    payload.put("control", Json::Bool(true));
    Reply { status: 202, payload }
}

/// Answers a message that was passed on.
pub fn message_accepted(
    conversation_id: &str,
    foreground_session_id: &str,
    client_message_id: &str,
) -> (r: Reply)
    ensures
        r.is(
            202,
            accepted(session_head(conversation_id@, foreground_session_id@)).with(
                "client_message_id"@,
                JsonView::Text(client_message_id@),
            ),
        ),
{
    let mut payload: Json = make_session_head(conversation_id, foreground_session_id);
    payload.put("accepted", Json::Bool(true));
    payload.put("client_message_id", Json::text(client_message_id));
    Reply { status: 202, payload }
}

/// What is noted beside a message that was posted.
pub fn posted_metadata(client_message_id: &str) -> (r: Json)
    ensures
        r@ == JsonView::empty_object().with("source"@, JsonView::Text("web"@)).with(
            "client_message_id"@,
            JsonView::Text(client_message_id@),
        ),
{
    let mut p: Json = Json::object();
    p.put("source", Json::text("web"));
    p.put("client_message_id", Json::text(client_message_id));
    p
}

// ---------------------------------------------------------------------------
// Connections
// ---------------------------------------------------------------------------
/// What a client that watches all conversations sees first.
pub fn home_snapshot(seq: u64, conversations: Vec<Json>, server_time: &str) -> (r: Json)
    ensures
        r@ == typed("home.snapshot"@).with("seq"@, JsonView::number(seq as nat)).with(
            "conversations"@,
            JsonView::Array(array_view(conversations@)),
        ).with("server_time"@, JsonView::Text(server_time@)),
{
    let mut p: Json = typed_event("home.snapshot");
    p.put("seq", Json::number(seq));
    p.put("conversations", Json::Array(conversations));
    p.put("server_time", Json::text(server_time));
    p
}

pub open spec fn opt_value(v: Option<JsonView>) -> JsonView {
    match v {
        Some(x) => x,
        None => JsonView::Null,
    }
}

fn copy_or_null(v: &Option<Json>) -> (r: Json)
    ensures
        r@ == opt_value(opt_json(*v)),
{
    match v {
        Some(x) => x.copy(),
        None => Json::Null,
    }
}

pub open spec fn last_id(messages: Seq<JsonView>) -> Option<Seq<char>> {
    if messages.len() == 0 {
        None
    } else {
        id_of_message(messages.last())
    }
}

pub open spec fn last_index(messages: Seq<JsonView>) -> Option<u64> {
    if messages.len() == 0 {
        None
    } else {
        messages.last().unsigned_field("index"@)
    }
}

/// What a client that watches a session sees first.
pub fn chat_snapshot(
    conversation_id: &str,
    foreground_session_id: &str,
    messages: &Vec<Json>,
    live: &ChatLiveState,
) -> (r: Json)
    ensures
        r@ == session_fields(
            typed("chat.snapshot"@),
            (conversation_id@, foreground_session_id@),
        ).with("total"@, JsonView::number(messages@.len())).with(
            "next_message_index"@,
            JsonView::number(messages@.len()),
        ).with("last_committed_message_id"@, or_null(last_id(array_view(messages@)))).with(
            "last_committed_message_index"@,
            number_or_null(last_index(array_view(messages@))),
        ).with("current_turn_state"@, opt_value(live@.turn)).with(
            "current_provisional_assistant_message"@,
            opt_value(live@.provisional),
        ).with("running_tool_results"@, JsonView::Array(live@.tools)).with(
            "queued_outbound_messages"@,
            JsonView::Array(live@.queued),
        ),
{
    let n: usize = messages.len();
    assert(array_view(messages@).len() == n);
    let mut p: Json = typed_event("chat.snapshot");
    p.put("conversation_id", Json::text(conversation_id));
    p.put("foreground_session_id", Json::text(foreground_session_id));
    p.put("total", Json::count(n));
    p.put("next_message_index", Json::count(n));
    if n == 0 {
        p.put("last_committed_message_id", Json::Null);
        p.put("last_committed_message_index", Json::Null);
    } else {
        let last: &Json = &messages[n - 1];
        assert(array_view(messages@).last() == last@);
        let id: Option<&str> = match last.get("message_id") {
            Some(v) => v.as_text(),
            None => last.text_field("id"),
        };
        p.put("last_committed_message_id", Json::opt_text(id));
        p.put("last_committed_message_index", Json::opt_number(last.unsigned_field("index")));
    }
    p.put("current_turn_state", copy_or_null(&live.current_turn_state));
    p.put(
        "current_provisional_assistant_message",
        copy_or_null(&live.current_provisional_assistant_message),
    );
    p.put("running_tool_results", Json::Array(copy_array(&live.running_tool_results)));
    p.put("queued_outbound_messages", Json::Array(copy_array(&live.queued_outbound_messages)));
    p
}

/// An event and the session whose clients it goes to.
#[derive(Debug)]
pub struct SessionEvent {
    pub conversation_id: String,
    pub foreground_session_id: String,
    pub payload: Json,
}

impl SessionEvent {
    pub open spec fn is(self, conversation_id: Seq<char>, session: Seq<char>, payload: JsonView) -> bool {
        self.conversation_id@ == conversation_id && self.foreground_session_id@ == session
            && self.payload@ == payload
    }
}

/// The payload for a text that belongs to no message.
pub open spec fn delivery_payload(delivery: OutgoingDelivery) -> JsonView {
    typed("delivery"@).with("text"@, JsonView::Text(delivery.text@)).with(
        "conversation_id"@,
        JsonView::Text(delivery.conversation_id@),
    ).with("session_id"@, or_null(opt_view(delivery.session_id)))
}

/// Shows a text that belongs to no message; other deliveries come as messages.
pub fn delivery_event(delivery: &OutgoingDelivery) -> (r: Option<SessionEvent>)
    ensures
        if delivery.message is None && trimmed(delivery.text@).len() > 0 {
            r matches Some(e) && e.is(
                delivery.conversation_id@,
                route_or_self(
                    match delivery.session_id {
                        Some(s) => s@,
                        None => "main"@,
                    },
                ),
                delivery_payload(*delivery),
            )
        } else {
            r is None
        },
{
    if delivery.message.is_some() || is_blank(delivery.text.as_str()) {
        return None;
    }
    let mut payload: Json = typed_event("delivery");
    payload.put("text", Json::text(delivery.text.as_str()));
    payload.put("conversation_id", Json::text(delivery.conversation_id.as_str()));
    payload.put("session_id", Json::opt_string(&delivery.session_id));
    let session: String = match &delivery.session_id {
        Some(s) => route_id_or_self(s.as_str()),
        None => route_id_or_self("main"),
    };
    Some(
        SessionEvent {
            conversation_id: delivery.conversation_id.clone(),
            foreground_session_id: session,
            payload,
        },
    )
}

/// The payload for a message that was added to the log.
pub open spec fn logged_payload(appended: OutgoingMessageAppended, message: JsonView) -> JsonView {
    typed("chat.message_appended"@).with(
        "conversation_id"@,
        JsonView::Text(appended.conversation_id@),
    ).with("session_id"@, JsonView::Text(appended.session_id@)).with(
        "foreground_session_id"@,
        JsonView::Text(route_or_self(appended.session_id@)),
    ).with("message_index"@, JsonView::number(appended.index as nat)).with(
        "message_id"@,
        JsonView::Text(appended.message.message_id@),
    ).with("message"@, message)
}

/// Shows a message that was added to the log.
pub fn appended_event(appended: &OutgoingMessageAppended, message: &Json) -> (r: SessionEvent)
    ensures
        r.is(
            appended.conversation_id@,
            route_or_self(appended.session_id@),
            logged_payload(*appended, message@),
        ),
{
    let session: String = route_id_or_self(appended.session_id.as_str());
    let mut payload: Json = typed_event("chat.message_appended");
    payload.put("conversation_id", Json::text(appended.conversation_id.as_str()));
    payload.put("session_id", Json::text(appended.session_id.as_str()));
    payload.put("foreground_session_id", Json::text(session.as_str()));
    payload.put("message_index", Json::count(appended.index));
    payload.put("message_id", Json::text(appended.message.message_id.as_str()));
    payload.put("message", message.copy());
    SessionEvent {
        conversation_id: appended.conversation_id.clone(),
        foreground_session_id: session,
        payload,
    }
}

/// The payload for an event of a stream, which it holds as a whole.
pub open spec fn nested_payload(stream: OutgoingSessionStream) -> JsonView {
    typed(public_type(stream_kind(stream.event@))).with(
        "conversation_id"@,
        JsonView::Text(stream.conversation_id@),
    ).with("session_id"@, JsonView::Text(stream.session_id@)).with("event"@, stream.event@)
}

/// Shows an event of a stream as a whole, below its own name.
pub fn nested_stream_event(stream: &OutgoingSessionStream) -> (r: SessionEvent)
    ensures
        r.is(
            stream.conversation_id@,
            route_or_self(stream.session_id@),
            nested_payload(*stream),
        ),
{
    let kind: &str = match stream.event.text_field("type") {
        Some(t) => t,
        None => "stream_event",
    };
    let public: String = public_chat_stream_type(kind);
    let mut payload: Json = typed_event(public.as_str());
    payload.put("conversation_id", Json::text(stream.conversation_id.as_str()));
    payload.put("session_id", Json::text(stream.session_id.as_str()));
    payload.put("event", stream.event.copy());
    SessionEvent {
        conversation_id: stream.conversation_id.clone(),
        foreground_session_id: route_id_or_self(stream.session_id.as_str()),
        payload,
    }
}

/// Shows an error.
pub fn error_event(error: &OutgoingError) -> (r: SessionEvent)
    ensures
        r.is(
            error.conversation_id@,
            "main"@,
            typed("error"@).with("code"@, JsonView::Text(error.code@)).with(
                "message"@,
                JsonView::Text(error.message@),
            ).with("detail"@, opt_value(opt_json(error.detail))).with(
                "can_continue"@,
                JsonView::Bool(error.can_continue),
            ),
        ),
{
    let mut payload: Json = typed_event("error");
    payload.put("code", Json::text(error.code.as_str()));
    payload.put("message", Json::text(error.message.as_str()));
    payload.put("detail", copy_or_null(&error.detail));
    payload.put("can_continue", Json::Bool(error.can_continue));
    SessionEvent {
        conversation_id: error.conversation_id.clone(),
        foreground_session_id: "main".to_owned(),
        payload,
    }
}

/// A session keeps the name that it was given until it gets another or loses it.
pub proof fn session_name_is_kept(
    metadata: ConversationMetadata,
    session: Seq<char>,
    nickname: String,
    named: ConversationMetadata,
)
    requires
        named.session_nicknames@ == metadata.session_nicknames@.insert(
            storage_id(session),
            nickname,
        ),
    ensures
        crate::web::summary::session_name(named, session) == nickname@,
{
}

} // verus!

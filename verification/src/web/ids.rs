//! Ids of sessions, and the keys made of them.

use vstd::prelude::*;
use crate::config::{join_path, joined};
use crate::loaders::estimator::{make_safe_component, safe_component};
use crate::text::{
    cat2, cat3, is_blank, opt_view, starts_with, strip_prefix, text_eq, trim, trimmed, views,
    without_prefix,
};
use crate::text_map::TextMap;
use crate::words::{contains, contains_char, find_seq, join, join_seq};

verus! {

#[derive(Debug)]
pub enum ServiceScope {
    Local,
    Conversation(String),
}

/// The address of a service.
#[derive(Debug)]
pub struct ServiceAddr {
    pub scope: ServiceScope,
    pub path: Vec<String>,
}

pub open spec fn storage_component(addr: ServiceAddr) -> Seq<char> {
    (match addr.scope {
        ServiceScope::Local => "local"@,
        ServiceScope::Conversation(id) => "conversation_"@ + id@,
    }) + "__"@ + join_seq(views(addr.path@), "__"@)
}

/// The name under which the data of a service is kept.
pub fn service_addr_storage_component(addr: &ServiceAddr) -> (r: String)
    ensures
        r@ == storage_component(*addr),
{
    let path: String = join(addr.path.as_slice(), "__");
    let scope: String = match &addr.scope {
        ServiceScope::Local => "local".to_owned(),
        ServiceScope::Conversation(id) => cat2("conversation_", id.as_str()),
    };
    cat3(scope.as_str(), "__", path.as_str())
}

pub open spec fn session_prefix() -> Seq<char> {
    "local__agent__foreground__"@
}

/// The id under which a foreground session is kept.
pub open spec fn storage_id(route: Seq<char>) -> Seq<char> {
    if session_prefix().is_prefix_of(route) {
        route
    } else {
        session_prefix() + route
    }
}

pub fn foreground_session_storage_id(foreground_session_id: &str) -> (r: String)
    ensures
        r@ == storage_id(foreground_session_id@),
{
    if starts_with(foreground_session_id, "local__agent__foreground__") {
        foreground_session_id.to_owned()
    } else {
        cat2("local__agent__foreground__", foreground_session_id)
    }
}

/// The id by which a foreground session is addressed.
pub open spec fn route_id(storage: Seq<char>) -> Option<Seq<char>> {
    without_prefix(storage, session_prefix())
}

pub fn foreground_route_id_from_storage_id(storage_id: &str) -> (r: Option<String>)
    ensures
        opt_view(r) == route_id(storage_id@),
{
    match strip_prefix(storage_id, "local__agent__foreground__") {
        Some(t) => Some(t.to_owned()),
        None => None,
    }
}

/// The id by which a session is addressed; an id of another kind stands for itself.
pub open spec fn route_or_self(session: Seq<char>) -> Seq<char> {
    match route_id(session) {
        Some(r) => r,
        None => session,
    }
}

pub fn route_id_or_self(session_id: &str) -> (r: String)
    ensures
        r@ == route_or_self(session_id@),
{
    match foreground_route_id_from_storage_id(session_id) {
        Some(t) => t,
        None => session_id.to_owned(),
    }
}

/// An id by which a session is addressed is found again from the one under which it is
/// kept, unless it looks like the latter already.
pub proof fn route_ids_are_found_again(route: Seq<char>)
    requires
        !session_prefix().is_prefix_of(route),
    ensures
        route_id(storage_id(route)) == Some(route),
        storage_id(storage_id(route)) == storage_id(route),
{
    let p = session_prefix();
    let s = storage_id(route);
    assert(s.take(p.len() as int) =~= p);
    assert(s.skip(p.len() as int) =~= route);
}

/// What is noted of a conversation.
#[derive(Debug)]
pub struct ConversationMetadata {
    pub conversation_id: String,
    pub nickname: String,
    pub channel_id: String,
    pub platform_chat_id: String,
    pub foreground_session_id: String,
    pub model_selection_pending: bool,
    pub session_nicknames: TextMap<String>,
}

/// The id of the session that a conversation starts with.
pub fn default_foreground_route_id(metadata: &ConversationMetadata) -> (r: String)
    ensures
        r@ == match route_id(metadata.foreground_session_id@) {
            Some(t) => t,
            None => "main"@,
        },
{
    match foreground_route_id_from_storage_id(metadata.foreground_session_id.as_str()) {
        Some(t) => t,
        None => "main".to_owned(),
    }
}

pub open spec fn seen_key(conversation_id: Seq<char>, session: Seq<char>) -> Seq<char> {
    conversation_id + ":"@ + storage_id(session)
}

pub fn conversation_seen_key(conversation_id: &str, foreground_session_id: &str) -> (r: String)
    ensures
        r@ == seen_key(conversation_id@, foreground_session_id@),
{
    let id: String = foreground_session_storage_id(foreground_session_id);
    cat3(conversation_id, ":", id.as_str())
}

pub fn websocket_key(conversation_id: &str, foreground_session_id: &str) -> (r: String)
    ensures
        r@ == conversation_id@ + ":"@ + foreground_session_id@,
{
    cat3(conversation_id, ":", foreground_session_id)
}

/// A session id as one part of a path.
pub fn sanitize_session_id_for_log_path(session_id: &str) -> (r: String)
    ensures
        r@ == safe_component(session_id@),
{
    make_safe_component(session_id)
}

/// The log of a session, below the directory of its conversation.
pub open spec fn log_place(root: Seq<char>, session: Seq<char>) -> Seq<char> {
    joined(
        joined(joined(joined(root, ".stellaclaw"@), "log"@), safe_component(session)),
        "all_messages.jsonl"@,
    )
}

pub fn message_log_path(conversation_root: &str, session_id: &str) -> (r: String)
    ensures
        r@ == log_place(conversation_root@, session_id@),
{
    let a: String = join_path(conversation_root, ".stellaclaw");
    let b: String = join_path(a.as_str(), "log");
    let own: String = sanitize_session_id_for_log_path(session_id);
    let c: String = join_path(b.as_str(), own.as_str());
    join_path(c.as_str(), "all_messages.jsonl")
}

/// The file that notes what was seen on a channel.
pub fn seen_state_path(workdir: &str, channel_id: &str) -> (r: String)
    ensures
        r@ == joined(
            joined(joined(joined(workdir@, ".stellaclaw"@), "web"@), channel_id@),
            "seen_state.json"@,
        ),
{
    let a: String = join_path(workdir, ".stellaclaw");
    let b: String = join_path(a.as_str(), "web");
    let c: String = join_path(b.as_str(), channel_id);
    join_path(c.as_str(), "seen_state.json")
}

/// The name of a conversation: its own, trimmed, else its id.
pub open spec fn nickname_of(conversation_id: Seq<char>, nickname: Seq<char>) -> Seq<char> {
    if trimmed(nickname).len() == 0 {
        conversation_id
    } else {
        trimmed(nickname)
    }
}

pub fn normalize_conversation_nickname(conversation_id: &str, nickname: &str) -> (r: String)
    ensures
        r@ == nickname_of(conversation_id@, nickname@),
{
    let t: &str = trim(nickname);
    if t.is_empty() {
        conversation_id.to_owned()
    } else {
        t.to_owned()
    }
}

pub fn conversation_nickname(metadata: &ConversationMetadata) -> (r: String)
    ensures
        r@ == nickname_of(metadata.conversation_id@, metadata.nickname@),
{
    normalize_conversation_nickname(
        metadata.conversation_id.as_str(),
        metadata.nickname.as_str(),
    )
}

/// Whether an id can name the directory of a conversation.
pub open spec fn is_conversation_id(id: Seq<char>) -> bool {
    trimmed(id).len() > 0 && !id.contains('/') && !id.contains('\\') && find_seq(id, ".."@) is None
}

pub fn validate_conversation_id(conversation_id: &str) -> (b: bool)
    ensures
        b == is_conversation_id(conversation_id@),
{
    !is_blank(conversation_id) && !contains_char(conversation_id, '/') && !contains_char(
        conversation_id,
        '\\',
    ) && !contains(conversation_id, "..")
}

/// The kind of a stream event as clients see it.
pub open spec fn public_type(event_type: Seq<char>) -> Seq<char> {
    "chat."@ + if event_type == "turn_started"@ {
        "stream_turn_start"@
    } else if event_type == "turn_completed"@ {
        "stream_turn_done"@
    } else {
        event_type
    }
}

pub fn public_chat_stream_type(event_type: &str) -> (r: String)
    ensures
        r@ == public_type(event_type@),
{
    if text_eq(event_type, "turn_started") {
        cat2("chat.", "stream_turn_start")
    } else if text_eq(event_type, "turn_completed") {
        cat2("chat.", "stream_turn_done")
    } else {
        cat2("chat.", event_type)
    }
}

} // verus!

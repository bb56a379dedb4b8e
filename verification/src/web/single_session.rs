//! Conversations that have one session each: what requests change, how they are
//! answered, and what clients are told.

use vstd::prelude::*;
use crate::channels::{
    processing_name, processing_state_name, ConversationControl, IncomingConversationMessage,
    OutgoingError, OutgoingErrorScope, OutgoingErrorSeverity, OutgoingSessionStream,
    ProcessingState,
};
use crate::chat::{FileItem, SelectionReferenceItem};
use crate::clock::{client_time, message_time_or_now};
use crate::config::StellaclawConfig;
use crate::json::{array_view, group_json, or_null, Json, JsonView};
use crate::json_ops::opt_json;
use crate::progress::{
    final_state_name, turn_progress_payload, OutgoingProgressFeedback, ProgressFeedbackFinalState,
};
use crate::text::{is_blank, opt_view, starts_with, text_eq, trim, trimmed};
use crate::text_map::TextMap;
use crate::web::control::{
    ingress_of, parse_web_control, web_control, web_control_to_channel_ingress, ControlIngress,
    IngressView,
};
use crate::web::conversations::{opt_value, seen_payload_value, seen_value, Reply};
use crate::web::history::{
    compare_message_ids, is_unread, order_of, seen_moves_on, ConversationMessageSummary,
    MessageOrder,
};
use crate::web::http::HttpError;
use crate::web::ids::{
    is_conversation_id, nickname_of, normalize_conversation_nickname, validate_conversation_id,
    ConversationMetadata,
};
use crate::web::main_state::{typed, ConversationSeen};
use crate::web::selection::{
    file_views, sanitize_selection_references, says_nothing, selection_views, SendMessageRequest,
};

verus! {

broadcast use group_json;

fn typed_event(kind: &str) -> (r: Json)
    ensures
        r@ == typed(kind@),
{
    let mut p: Json = Json::object();
    p.put("type", Json::text(kind));
    p
}

// ---------------------------------------------------------------------------
// Finding a conversation
// ---------------------------------------------------------------------------
/// Refuses ids that cannot name a conversation.
pub fn check_conversation_id(conversation_id: &str) -> (r: Result<(), HttpError>)
    ensures
        if is_conversation_id(conversation_id@) {
            r is Ok
        } else {
            r matches Err(e) && e.status == 400 && e.message@ == "invalid conversation id"@
        },
{
    if validate_conversation_id(conversation_id) {
        Ok(())
    } else {
        Err(HttpError::new(400, "invalid conversation id"))
    }
}

/// Hands out what is noted of a conversation of this channel; `None` is a conversation
/// of which nothing is noted.
pub fn own_conversation(metadata: Option<ConversationMetadata>, channel_id: &str) -> (r: Result<
    ConversationMetadata,
    HttpError,
>)
    ensures
        match metadata {
            Some(m) => if m.channel_id@ == channel_id@ {
                r == Ok::<ConversationMetadata, HttpError>(m)
            } else {
                r matches Err(e) && e.status == 404 && e.message@ == "conversation_not_found"@
            },
            None => r matches Err(e) && e.status == 404 && e.message@ == "conversation_not_found"@,
        },
{
    match metadata {
        Some(m) => if text_eq(m.channel_id.as_str(), channel_id) {
            Ok(m)
        } else {
            Err(HttpError::new(404, "conversation_not_found"))
        },
        None => Err(HttpError::new(404, "conversation_not_found")),
    }
}

/// Whether a conversation belongs to a channel.
pub open spec fn is_on_channel(m: ConversationMetadata, channel_id: Seq<char>) -> bool {
    m.channel_id@ == channel_id
}

/// Keeps the conversations of a channel, in order.
pub fn conversations_of_channel(list: Vec<ConversationMetadata>, channel_id: &str) -> (r: Vec<
    ConversationMetadata,
>)
    ensures
        r@ == list@.filter(|m: ConversationMetadata| is_on_channel(m, channel_id@)),
{
    let ghost all = list@;
    let ghost own = |m: ConversationMetadata| is_on_channel(m, channel_id@);
    let n: usize = list.len();
    let mut rest: Vec<ConversationMetadata> = list;
    let mut r: Vec<ConversationMetadata> = Vec::new();
    let mut i: usize = 0;
    proof {
        reveal(Seq::filter);
        assert(all.take(0) =~= Seq::empty());
    }
    while i < n
        invariant
            i <= n,
            n == all.len(),
            own == (|m: ConversationMetadata| is_on_channel(m, channel_id@)),
            rest@ == all.skip(i as int),
            r@ == all.take(i as int).filter(own),
        decreases n - i,
    {
        let m: ConversationMetadata = rest.remove(0);
        proof {
            reveal(Seq::filter);
            assert(all.skip(i as int).skip(1) =~= all.skip(i + 1));
            assert(rest@ =~= all.skip(i + 1));
            assert(all.take(i + 1).drop_last() =~= all.take(i as int));
            assert(all.take(i + 1).last() == m);
        }
        if text_eq(m.channel_id.as_str(), channel_id) {
            r.push(m);
        }
        i += 1;
    }
    assert(all.take(n as int) =~= all);
    r
}

/// Whether a conversation is the one of a chat on a channel.
pub open spec fn is_of_chat(
    m: ConversationMetadata,
    channel_id: Seq<char>,
    platform_chat_id: Seq<char>,
) -> bool {
    m.channel_id@ == channel_id && m.platform_chat_id@ == platform_chat_id
}

/// Finds the first conversation of a chat on a channel.
pub fn conversation_of_chat(
    list: Vec<ConversationMetadata>,
    channel_id: &str,
    platform_chat_id: &str,
) -> (r: Option<ConversationMetadata>)
    ensures
        match r {
            Some(m) => exists|i: int|
                0 <= i < list@.len() && m == #[trigger] list@[i] && is_of_chat(
                    m,
                    channel_id@,
                    platform_chat_id@,
                ) && forall|k: int|
                    0 <= k < i ==> !is_of_chat(
                        #[trigger] list@[k],
                        channel_id@,
                        platform_chat_id@,
                    ),
            None => forall|k: int|
                0 <= k < list@.len() ==> !is_of_chat(
                    #[trigger] list@[k],
                    channel_id@,
                    platform_chat_id@,
                ),
        },
{
    let ghost all = list@;
    let mut rest: Vec<ConversationMetadata> = list;
    let mut i: usize = 0;
    while i < rest.len()
        invariant
            all == list@,
            rest@ == all,
            i <= all.len(),
            forall|k: int|
                0 <= k < i ==> !is_of_chat(#[trigger] all[k], channel_id@, platform_chat_id@),
        decreases all.len() - i,
    {
        if text_eq(rest[i].channel_id.as_str(), channel_id) && text_eq(
            rest[i].platform_chat_id.as_str(),
            platform_chat_id,
        ) {
            let found: ConversationMetadata = rest.swap_remove(i);
            assert(found == all[i as int]);
            return Some(found);
        }
        i += 1;
    }
    None
}

// ---------------------------------------------------------------------------
// What a channel keeps
// ---------------------------------------------------------------------------
/// What was seen, what is being worked on, and how far it is.
#[derive(Debug)]
pub struct WebChannelBook {
    pub seen: TextMap<ConversationSeen>,
    pub processing: TextMap<ProcessingState>,
    pub progress: TextMap<Json>,
}

impl WebChannelBook {
    pub open spec fn wf(self) -> bool {
        self.seen.wf() && self.processing.wf() && self.progress.wf()
    }

    pub fn new(seen: TextMap<ConversationSeen>) -> (r: Self)
        requires
            seen.wf(),
        ensures
            r.wf(),
            r.seen == seen,
            r.processing@ == Map::<Seq<char>, ProcessingState>::empty(),
            r.progress@ == Map::<Seq<char>, Json>::empty(),
    {
        WebChannelBook { seen, processing: TextMap::new(), progress: TextMap::new() }
    }

    pub open spec fn state_of(self, platform_chat_id: Seq<char>) -> ProcessingState {
        if self.processing@.contains_key(platform_chat_id) {
            self.processing@[platform_chat_id]
        } else {
            ProcessingState::Idle
        }
    }

    pub fn processing_state(&self, platform_chat_id: &str) -> (r: ProcessingState)
        requires
            self.wf(),
        ensures
            r == self.state_of(platform_chat_id@),
    {
        match self.processing.get(platform_chat_id) {
            Some(s) => *s,
            None => ProcessingState::Idle,
        }
    }

    /// Notes the state of a chat; what rests is not noted.
    pub fn set_processing(&mut self, platform_chat_id: &str, state: ProcessingState)
        requires
            old(self).wf(),
        ensures
            final(self).wf(),
            final(self).processing@ == (if state == ProcessingState::Idle {
                old(self).processing@.remove(platform_chat_id@)
            } else {
                old(self).processing@.insert(platform_chat_id@, state)
            }),
            final(self).seen == old(self).seen,
            final(self).progress == old(self).progress,
            final(self).state_of(platform_chat_id@) == state,
    {
        match state {
            ProcessingState::Idle => {
                self.processing.remove(platform_chat_id);
            },
            ProcessingState::Typing => {
                self.processing.insert(platform_chat_id, state);
            },
        }
    }

    /// Notes how far a turn is, and tells it; a turn that is over is forgotten.
    pub fn update_progress(&mut self, feedback: &OutgoingProgressFeedback) -> (payload: Json)
        requires
            old(self).wf(),
        ensures
            final(self).wf(),
            payload@ == crate::progress::progress_event(*feedback),
            feedback.final_state is Some ==> final(self).progress@ == old(self).progress@.remove(
                feedback.platform_chat_id@,
            ),
            feedback.final_state is None ==> {
                let now = final(self).progress@;
                let chat = feedback.platform_chat_id@;
                &&& now.contains_key(chat)
                &&& now[chat]@ == payload@
                &&& now.remove(chat) =~= old(self).progress@.remove(chat)
            },
            final(self).seen == old(self).seen,
            final(self).processing == old(self).processing,
    {
        let payload: Json = turn_progress_payload(feedback);
        if feedback.final_state.is_some() {
            self.progress.remove(feedback.platform_chat_id.as_str());
        } else {
            self.progress.insert(feedback.platform_chat_id.as_str(), payload.copy());
        }
        payload
    }

    /// How far the turn of a conversation is.
    pub fn active_turn_progress(&self, metadata: &ConversationMetadata) -> (r: Option<Json>)
        requires
            self.wf(),
        ensures
            if self.progress@.contains_key(metadata.platform_chat_id@) {
                r matches Some(v) && v@ == addressed(
                    self.progress@[metadata.platform_chat_id@]@,
                    metadata.conversation_id@,
                    metadata.platform_chat_id@,
                )
            } else {
                r is None
            },
    {
        match self.progress.get(metadata.platform_chat_id.as_str()) {
            Some(v) => Some(
                event_for_subscriber(
                    v,
                    metadata.conversation_id.as_str(),
                    metadata.platform_chat_id.as_str(),
                ),
            ),
            None => None,
        }
    }

    /// Forgets a conversation. The answer says whether something had been seen of it.
    pub fn forget(&mut self, conversation_id: &str, platform_chat_id: &str) -> (had_seen: bool)
        requires
            old(self).wf(),
        ensures
            final(self).wf(),
            had_seen == old(self).seen@.contains_key(conversation_id@),
            final(self).seen@ == old(self).seen@.remove(conversation_id@),
            final(self).progress@ == old(self).progress@.remove(platform_chat_id@),
            final(self).processing == old(self).processing,
    {
        let had_seen: bool = self.seen.contains_key(conversation_id);
        self.seen.remove(conversation_id);
        self.progress.remove(platform_chat_id);
        had_seen
    }

    /// What counts as seen after a client has seen a message: the later of what was seen
    /// before and that message. The indices are those of the two messages in the log.
    pub open spec fn seen_after(
        self,
        conversation_id: Seq<char>,
        message_id: Seq<char>,
        before_index: Option<usize>,
        now_index: Option<usize>,
        now: Seq<char>,
    ) -> (Seq<char>, Seq<char>) {
        if self.seen@.contains_key(conversation_id) {
            let before = self.seen@[conversation_id]@;
            let order = order_of(before.0, message_id, before_index, now_index);
            if order is None || order == Some(MessageOrder::Before) {
                (message_id, now)
            } else {
                before
            }
        } else {
            (message_id, now)
        }
    }

    /// Notes that a client has seen a message.
    pub fn mark_seen(
        &mut self,
        conversation_id: &str,
        message_id: &str,
        before_index: Option<usize>,
        now_index: Option<usize>,
        now: &str,
    ) -> (r: ConversationSeen)
        requires
            old(self).wf(),
        ensures
            final(self).wf(),
            r@ == old(self).seen_after(
                conversation_id@,
                message_id@,
                before_index,
                now_index,
                now@,
            ),
            final(self).seen@.contains_key(conversation_id@),
            final(self).seen@[conversation_id@]@ == r@,
            final(self).seen@.remove(conversation_id@) =~= old(self).seen@.remove(
                conversation_id@,
            ),
            final(self).processing == old(self).processing,
            final(self).progress == old(self).progress,
    {
        let kept: Option<ConversationSeen> = match self.seen.get(conversation_id) {
            Some(before) => {
                let order: Option<MessageOrder> = compare_message_ids(
                    before.last_seen_message_id.as_str(),
                    message_id,
                    before_index,
                    now_index,
                );
                if seen_moves_on(order) {
                    None
                } else {
                    Some(before.copy())
                }
            },
            None => None,
        };
        let seen: ConversationSeen = match kept {
            Some(s) => s,
            None => ConversationSeen {
                last_seen_message_id: message_id.to_owned(),
                updated_at: now.to_owned(),
            },
        };
        self.seen.insert(conversation_id, seen.copy());
        seen
    }
}

/// What was seen never moves back to an earlier message.
pub proof fn seen_never_moves_back(
    book: WebChannelBook,
    conversation_id: Seq<char>,
    message_id: Seq<char>,
    before_index: Option<usize>,
    now_index: Option<usize>,
    now: Seq<char>,
)
    requires
        book.seen@.contains_key(conversation_id),
        order_of(
            book.seen@[conversation_id]@.0,
            message_id,
            before_index,
            now_index,
        ) == Some(MessageOrder::After),
    ensures
        book.seen_after(conversation_id, message_id, before_index, now_index, now)
            == book.seen@[conversation_id]@,
{
}

// ---------------------------------------------------------------------------
// Creating and changing conversations
// ---------------------------------------------------------------------------
/// What a new conversation is to be like.
#[derive(Debug)]
pub struct CreateConversationRequest {
    pub platform_chat_id: Option<String>,
    pub model: Option<String>,
    pub nickname: Option<String>,
}

pub open spec fn chosen_model(config: StellaclawConfig, model: Option<Seq<char>>) -> Result<
    Option<IngressView>,
    Seq<char>,
> {
    match model {
        None => Ok(None),
        Some(name) => match ingress_of(
            config,
            crate::channels::ControlView::SwitchModel { model_name: name },
        ) {
            Ok(v) => Ok(Some(v)),
            Err(e) => Err(e),
        },
    }
}

/// Sets up a new conversation. What is to be asked of it comes back.
pub fn set_up_conversation(
    config: &StellaclawConfig,
    metadata: &mut ConversationMetadata,
    request: &CreateConversationRequest,
) -> (r: Result<Option<ControlIngress>, HttpError>)
    requires
        config.wf(),
    ensures
        match chosen_model(*config, opt_view(request.model)) {
            Err(message) => *final(metadata) == *old(metadata) && (r matches Err(e) && e.status
                == 400 && e.message@ == message),
            Ok(v) => {
                &&& match v {
                    Some(view) => r matches Ok(Some(i)) && i.is(view),
                    None => r matches Ok(None),
                }
                &&& final(metadata).nickname@ == (match request.nickname {
                    Some(n) => nickname_of(old(metadata).conversation_id@, n@),
                    None => old(metadata).nickname@,
                })
                &&& final(metadata).model_selection_pending == (old(metadata).model_selection_pending
                    && v is None)
                &&& *final(metadata) == (ConversationMetadata {
                    nickname: final(metadata).nickname,
                    model_selection_pending: final(metadata).model_selection_pending,
                    ..*old(metadata)
                })
            },
        },
{
    let mut patch: Option<ControlIngress> = None;
    if let Some(model) = &request.model {
        let control: ConversationControl = ConversationControl::SwitchModel {
            model_name: model.clone(),
        };
        match web_control_to_channel_ingress(config, &control) {
            Ok(i) => {
                patch = Some(i);
            },
            Err(e) => {
                return Err(e);
            },
        }
        metadata.model_selection_pending = false;
    }
    if let Some(nickname) = &request.nickname {
        metadata.nickname = normalize_conversation_nickname(
            metadata.conversation_id.as_str(),
            nickname.as_str(),
        );
    }
    Ok(patch)
}

pub fn created_reply(
    metadata: &ConversationMetadata,
    channel_id: &str,
    platform_chat_id: &str,
) -> (r: Reply)
    ensures
        r.is(
            201,
            JsonView::empty_object().with(
                "conversation_id"@,
                JsonView::Text(metadata.conversation_id@),
            ).with("nickname"@, JsonView::Text(metadata.nickname@)).with(
                "channel_id"@,
                JsonView::Text(channel_id@),
            ).with("platform_chat_id"@, JsonView::Text(platform_chat_id@)).with(
                "model_selection_pending"@,
                JsonView::Bool(metadata.model_selection_pending),
            ),
        ),
{
    let mut payload: Json = Json::object();
    payload.put("conversation_id", Json::text(metadata.conversation_id.as_str()));
    payload.put("nickname", Json::text(metadata.nickname.as_str()));
    payload.put("channel_id", Json::text(channel_id));
    payload.put("platform_chat_id", Json::text(platform_chat_id));
    payload.put("model_selection_pending", Json::Bool(metadata.model_selection_pending));
    Reply { status: 201, payload }
}

/// What a conversation answers to a change of what is noted of it.
#[derive(Debug)]
pub enum KernelResponse {
    MetadataUpdated { metadata: ConversationMetadata },
    Metadata { metadata: ConversationMetadata },
    Error { message: String },
    Other,
}

/// What is noted of a conversation after it was asked to change it. An error counts as
/// one only where errors are expected.
pub fn changed_metadata(response: KernelResponse, errors_are_expected: bool) -> (r: Result<
    ConversationMetadata,
    HttpError,
>)
    ensures
        match response {
            KernelResponse::MetadataUpdated { metadata } => r == Ok::<
                ConversationMetadata,
                HttpError,
            >(metadata),
            KernelResponse::Metadata { metadata } => r == Ok::<ConversationMetadata, HttpError>(
                metadata,
            ),
            KernelResponse::Error { message } => r matches Err(e) && if errors_are_expected {
                e.status == 400 && e.message@ == message@
            } else {
                e.status == 500 && e.message@ == "unexpected kernel metadata response"@
            },
            KernelResponse::Other => r matches Err(e) && e.status == 500 && e.message@
                == "unexpected kernel metadata response"@,
        },
{
    match response {
        KernelResponse::MetadataUpdated { metadata } => Ok(metadata),
        KernelResponse::Metadata { metadata } => Ok(metadata),
        KernelResponse::Error { message } => if errors_are_expected {
            Err(HttpError::new(400, message.as_str()))
        } else {
            Err(HttpError::internal("unexpected kernel metadata response"))
        },
        KernelResponse::Other => Err(HttpError::internal("unexpected kernel metadata response")),
    }
}

pub fn deleted_reply(conversation_id: &str) -> (r: Reply)
    ensures
        r.is(
            200,
            JsonView::empty_object().with(
                "conversation_id"@,
                JsonView::Text(conversation_id@),
            ).with("deleted"@, JsonView::Bool(true)),
        ),
{
    let mut payload: Json = Json::object();
    payload.put("conversation_id", Json::text(conversation_id));
    payload.put("deleted", Json::Bool(true));
    Reply { status: 200, payload }
}

pub fn seen_reply(conversation_id: &str, seen: &ConversationSeen) -> (r: Reply)
    ensures
        r.is(
            200,
            JsonView::empty_object().with(
                "conversation_id"@,
                JsonView::Text(conversation_id@),
            ).with("seen"@, seen_value(seen@)),
        ),
{
    let mut payload: Json = Json::object();
    payload.put("conversation_id", Json::text(conversation_id));
    payload.put("seen", seen_payload_value(seen));
    Reply { status: 200, payload }
}

// ---------------------------------------------------------------------------
// Sending a message
// ---------------------------------------------------------------------------
/// What a message asks for as a command, where it starts with a slash.
pub open spec fn sent_control(text: Seq<char>) -> Option<crate::channels::ControlView> {
    if "/"@.is_prefix_of(trimmed(text)) {
        web_control(trimmed(text))
    } else {
        None
    }
}

fn read_control(text: &str) -> (r: Option<ConversationControl>)
    ensures
        crate::channels::opt_control(r) == sent_control(text@),
{
    let t: &str = trim(text);
    if starts_with(t, "/") {
        parse_web_control(t)
    } else {
        None
    }
}

/// The message that is passed on. `files` are its files, which have been stored, and
/// `now` is its time where the client states none.
pub fn incoming_message(
    request: SendMessageRequest,
    remote_message_id: String,
    files: Vec<FileItem>,
    now: String,
) -> (r: Result<IncomingConversationMessage, HttpError>)
    ensures
        ({
            let text = crate::web::selection::requested_text(request);
            let selections = crate::web::selection::requested_selections(request);
            if says_nothing(text, selections, file_views(files@)) {
                r matches Err(e) && e.status == 400 && e.message@
                    == "message requires text, files, or selection references"@
            } else {
                &&& r matches Ok(m)
                &&& m.remote_message_id == remote_message_id
                &&& m.user_name == request.user_name
                &&& opt_view(m.message_time) == Some(
                    match client_time(opt_view(request.message_time)) {
                        Some(t) => t,
                        None => now@,
                    },
                )
                &&& opt_view(m.text) == (if text.len() == 0 {
                    None
                } else {
                    Some(text)
                })
                &&& selection_views(m.selection_references@) == selections
                &&& m.files == files
                &&& crate::channels::opt_control(m.control) == sent_control(text)
            }
        }),
{
    let text: String = match request.text {
        Some(t) => t,
        None => "".to_owned(),
    };
    let selections: Vec<SelectionReferenceItem> = match request.selection_references {
        Some(s) => sanitize_selection_references(s),
        None => Vec::new(),
    };
    proof {
        assert(selection_views(selections@) =~= crate::web::selection::requested_selections(
            request,
        ));
        assert(file_views(files@).len() == files@.len());
    }
    if is_blank(text.as_str()) && files.len() == 0 && selections.len() == 0 {
        return Err(HttpError::new(400, "message requires text, files, or selection references"));
    }
    let control: Option<ConversationControl> = read_control(text.as_str());
    let message_time: String = message_time_or_now(&request.message_time, now);
    let text: Option<String> = if text.as_str().is_empty() {
        None
    } else {
        Some(text)
    };
    Ok(
        IncomingConversationMessage {
            remote_message_id,
            user_name: request.user_name,
            message_time: Some(message_time),
            text,
            selection_references: selections,
            files,
            control,
        },
    )
}

/// Answers a message that was passed on.
pub fn message_accepted(conversation_id: &str, remote_message_id: &str) -> (r: Reply)
    ensures
        r.is(
            202,
            JsonView::empty_object().with(
                "conversation_id"@,
                JsonView::Text(conversation_id@),
            ).with("remote_message_id"@, JsonView::Text(remote_message_id@)).with(
                "accepted"@,
                JsonView::Bool(true),
            ),
        ),
{
    let mut payload: Json = Json::object();
    payload.put("conversation_id", Json::text(conversation_id));
    payload.put("remote_message_id", Json::text(remote_message_id));
    payload.put("accepted", Json::Bool(true));
    Reply { status: 202, payload }
}

/// Refuses messages to sessions that are not there: only the main session is.
pub fn check_session(session_id: &str) -> (r: Result<(), HttpError>)
    ensures
        if session_id@ == "main"@ {
            r is Ok
        } else {
            r matches Err(e) && e.status == 404 && e.message@
                == "foreground session is not mounted on this web channel"@
        },
{
    if text_eq(session_id, "main") {
        Ok(())
    } else {
        Err(HttpError::new(404, "foreground session is not mounted on this web channel"))
    }
}

/// What a message to the main session asks for as a command.
pub fn session_control(text: &Option<String>) -> (r: Option<ConversationControl>)
    ensures
        crate::channels::opt_control(r) == match *text {
            Some(t) => sent_control(t@),
            None => None,
        },
{
    match text {
        Some(t) => read_control(t.as_str()),
        None => None,
    }
}

pub fn session_message_accepted(
    conversation_id: &str,
    session_id: &str,
    remote_message_id: &str,
    control: bool,
) -> (r: Reply)
    ensures
        ({
            let p = JsonView::empty_object().with(
                "conversation_id"@,
                JsonView::Text(conversation_id@),
            ).with("foreground_session_id"@, JsonView::Text(session_id@)).with(
                "remote_message_id"@,
                JsonView::Text(remote_message_id@),
            ).with("accepted"@, JsonView::Bool(true));
            r.is(
                202,
                if control {
                    p.with("control"@, JsonView::Bool(true))
                } else {
                    p
                },
            )
        }),
{
    let mut payload: Json = Json::object();
    payload.put("conversation_id", Json::text(conversation_id));
    payload.put("foreground_session_id", Json::text(session_id));
    payload.put("remote_message_id", Json::text(remote_message_id));
    payload.put("accepted", Json::Bool(true));
    if control {
        payload.put("control", Json::Bool(true));
    }
    Reply { status: 202, payload }
}

pub fn session_message_metadata(channel_id: &str, session_id: &str) -> (r: Json)
    ensures
        r@ == JsonView::empty_object().with("channel_id"@, JsonView::Text(channel_id@)).with(
            "web_session_id"@,
            JsonView::Text(session_id@),
        ),
{
    let mut p: Json = Json::object();
    p.put("channel_id", Json::text(channel_id));
    p.put("web_session_id", Json::text(session_id));
    p
}

// ---------------------------------------------------------------------------
// Lists of messages
// ---------------------------------------------------------------------------
/// A page of messages, each given as a value.
pub fn message_page_payload(
    conversation_id: &str,
    offset: usize,
    limit: usize,
    total: usize,
    messages: Vec<Json>,
) -> (r: Json)
    ensures
        r@ == JsonView::empty_object().with(
            "conversation_id"@,
            JsonView::Text(conversation_id@),
        ).with("offset"@, JsonView::number(offset as nat)).with(
            "limit"@,
            JsonView::number(limit as nat),
        ).with("total"@, JsonView::number(total as nat)).with(
            "messages"@,
            JsonView::Array(array_view(messages@)),
        ),
{
    let mut p: Json = Json::object();
    p.put("conversation_id", Json::text(conversation_id));
    p.put("offset", Json::count(offset));
    p.put("limit", Json::count(limit));
    p.put("total", Json::count(total));
    p.put("messages", Json::Array(messages));
    p
}

/// What a client is told when it begins to watch a conversation.
pub open spec fn ack_payload(
    conversation_id: Seq<char>,
    session_id: Seq<char>,
    last_message_id: Option<Seq<char>>,
    message_count: nat,
    reason: Seq<char>,
    turn_progress: JsonView,
) -> JsonView {
    typed("subscription_ack"@).with("reason"@, JsonView::Text(reason)).with(
        "conversation_id"@,
        JsonView::Text(conversation_id),
    ).with("session_id"@, JsonView::Text(session_id)).with(
        "current_message_id"@,
        or_null(last_message_id),
    ).with("next_message_index"@, JsonView::number(message_count)).with(
        "total"@,
        JsonView::number(message_count),
    ).with("turn_progress"@, turn_progress)
}

pub fn websocket_subscription_ack(
    metadata: &ConversationMetadata,
    message_summary: &ConversationMessageSummary,
    reason: &str,
    turn_progress: Option<Json>,
) -> (r: Json)
    ensures
        r@ == ack_payload(
            metadata.conversation_id@,
            metadata.foreground_session_id@,
            opt_view(message_summary.last_message_id),
            message_summary.message_count as nat,
            reason@,
            opt_value(opt_json(turn_progress)),
        ),
{
    let mut p: Json = typed_event("subscription_ack");
    p.put("reason", Json::text(reason));
    p.put("conversation_id", Json::text(metadata.conversation_id.as_str()));
    p.put("session_id", Json::text(metadata.foreground_session_id.as_str()));
    p.put("current_message_id", Json::opt_string(&message_summary.last_message_id));
    p.put("next_message_index", Json::count(message_summary.message_count));
    p.put("total", Json::count(message_summary.message_count));
    let progress: Json = match turn_progress {
        Some(v) => v,
        None => Json::Null,
    };
    p.put("turn_progress", progress);
    p
}

/// Messages for those that watch a conversation.
pub fn websocket_messages_payload(
    metadata: &ConversationMetadata,
    start: usize,
    end: usize,
    total: usize,
    messages: Vec<Json>,
) -> (r: Json)
    ensures
        r@ == typed("messages"@).with(
            "conversation_id"@,
            JsonView::Text(metadata.conversation_id@),
        ).with("session_id"@, JsonView::Text(metadata.foreground_session_id@)).with(
            "offset"@,
            JsonView::number(start as nat),
        ).with("start_index"@, JsonView::number(start as nat)).with(
            "end_index"@,
            JsonView::number(end as nat),
        ).with("total"@, JsonView::number(total as nat)).with(
            "messages"@,
            JsonView::Array(array_view(messages@)),
        ),
{
    let mut p: Json = typed_event("messages");
    p.put("conversation_id", Json::text(metadata.conversation_id.as_str()));
    p.put("session_id", Json::text(metadata.foreground_session_id.as_str()));
    p.put("offset", Json::count(start));
    p.put("start_index", Json::count(start));
    p.put("end_index", Json::count(end));
    p.put("total", Json::count(total));
    p.put("messages", Json::Array(messages));
    p
}

/// Where a new message is shown: only in the session that is watched, at its own place
/// or at the end of the log.
pub fn foreground_message_index(
    metadata: &ConversationMetadata,
    conversation_id: &str,
    session_id: Option<&str>,
    message_index: Option<usize>,
    total: usize,
) -> (r: Option<usize>)
    ensures
        r == (if metadata.conversation_id@ != conversation_id@ || (session_id matches Some(s)
            && s@ != metadata.foreground_session_id@) {
            None
        } else {
            match message_index {
                Some(i) => Some(i),
                None => if total > 0 {
                    Some((total - 1) as usize)
                } else {
                    None
                },
            }
        }),
{
    if !text_eq(metadata.conversation_id.as_str(), conversation_id) {
        return None;
    }
    if let Some(s) = session_id {
        if !text_eq(s, metadata.foreground_session_id.as_str()) {
            return None;
        }
    }
    match message_index {
        Some(i) => Some(i),
        None => if total > 0 {
            Some(total - 1)
        } else {
            None
        },
    }
}

// ---------------------------------------------------------------------------
// Events
// ---------------------------------------------------------------------------
/// An event that says which conversation it is about, where it did not say so.
pub open spec fn addressed(
    event: JsonView,
    conversation_id: Seq<char>,
    platform_chat_id: Seq<char>,
) -> JsonView {
    let a = if event.field("conversation_id"@) is None {
        event.with("conversation_id"@, JsonView::Text(conversation_id))
    } else {
        event
    };
    if a.field("platform_chat_id"@) is None {
        a.with("platform_chat_id"@, JsonView::Text(platform_chat_id))
    } else {
        a
    }
}

pub fn event_for_subscriber(event: &Json, conversation_id: &str, platform_chat_id: &str) -> (r: Json)
    ensures
        r@ == addressed(event@, conversation_id@, platform_chat_id@),
{
    let mut e: Json = event.copy();
    if e.get("conversation_id").is_none() {
        e.put("conversation_id", Json::text(conversation_id));
    }
    if e.get("platform_chat_id").is_none() {
        e.put("platform_chat_id", Json::text(platform_chat_id));
    }
    e
}

/// The event that tells what was seen of a conversation.
pub fn conversation_seen_event(channel_id: &str, conversation_id: &str, seen: &ConversationSeen) -> (r:
    Json)
    ensures
        r@ == typed("conversation_seen"@).with("channel_id"@, JsonView::Text(channel_id@)).with(
            "conversation_id"@,
            JsonView::Text(conversation_id@),
        ).with("seen"@, seen_value(seen@)),
{
    let mut p: Json = typed_event("conversation_seen");
    p.put("channel_id", Json::text(channel_id));
    p.put("conversation_id", Json::text(conversation_id));
    p.put("seen", seen_payload_value(seen));
    p
}

/// The event that tells that a conversation is gone.
pub fn conversation_deleted_event(
    channel_id: &str,
    conversation_id: &str,
    platform_chat_id: &str,
) -> (r: Json)
    ensures
        r@ == typed("conversation_deleted"@).with("channel_id"@, JsonView::Text(channel_id@)).with(
            "conversation_id"@,
            JsonView::Text(conversation_id@),
        ).with("platform_chat_id"@, JsonView::Text(platform_chat_id@)),
{
    let mut p: Json = typed_event("conversation_deleted");
    p.put("channel_id", Json::text(channel_id));
    p.put("conversation_id", Json::text(conversation_id));
    p.put("platform_chat_id", Json::text(platform_chat_id));
    p
}

/// The event that shows a conversation that is new or has changed.
pub fn conversation_upserted_event(channel_id: &str, conversation_id: &str, summary: Json) -> (r:
    Json)
    ensures
        r@ == typed("conversation_upserted"@).with("channel_id"@, JsonView::Text(channel_id@)).with(
            "conversation_id"@,
            JsonView::Text(conversation_id@),
        ).with("conversation"@, summary@),
{
    let mut p: Json = typed_event("conversation_upserted");
    p.put("channel_id", Json::text(channel_id));
    p.put("conversation_id", Json::text(conversation_id));
    p.put("conversation", summary);
    p
}

/// The event that tells whether a conversation is being worked on.
pub fn conversation_processing_event(
    channel_id: &str,
    conversation_id: &str,
    platform_chat_id: &str,
    state: ProcessingState,
) -> (r: Json)
    ensures
        r@ == typed("conversation_processing"@).with(
            "channel_id"@,
            JsonView::Text(channel_id@),
        ).with("conversation_id"@, JsonView::Text(conversation_id@)).with(
            "platform_chat_id"@,
            JsonView::Text(platform_chat_id@),
        ).with("processing_state"@, JsonView::Text(processing_name(state))).with(
            "running"@,
            JsonView::Bool(state != ProcessingState::Idle),
        ),
{
    let running: bool = match state {
        ProcessingState::Idle => false,
        ProcessingState::Typing => true,
    };
    let mut p: Json = typed_event("conversation_processing");
    p.put("channel_id", Json::text(channel_id));
    p.put("conversation_id", Json::text(conversation_id));
    p.put("platform_chat_id", Json::text(platform_chat_id));
    p.put("processing_state", Json::text(processing_state_name(state)));
    p.put("running", Json::Bool(running));
    p
}

/// What clients see first that watch all conversations.
pub fn conversation_snapshot(channel_id: &str, conversations: Vec<Json>) -> (r: Json)
    ensures
        r@ == typed("conversation_snapshot"@).with("channel_id"@, JsonView::Text(channel_id@)).with(
            "conversations"@,
            JsonView::Array(array_view(conversations@)),
        ),
{
    let mut p: Json = typed_event("conversation_snapshot");
    p.put("channel_id", Json::text(channel_id));
    p.put("conversations", Json::Array(conversations));
    p
}

/// A turn that is over, as the event about it tells.
pub open spec fn turn_completed_payload(
    channel_id: Seq<char>,
    metadata: ConversationMetadata,
    turn_id: Option<Seq<char>>,
    final_state: Option<ProgressFeedbackFinalState>,
    messages: ConversationMessageSummary,
    last_message_id: Seq<char>,
    seen: Option<ConversationSeen>,
    unread: bool,
    summary: JsonView,
) -> JsonView {
    typed("conversation_turn_completed"@).with("channel_id"@, JsonView::Text(channel_id)).with(
        "conversation_id"@,
        JsonView::Text(metadata.conversation_id@),
    ).with("platform_chat_id"@, JsonView::Text(metadata.platform_chat_id@)).with(
        "turn_id"@,
        or_null(turn_id),
    ).with("final_state"@, or_null(final_state_name(final_state))).with(
        "message_count"@,
        JsonView::number(messages.message_count as nat),
    ).with("last_message_id"@, JsonView::Text(last_message_id)).with(
        "last_message_time"@,
        or_null(opt_view(messages.last_message_time)),
    ).with(
        "last_seen_message_id"@,
        match seen {
            Some(s) => JsonView::Text(s.last_seen_message_id@),
            None => JsonView::Null,
        },
    ).with(
        "last_seen_at"@,
        match seen {
            Some(s) => JsonView::Text(s.updated_at@),
            None => JsonView::Null,
        },
    ).with("unread"@, JsonView::Bool(unread)).with("conversation"@, summary)
}

/// Whether the last message is still to be seen.
pub open spec fn last_is_unread(
    last_message_id: Seq<char>,
    seen: Option<ConversationSeen>,
    last_index: Option<usize>,
    seen_index: Option<usize>,
) -> bool {
    match seen {
        None => true,
        Some(s) => {
            let order = order_of(last_message_id, s.last_seen_message_id@, last_index, seen_index);
            order is None || order == Some(MessageOrder::After)
        },
    }
}

/// The event that tells that a turn is over; nothing is told of a conversation without
/// messages.
pub fn turn_completed_event(
    channel_id: &str,
    metadata: &ConversationMetadata,
    turn_id: Option<&str>,
    final_state: Option<ProgressFeedbackFinalState>,
    messages: &ConversationMessageSummary,
    seen: &Option<ConversationSeen>,
    last_index: Option<usize>,
    seen_index: Option<usize>,
    summary: Json,
) -> (r: Option<Json>)
    ensures
        match messages.last_message_id {
            None => r is None,
            Some(id) => r matches Some(p) && p@ == turn_completed_payload(
                channel_id@,
                *metadata,
                crate::text::opt_str_view(turn_id),
                final_state,
                *messages,
                id@,
                *seen,
                last_is_unread(id@, *seen, last_index, seen_index),
                summary@,
            ),
        },
{
    let last: &str = match &messages.last_message_id {
        Some(id) => id.as_str(),
        None => {
            return None;
        },
    };
    let unread: bool = match seen {
        Some(s) => is_unread(
            compare_message_ids(last, s.last_seen_message_id.as_str(), last_index, seen_index),
        ),
        None => true,
    };
    let state: Option<&str> = match final_state {
        Some(ProgressFeedbackFinalState::Done) => Some("done"),
        Some(ProgressFeedbackFinalState::Failed) => Some("failed"),
        None => None,
    };
    let mut p: Json = typed_event("conversation_turn_completed");
    p.put("channel_id", Json::text(channel_id));
    p.put("conversation_id", Json::text(metadata.conversation_id.as_str()));
    p.put("platform_chat_id", Json::text(metadata.platform_chat_id.as_str()));
    p.put("turn_id", Json::opt_text(turn_id));
    p.put("final_state", Json::opt_text(state));
    p.put("message_count", Json::count(messages.message_count));
    p.put("last_message_id", Json::text(last));
    p.put("last_message_time", Json::opt_string(&messages.last_message_time));
    let (id, at): (Json, Json) = match seen {
        Some(s) => (
            Json::text(s.last_seen_message_id.as_str()),
            Json::text(s.updated_at.as_str()),
        ),
        None => (Json::Null, Json::Null),
    };
    p.put("last_seen_message_id", id);
    p.put("last_seen_at", at);
    p.put("unread", Json::Bool(unread));
    p.put("conversation", summary);
    Some(p)
}

/// Shows an event of a stream.
pub fn session_stream_event(stream: &OutgoingSessionStream) -> (r: Json)
    ensures
        r@ == typed("session_stream"@).with(
            "conversation_id"@,
            JsonView::Text(stream.conversation_id@),
        ).with("session_id"@, JsonView::Text(stream.session_id@)).with("event"@, stream.event@),
{
    let mut p: Json = typed_event("session_stream");
    p.put("conversation_id", Json::text(stream.conversation_id.as_str()));
    p.put("session_id", Json::text(stream.session_id.as_str()));
    p.put("event", stream.event.copy());
    p
}

pub open spec fn scope_name(scope: OutgoingErrorScope) -> Seq<char> {
    match scope {
        OutgoingErrorScope::Turn => "turn"@,
        OutgoingErrorScope::Runtime => "runtime"@,
        OutgoingErrorScope::Control => "control"@,
        OutgoingErrorScope::Configuration => "configuration"@,
        OutgoingErrorScope::RemoteWorkspace => "remote_workspace"@,
        OutgoingErrorScope::Sandbox => "sandbox"@,
        OutgoingErrorScope::Attachment => "attachment"@,
        OutgoingErrorScope::Delivery => "delivery"@,
        OutgoingErrorScope::BackgroundSession => "background_session"@,
        OutgoingErrorScope::Subagent => "subagent"@,
    }
}

fn scope_label(scope: OutgoingErrorScope) -> (r: &'static str)
    ensures
        r@ == scope_name(scope),
{
    match scope {
        OutgoingErrorScope::Turn => "turn",
        OutgoingErrorScope::Runtime => "runtime",
        OutgoingErrorScope::Control => "control",
        OutgoingErrorScope::Configuration => "configuration",
        OutgoingErrorScope::RemoteWorkspace => "remote_workspace",
        OutgoingErrorScope::Sandbox => "sandbox",
        OutgoingErrorScope::Attachment => "attachment",
        OutgoingErrorScope::Delivery => "delivery",
        OutgoingErrorScope::BackgroundSession => "background_session",
        OutgoingErrorScope::Subagent => "subagent",
    }
}

pub open spec fn severity_name(severity: OutgoingErrorSeverity) -> Seq<char> {
    match severity {
        OutgoingErrorSeverity::Info => "info"@,
        OutgoingErrorSeverity::Warning => "warning"@,
        OutgoingErrorSeverity::Error => "error"@,
    }
}

fn severity_label(severity: OutgoingErrorSeverity) -> (r: &'static str)
    ensures
        r@ == severity_name(severity),
{
    match severity {
        OutgoingErrorSeverity::Info => "info",
        OutgoingErrorSeverity::Warning => "warning",
        OutgoingErrorSeverity::Error => "error",
    }
}

/// What an error says, in the order in which it is told.
pub open spec fn error_fields(head: JsonView, error: OutgoingError) -> JsonView {
    head.with("conversation_id"@, JsonView::Text(error.conversation_id@)).with(
        "scope"@,
        JsonView::Text(scope_name(error.scope)),
    ).with("severity"@, JsonView::Text(severity_name(error.severity))).with(
        "code"@,
        JsonView::Text(error.code@),
    ).with("message"@, JsonView::Text(error.message@)).with(
        "detail"@,
        opt_value(opt_json(error.detail)),
    ).with("can_continue"@, JsonView::Bool(error.can_continue)).with(
        "suggested_action"@,
        or_null(opt_view(error.suggested_action)),
    )
}

fn put_error_fields(p: &mut Json, error: &OutgoingError)
    ensures
        final(p)@ == error_fields(old(p)@, *error),
{
    p.put("conversation_id", Json::text(error.conversation_id.as_str()));
    p.put("scope", Json::text(scope_label(error.scope)));
    p.put("severity", Json::text(severity_label(error.severity)));
    p.put("code", Json::text(error.code.as_str()));
    p.put("message", Json::text(error.message.as_str()));
    let detail: Json = match &error.detail {
        Some(d) => d.copy(),
        None => Json::Null,
    };
    p.put("detail", detail);
    p.put("can_continue", Json::Bool(error.can_continue));
    p.put("suggested_action", Json::opt_string(&error.suggested_action));
}

/// Shows an error, also as a whole.
pub fn error_event(error: &OutgoingError) -> (r: Json)
    ensures
        r@ == error_fields(typed("error"@), *error).with(
            "error"@,
            error_fields(
                JsonView::empty_object().with(
                    "channel_id"@,
                    JsonView::Text(error.channel_id@),
                ).with("platform_chat_id"@, JsonView::Text(error.platform_chat_id@)),
                *error,
            ),
        ),
{
    let mut whole: Json = Json::object();
    whole.put("channel_id", Json::text(error.channel_id.as_str()));
    whole.put("platform_chat_id", Json::text(error.platform_chat_id.as_str()));
    put_error_fields(&mut whole, error);
    let mut p: Json = typed_event("error");
    put_error_fields(&mut p, error);
    p.put("error", whole);
    p
}

// ---------------------------------------------------------------------------
// Watching
// ---------------------------------------------------------------------------
/// Whether what a client sees has to be shown anew.
pub fn snapshot_is_due(force: bool, signature: &str, last_signature: &str) -> (b: bool)
    ensures
        b == (force || signature@ != last_signature@),
{
    force || !text_eq(signature, last_signature)
}

/// Whether a sign of life is due.
pub fn heartbeat_is_due(elapsed_secs: u64) -> (b: bool)
    ensures
        b == (elapsed_secs >= crate::web::protocol::HEARTBEAT_INTERVAL_SECS),
{
    elapsed_secs >= crate::web::protocol::HEARTBEAT_INTERVAL_SECS
}

/// Whether the conversation that is watched has moved on to another session.
pub fn session_has_changed(metadata: &ConversationMetadata, session_id: &str) -> (b: bool)
    ensures
        b == (metadata.foreground_session_id@ != session_id@),
{
    !text_eq(metadata.foreground_session_id.as_str(), session_id)
}

} // verus!

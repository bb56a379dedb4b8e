//! What a channel keeps of all its sessions, and what it tells its clients.

use vstd::prelude::*;
use crate::channels::{
    OutgoingError, OutgoingMessageAppended, OutgoingSessionStream, ProcessingState,
};
use crate::chat::ChatRole;
use crate::json::{group_json, or_null, Json, JsonView};
use crate::json_ops::opt_json;
use crate::pair_map::PairMap;
use crate::text::text_eq;
use crate::text_map::TextMap;
use crate::web::ids::{route_id_or_self, route_or_self};
use crate::web::live::{public_chat_stream_payload, public_payload, ChatLiveState};
use crate::web::live_model::LiveView;
use crate::web::state::next_number;

verus! {

broadcast use group_json;

/// The last message of a session that was seen, and when.
#[derive(Debug)]
pub struct ConversationSeen {
    pub last_seen_message_id: String,
    pub updated_at: String,
}

impl ConversationSeen {
    pub open spec fn view(self) -> (Seq<char>, Seq<char>) {
        (self.last_seen_message_id@, self.updated_at@)
    }

    pub fn copy(&self) -> (r: Self)
        ensures
            r@ == self@,
    {
        ConversationSeen {
            last_seen_message_id: self.last_seen_message_id.clone(),
            updated_at: self.updated_at.clone(),
        }
    }
}

/// What a channel keeps. Who listens is not part of it.
#[derive(Debug)]
pub struct WebChannelMain {
    pub home_seq: u64,
    pub live_states: PairMap<ChatLiveState>,
    pub seen_states: TextMap<ConversationSeen>,
    pub processing_states: TextMap<ProcessingState>,
}

pub struct MainView {
    pub seq: u64,
    pub live: Map<(Seq<char>, Seq<char>), LiveView>,
    pub seen: Map<Seq<char>, (Seq<char>, Seq<char>)>,
    pub processing: Map<Seq<char>, ProcessingState>,
}

/// Something that happens to a channel.
#[derive(Debug)]
pub enum WebMainCommand {
    PublishHome { payload: Json },
    PublishChat { conversation_id: String, session_id: String, payload: Json },
    UserMessageQueued {
        conversation_id: String,
        foreground_session_id: String,
        client_message_id: String,
    },
    MessageAppended {
        appended: OutgoingMessageAppended,
        decorated_message: Json,
        conversation_summary: Option<Json>,
    },
    /// `now` is the time of a message that the event begins.
    SessionStream { stream: OutgoingSessionStream, now: String },
    SetProcessing { platform_chat_id: String, state: ProcessingState },
    /// What was seen is noted under a key; it is still to be stored.
    UpdateSeen { key: String, seen: ConversationSeen },
    /// What was seen has been stored.
    SeenStored { conversation_id: String, foreground_session_id: String, seen: ConversationSeen },
    SendError { error: OutgoingError },
}

/// A payload and those whom it goes to.
#[derive(Debug)]
pub enum MainEffect {
    /// To all that watch the conversations.
    Home(Json),
    /// To all that watch one session of a conversation.
    Chat { conversation_id: String, foreground_session_id: String, payload: Json },
}

pub enum EffectView {
    Home(JsonView),
    Chat((Seq<char>, Seq<char>), JsonView),
}

impl MainEffect {
    pub open spec fn view(self) -> EffectView {
        match self {
            MainEffect::Home(payload) => EffectView::Home(payload@),
            MainEffect::Chat { conversation_id, foreground_session_id, payload } =>
                EffectView::Chat((conversation_id@, foreground_session_id@), payload@),
        }
    }
}

pub open spec fn effect_views(s: Seq<MainEffect>) -> Seq<EffectView> {
    s.map_values(|e: MainEffect| e@)
}

// ---------------------------------------------------------------------------
// Payloads
// ---------------------------------------------------------------------------
pub open spec fn session_fields(payload: JsonView, key: (Seq<char>, Seq<char>)) -> JsonView {
    payload.with("conversation_id"@, JsonView::Text(key.0)).with(
        "foreground_session_id"@,
        JsonView::Text(key.1),
    )
}

pub open spec fn typed(kind: Seq<char>) -> JsonView {
    JsonView::empty_object().with("type"@, JsonView::Text(kind))
}

/// How a session is doing.
pub open spec fn state_payload(key: (Seq<char>, Seq<char>), live: LiveView) -> JsonView {
    session_fields(typed("home.foreground_session_state_updated"@), key).with(
        "state"@,
        JsonView::Text(live.summary()),
    ).with("active_turn_id"@, or_null(live.turn_id())).with(
        "last_error"@,
        or_null(live.last_error),
    )
}

pub open spec fn queued_payload(key: (Seq<char>, Seq<char>), id: Seq<char>) -> JsonView {
    session_fields(
        typed("chat.user_message_queued"@).with("client_message_id"@, JsonView::Text(id)),
        key,
    )
}

pub open spec fn appended_payload(
    key: (Seq<char>, Seq<char>),
    index: nat,
    message_id: Seq<char>,
    message: JsonView,
) -> JsonView {
    session_fields(typed("chat.message_appended"@), key).with(
        "message_index"@,
        JsonView::number(index),
    ).with("message_id"@, JsonView::Text(message_id)).with("message"@, message)
}

pub open spec fn seen_payload(key: (Seq<char>, Seq<char>), seen: (Seq<char>, Seq<char>)) -> JsonView {
    session_fields(typed("home.foreground_session_seen_state_updated"@), key).with(
        "last_seen_message_id"@,
        JsonView::Text(seen.0),
    ).with("last_seen_at"@, JsonView::Text(seen.1))
}

pub open spec fn error_payload(error: OutgoingError) -> JsonView {
    session_fields(typed("chat.stream_error"@), (error.conversation_id@, "main"@)).with(
        "code"@,
        JsonView::Text(error.code@),
    ).with("error"@, JsonView::Text(error.message@)).with(
        "detail"@,
        match error.detail {
            Some(d) => d@,
            None => JsonView::Null,
        },
    ).with("can_continue"@, JsonView::Bool(error.can_continue))
}

// ---------------------------------------------------------------------------
// What happens
// ---------------------------------------------------------------------------
/// The kind of a stream event.
pub open spec fn stream_kind(event: JsonView) -> Seq<char> {
    match event.text_field("type"@) {
        Some(t) => t,
        None => "stream_event"@,
    }
}

/// Whether an event begins or ends a turn.
pub open spec fn bounds_turn(kind: Seq<char>) -> bool {
    kind == "turn_started"@ || kind == "turn_completed"@ || kind == "stream_error"@
}

impl MainView {
    /// What is going on in a session.
    pub open spec fn live_of(self, key: (Seq<char>, Seq<char>)) -> LiveView {
        if self.live.contains_key(key) {
            self.live[key]
        } else {
            LiveView::empty()
        }
    }

    pub open spec fn with_live(self, key: (Seq<char>, Seq<char>), live: LiveView) -> Self {
        MainView { live: self.live.insert(key, live), ..self }
    }

    /// A payload for all that watch the conversations gets the next number.
    pub open spec fn numbered(self) -> Self {
        MainView { seq: next_number(self.seq), ..self }
    }

    /// The payload with the number that was given to it.
    pub open spec fn home(self, payload: JsonView) -> EffectView {
        EffectView::Home(payload.with("seq"@, JsonView::number(self.seq as nat)))
    }

    pub open spec fn queued(self, key: (Seq<char>, Seq<char>), id: Seq<char>) -> (
        Self,
        Seq<EffectView>,
    ) {
        let live = self.live_of(key).user_message_queued(id, key.0, key.1);
        let after = self.with_live(key, live).numbered();
        (
            after,
            seq![
                after.home(state_payload(key, live)),
                EffectView::Chat(key, queued_payload(key, id)),
            ],
        )
    }

    pub open spec fn appended(
        self,
        appended: OutgoingMessageAppended,
        message: JsonView,
        summary: Option<JsonView>,
    ) -> (Self, Seq<EffectView>) {
        let key = (appended.conversation_id@, route_or_self(appended.session_id@));
        let live = self.live_of(key).message_appended(
            message,
            appended.index,
            appended.message.role == ChatRole::User,
            appended.conversation_id@,
        );
        let one = self.with_live(key, live).numbered();
        let told = seq![
            EffectView::Chat(
                key,
                appended_payload(
                    key,
                    appended.index as nat,
                    appended.message.message_id@,
                    message,
                ),
            ),
            one.home(state_payload(key, live)),
        ];
        match summary {
            Some(v) => (
                one.numbered(),
                told.push(
                    one.numbered().home(
                        typed("home.conversation_upserted"@).with("conversation"@, v),
                    ),
                ),
            ),
            None => (one, told),
        }
    }

    pub open spec fn streamed(self, stream: OutgoingSessionStream, now: Seq<char>) -> (
        Self,
        Seq<EffectView>,
    ) {
        let key = (stream.conversation_id@, route_or_self(stream.session_id@));
        let kind = stream_kind(stream.event@);
        let live = self.live_of(key).stream_event(stream.event@, kind, now);
        let one = self.with_live(key, live);
        let told = EffectView::Chat(key, public_payload(key.0, key.1, kind, stream.event@));
        if bounds_turn(kind) {
            (one.numbered(), seq![one.numbered().home(state_payload(key, live)), told])
        } else {
            (one, seq![told])
        }
    }

    /// The state after a command, and what is told because of it.
    pub open spec fn step(self, command: WebMainCommand) -> (Self, Seq<EffectView>) {
        match command {
            WebMainCommand::PublishHome { payload } => (
                self.numbered(),
                seq![self.numbered().home(payload@)],
            ),
            WebMainCommand::PublishChat { conversation_id, session_id, payload } => (
                self,
                seq![
                    EffectView::Chat((conversation_id@, route_or_self(session_id@)), payload@),
                ],
            ),
            WebMainCommand::UserMessageQueued {
                conversation_id,
                foreground_session_id,
                client_message_id,
            } => self.queued((conversation_id@, foreground_session_id@), client_message_id@),
            WebMainCommand::MessageAppended { appended, decorated_message, conversation_summary } =>
                self.appended(appended, decorated_message@, opt_json(conversation_summary)),
            WebMainCommand::SessionStream { stream, now } => self.streamed(stream, now@),
            WebMainCommand::SetProcessing { platform_chat_id, state } => (
                MainView { processing: self.processing.insert(platform_chat_id@, state), ..self },
                Seq::empty(),
            ),
            WebMainCommand::UpdateSeen { key, seen } => (
                MainView { seen: self.seen.insert(key@, seen@), ..self },
                Seq::empty(),
            ),
            WebMainCommand::SeenStored { conversation_id, foreground_session_id, seen } => (
                self.numbered(),
                seq![
                    self.numbered().home(
                        seen_payload((conversation_id@, foreground_session_id@), seen@),
                    ),
                ],
            ),
            WebMainCommand::SendError { error } => (
                self,
                seq![EffectView::Chat((error.conversation_id@, "main"@), error_payload(error))],
            ),
        }
    }
}

fn put_session(payload: &mut Json, conversation_id: &str, foreground_session_id: &str)
    ensures
        final(payload)@ == session_fields(
            old(payload)@,
            (conversation_id@, foreground_session_id@),
        ),
{
    payload.put("conversation_id", Json::text(conversation_id));
    payload.put("foreground_session_id", Json::text(foreground_session_id));
}

fn typed_payload(kind: &str) -> (r: Json)
    ensures
        r@ == typed(kind@),
{
    let mut payload: Json = Json::object();
    payload.put("type", Json::text(kind));
    payload
}

fn to_session(conversation_id: &str, foreground_session_id: &str, payload: Json) -> (r: MainEffect)
    ensures
        r@ == EffectView::Chat((conversation_id@, foreground_session_id@), payload@),
{
    MainEffect::Chat {
        conversation_id: conversation_id.to_owned(),
        foreground_session_id: foreground_session_id.to_owned(),
        payload,
    }
}

/// The payload that tells how a session is doing.
pub fn session_state_payload(
    conversation_id: &str,
    foreground_session_id: &str,
    live: &ChatLiveState,
) -> (r: Json)
    ensures
        r@ == state_payload((conversation_id@, foreground_session_id@), live@),
{
    let mut payload: Json = typed_payload("home.foreground_session_state_updated");
    put_session(&mut payload, conversation_id, foreground_session_id);
    payload.put("state", Json::text(live.summary_state()));
    payload.put("active_turn_id", Json::opt_text(live.active_turn_id()));
    payload.put("last_error", Json::opt_string(&live.last_error));
    payload
}

/// The payload that tells of a message that waits to be sent.
pub fn queued_message_payload(
    conversation_id: &str,
    foreground_session_id: &str,
    client_message_id: &str,
) -> (r: Json)
    ensures
        r@ == queued_payload((conversation_id@, foreground_session_id@), client_message_id@),
{
    let mut payload: Json = typed_payload("chat.user_message_queued");
    payload.put("client_message_id", Json::text(client_message_id));
    put_session(&mut payload, conversation_id, foreground_session_id);
    payload
}

/// The payload that tells of an error.
pub fn stream_error_payload(error: &OutgoingError) -> (r: Json)
    ensures
        r@ == error_payload(*error),
{
    let mut payload: Json = typed_payload("chat.stream_error");
    put_session(&mut payload, error.conversation_id.as_str(), "main");
    payload.put("code", Json::text(error.code.as_str()));
    payload.put("error", Json::text(error.message.as_str()));
    let detail: Json = match &error.detail {
        Some(d) => d.copy(),
        None => Json::Null,
    };
    payload.put("detail", detail);
    payload.put("can_continue", Json::Bool(error.can_continue));
    payload
}

impl WebChannelMain {
    pub open spec fn wf(self) -> bool {
        self.live_states.wf() && self.seen_states.wf() && self.processing_states.wf()
    }

    pub open spec fn view(self) -> MainView {
        MainView {
            seq: self.home_seq,
            live: self.live_states@.map_values(|s: ChatLiveState| s@),
            seen: self.seen_states@.map_values(|s: ConversationSeen| s@),
            processing: self.processing_states@,
        }
    }

    /// A channel that starts with what was seen before.
    pub fn new(seen: TextMap<ConversationSeen>) -> (r: Self)
        requires
            seen.wf(),
        ensures
            r.wf(),
            r@ == (MainView {
                seq: 0,
                live: Map::empty(),
                seen: seen@.map_values(|s: ConversationSeen| s@),
                processing: Map::empty(),
            }),
    {
        let r = WebChannelMain {
            home_seq: 0,
            live_states: PairMap::new(),
            seen_states: seen,
            processing_states: TextMap::new(),
        };
        assert(r@.live =~= Map::empty());
        r
    }

    /// What is going on in a session.
    pub fn live_state(&self, conversation_id: &str, foreground_session_id: &str) -> (r:
        ChatLiveState)
        requires
            self.wf(),
        ensures
            r@ == self@.live_of((conversation_id@, foreground_session_id@)),
    {
        match self.live_states.get(conversation_id, foreground_session_id) {
            Some(s) => s.copy(),
            None => ChatLiveState::new(),
        }
    }

    /// What was seen of a session.
    pub fn seen_state(&self, key: &str) -> (r: Option<&ConversationSeen>)
        requires
            self.wf(),
        ensures
            match r {
                Some(s) => self@.seen.contains_key(key@) && s@ == self@.seen[key@],
                None => !self@.seen.contains_key(key@),
            },
    {
        self.seen_states.get(key)
    }

    pub fn processing_state(&self, platform_chat_id: &str) -> (r: ProcessingState)
        requires
            self.wf(),
        ensures
            r == if self@.processing.contains_key(platform_chat_id@) {
                self@.processing[platform_chat_id@]
            } else {
                ProcessingState::Idle
            },
    {
        match self.processing_states.get(platform_chat_id) {
            Some(s) => *s,
            None => ProcessingState::Idle,
        }
    }

    fn publish_home(&mut self, payload: Json) -> (r: MainEffect)
        requires
            old(self).wf(),
        ensures
            final(self).wf(),
            final(self)@ == old(self)@.numbered(),
            r@ == final(self)@.home(payload@),
    {
        self.home_seq = self.home_seq.saturating_add(1);
        let mut payload: Json = payload;
        payload.put("seq", Json::number(self.home_seq));
        MainEffect::Home(payload)
    }

    fn set_live(&mut self, conversation_id: &str, foreground_session_id: &str, live: ChatLiveState)
        requires
            old(self).wf(),
        ensures
            final(self).wf(),
            final(self)@ == old(self)@.with_live((conversation_id@, foreground_session_id@), live@),
    {
        let ghost before = self@;
        self.live_states.insert(conversation_id, foreground_session_id, live);
        assert(self@.live =~= before.with_live((conversation_id@, foreground_session_id@), live@).live);
    }

    fn publish_foreground_session_state_event(
        &mut self,
        conversation_id: &str,
        foreground_session_id: &str,
        live: &ChatLiveState,
    ) -> (r: MainEffect)
        requires
            old(self).wf(),
        ensures
            final(self).wf(),
            final(self)@ == old(self)@.numbered(),
            r@ == final(self)@.home(
                state_payload((conversation_id@, foreground_session_id@), live@),
            ),
    {
        self.publish_home(session_state_payload(conversation_id, foreground_session_id, live))
    }

    fn user_message_queued(
        &mut self,
        conversation_id: &str,
        foreground_session_id: &str,
        client_message_id: &str,
    ) -> (r: Vec<MainEffect>)
        requires
            old(self).wf(),
        ensures
            final(self).wf(),
            (final(self)@, effect_views(r@)) == old(self)@.queued(
                (conversation_id@, foreground_session_id@),
                client_message_id@,
            ),
    {
        let ghost key = (conversation_id@, foreground_session_id@);
        let ghost expected = self@.queued(key, client_message_id@);
        let mut live: ChatLiveState = self.live_state(conversation_id, foreground_session_id);
        live.queue_user_message(client_message_id, conversation_id, foreground_session_id);
        let told: ChatLiveState = live.copy();
        self.set_live(conversation_id, foreground_session_id, live);
        let home: MainEffect = self.publish_foreground_session_state_event(
            conversation_id,
            foreground_session_id,
            &told,
        );
        let payload: Json = queued_message_payload(
            conversation_id,
            foreground_session_id,
            client_message_id,
        );
        let chat: MainEffect = to_session(conversation_id, foreground_session_id, payload);
        let r: Vec<MainEffect> = vec![home, chat];
        assert(effect_views(r@) =~= expected.1);
        r
    }

    fn message_appended(
        &mut self,
        appended: &OutgoingMessageAppended,
        decorated_message: &Json,
        conversation_summary: Option<Json>,
    ) -> (r: Vec<MainEffect>)
        requires
            old(self).wf(),
        ensures
            final(self).wf(),
            (final(self)@, effect_views(r@)) == old(self)@.appended(
                *appended,
                decorated_message@,
                opt_json(conversation_summary),
            ),
    {
        let ghost expected = self@.appended(
            *appended,
            decorated_message@,
            opt_json(conversation_summary),
        );
        let conversation_id: &str = appended.conversation_id.as_str();
        let session: String = route_id_or_self(appended.session_id.as_str());
        let from_user: bool = match appended.message.role {
            ChatRole::User => true,
            _ => false,
        };
        let mut live: ChatLiveState = self.live_state(conversation_id, session.as_str());
        live.record_message_appended(decorated_message, appended.index, from_user, conversation_id);
        let told: ChatLiveState = live.copy();
        self.set_live(conversation_id, session.as_str(), live);
        let mut payload: Json = typed_payload("chat.message_appended");
        put_session(&mut payload, conversation_id, session.as_str());
        payload.put("message_index", Json::count(appended.index));
        payload.put("message_id", Json::text(appended.message.message_id.as_str()));
        payload.put("message", decorated_message.copy());
        let chat: MainEffect = to_session(conversation_id, session.as_str(), payload);
        let home: MainEffect = self.publish_foreground_session_state_event(
            conversation_id,
            session.as_str(),
            &told,
        );
        let mut r: Vec<MainEffect> = vec![chat, home];
        if let Some(conversation) = conversation_summary {
            let mut payload: Json = typed_payload("home.conversation_upserted");
            payload.put("conversation", conversation);
            let upserted: MainEffect = self.publish_home(payload);
            r.push(upserted);
        }
        assert(effect_views(r@) =~= expected.1);
        r
    }

    fn session_stream(&mut self, stream: &OutgoingSessionStream, now: &str) -> (r: Vec<MainEffect>)
        requires
            old(self).wf(),
        ensures
            final(self).wf(),
            (final(self)@, effect_views(r@)) == old(self)@.streamed(*stream, now@),
    {
        let ghost expected = self@.streamed(*stream, now@);
        let conversation_id: &str = stream.conversation_id.as_str();
        let session: String = route_id_or_self(stream.session_id.as_str());
        let kind: &str = match stream.event.text_field("type") {
            Some(t) => t,
            None => "stream_event",
        };
        let mut live: ChatLiveState = self.live_state(conversation_id, session.as_str());
        live.record_session_stream(&stream.event, kind, now);
        let told: ChatLiveState = live.copy();
        self.set_live(conversation_id, session.as_str(), live);
        let mut r: Vec<MainEffect> = Vec::new();
        if text_eq(kind, "turn_started") || text_eq(kind, "turn_completed") || text_eq(
            kind,
            "stream_error",
        ) {
            let home: MainEffect = self.publish_foreground_session_state_event(
                conversation_id,
                session.as_str(),
                &told,
            );
            r.push(home);
        }
        let payload: Json = public_chat_stream_payload(
            conversation_id,
            session.as_str(),
            kind,
            &stream.event,
        );
        r.push(to_session(conversation_id, session.as_str(), payload));
        assert(effect_views(r@) =~= expected.1);
        r
    }

    /// Does what a command asks for. What is to be told comes back, in order.
    pub fn handle(&mut self, command: WebMainCommand) -> (r: Vec<MainEffect>)
        requires
            old(self).wf(),
        ensures
            final(self).wf(),
            (final(self)@, effect_views(r@)) == old(self)@.step(command),
    {
        let ghost expected = self@.step(command);
        let mut r: Vec<MainEffect> = Vec::new();
        match command {
            WebMainCommand::PublishHome { payload } => {
                let home: MainEffect = self.publish_home(payload);
                r.push(home);
            },
            WebMainCommand::PublishChat { conversation_id, session_id, payload } => {
                let session: String = route_id_or_self(session_id.as_str());
                r.push(to_session(conversation_id.as_str(), session.as_str(), payload));
            },
            WebMainCommand::UserMessageQueued {
                conversation_id,
                foreground_session_id,
                client_message_id,
            } => {
                r = self.user_message_queued(
                    conversation_id.as_str(),
                    foreground_session_id.as_str(),
                    client_message_id.as_str(),
                );
            },
            WebMainCommand::MessageAppended {
                appended,
                decorated_message,
                conversation_summary,
            } => {
                r = self.message_appended(&appended, &decorated_message, conversation_summary);
            },
            WebMainCommand::SessionStream { stream, now } => {
                r = self.session_stream(&stream, now.as_str());
            },
            WebMainCommand::SetProcessing { platform_chat_id, state } => {
                self.processing_states.insert(platform_chat_id.as_str(), state);
            },
            WebMainCommand::UpdateSeen { key, seen } => {
                self.seen_states.insert(key.as_str(), seen);
                assert(self@.seen =~= expected.0.seen);
            },
            WebMainCommand::SeenStored { conversation_id, foreground_session_id, seen } => {
                let mut payload: Json = typed_payload("home.foreground_session_seen_state_updated");
                put_session(&mut payload, conversation_id.as_str(), foreground_session_id.as_str());
                payload.put("last_seen_message_id", Json::text(seen.last_seen_message_id.as_str()));
                payload.put("last_seen_at", Json::text(seen.updated_at.as_str()));
                let home: MainEffect = self.publish_home(payload);
                r.push(home);
            },
            WebMainCommand::SendError { error } => {
                let payload: Json = stream_error_payload(&error);
                r.push(to_session(error.conversation_id.as_str(), "main", payload));
            },
        }
        assert(effect_views(r@) =~= expected.1);
        r
    }
}

// ---------------------------------------------------------------------------
// Laws
// ---------------------------------------------------------------------------
/// How many of the effects go to all that watch the conversations.
pub open spec fn homes(s: Seq<EffectView>) -> nat
    decreases s.len(),
{
    if s.len() == 0 {
        0
    } else {
        homes(s.drop_last()) + if s.last() is Home {
            1nat
        } else {
            0
        }
    }
}

/// The payload that a command brings for all that watch the conversations is an object.
pub open spec fn brings_objects(command: WebMainCommand) -> bool {
    command matches WebMainCommand::PublishHome { payload } ==> payload@ is Object
}

/// The number that a payload carries.
pub open spec fn seq_of(e: EffectView) -> Option<u64> {
    match e {
        EffectView::Home(p) => p.unsigned_field("seq"@),
        EffectView::Chat(..) => None,
    }
}

proof fn lemma_homes(s: Seq<EffectView>)
    ensures
        s.len() == 1 ==> homes(s) == (if s[0] is Home {
            1nat
        } else {
            0
        }),
        s.len() == 2 ==> homes(s) == (if s[0] is Home {
            1nat
        } else {
            0
        }) + (if s[1] is Home {
            1nat
        } else {
            0
        }),
        s.len() == 3 ==> homes(s) == (if s[0] is Home {
            1nat
        } else {
            0
        }) + (if s[1] is Home {
            1nat
        } else {
            0
        }) + (if s[2] is Home {
            1nat
        } else {
            0
        }),
{
    reveal_with_fuel(homes, 4);
}

/// Payloads for all that watch the conversations are numbered without gaps: each one
/// carries the number after the one before it.
pub proof fn home_payloads_are_numbered(s: MainView, command: WebMainCommand, i: int)
    requires
        s.seq <= u64::MAX - 2,
        brings_objects(command),
        0 <= i < s.step(command).1.len(),
    ensures
        s.step(command).0.seq == s.seq + homes(s.step(command).1),
        s.step(command).1[i] is Home ==> seq_of(s.step(command).1[i]) == Some(
            (s.seq + homes(s.step(command).1.take(i + 1))) as u64,
        ),
{
    let e = s.step(command).1;
    lemma_homes(e);
    lemma_homes(e.take(i + 1));
}

/// The session that a command is about.
pub open spec fn session_of(command: WebMainCommand) -> Option<(Seq<char>, Seq<char>)> {
    match command {
        WebMainCommand::UserMessageQueued { conversation_id, foreground_session_id, .. } => Some(
            (conversation_id@, foreground_session_id@),
        ),
        WebMainCommand::MessageAppended { appended, .. } => Some(
            (appended.conversation_id@, route_or_self(appended.session_id@)),
        ),
        WebMainCommand::SessionStream { stream, .. } => Some(
            (stream.conversation_id@, route_or_self(stream.session_id@)),
        ),
        _ => None,
    }
}

/// A command changes the state of no session but its own.
pub proof fn other_sessions_are_left_alone(
    s: MainView,
    command: WebMainCommand,
    key: (Seq<char>, Seq<char>),
)
    requires
        session_of(command) != Some(key),
    ensures
        s.step(command).0.live_of(key) == s.live_of(key),
{
}

/// What was noted as seen is read back.
pub proof fn seen_message_is_read_back(s: MainView, key: String, seen: ConversationSeen)
    ensures
        s.step(WebMainCommand::UpdateSeen { key, seen }).0.seen.contains_key(key@),
        s.step(WebMainCommand::UpdateSeen { key, seen }).0.seen[key@] == seen@,
{
}

} // verus!

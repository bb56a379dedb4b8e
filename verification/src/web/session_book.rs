//! What a channel keeps of its sessions where it shows stream events as a whole.

use vstd::prelude::*;
use crate::channels::{OutgoingMessageAppended, OutgoingSessionStream, ProcessingState};
use crate::chat::ChatRole;
use crate::json::{group_json, Json, JsonView};
use crate::text::text_eq;
use crate::text_map::TextMap;
use crate::web::conversations::{
    appended_event, logged_payload, nested_payload, nested_stream_event, SessionEvent,
};
use crate::web::ids::{
    conversation_seen_key, route_id_or_self, route_or_self, seen_key, websocket_key,
};
use crate::web::live::ChatLiveState;
use crate::web::live_model::{message_waits_once, waits, LiveView};
use crate::web::main_state::{
    bounds_turn, queued_message_payload, queued_payload, session_state_payload, state_payload,
    stream_kind, ConversationSeen,
};
use crate::web::state::next_number;

verus! {

broadcast use group_json;

/// What a channel keeps. Sessions go by the key under which clients listen to them.
#[derive(Debug)]
pub struct SessionBook {
    pub home_seq: u64,
    pub live_states: TextMap<ChatLiveState>,
    pub seen_states: TextMap<ConversationSeen>,
    pub processing_states: TextMap<ProcessingState>,
}

pub struct BookView {
    pub seq: u64,
    pub live: Map<Seq<char>, LiveView>,
    pub seen: Map<Seq<char>, (Seq<char>, Seq<char>)>,
    pub processing: Map<Seq<char>, ProcessingState>,
}

/// A payload and those whom it goes to.
#[derive(Debug)]
pub enum BookEffect {
    /// To all that watch the conversations.
    Home(Json),
    /// To all that listen under a key.
    Chat { key: String, payload: Json },
}

pub enum BookEffectView {
    Home(JsonView),
    Chat(Seq<char>, JsonView),
}

impl BookEffect {
    pub open spec fn view(self) -> BookEffectView {
        match self {
            BookEffect::Home(payload) => BookEffectView::Home(payload@),
            BookEffect::Chat { key, payload } => BookEffectView::Chat(key@, payload@),
        }
    }
}

pub open spec fn book_effects(s: Seq<BookEffect>) -> Seq<BookEffectView> {
    s.map_values(|e: BookEffect| e@)
}

/// The key under which clients listen to a session.
pub open spec fn listening_key(conversation_id: Seq<char>, session: Seq<char>) -> Seq<char> {
    conversation_id + ":"@ + session
}

impl BookView {
    /// What is going on in a session.
    pub open spec fn live_of(self, key: Seq<char>) -> LiveView {
        if self.live.contains_key(key) {
            self.live[key]
        } else {
            LiveView::empty()
        }
    }

    pub open spec fn with_live(self, key: Seq<char>, live: LiveView) -> Self {
        BookView { live: self.live.insert(key, live), ..self }
    }

    /// A payload for all that watch the conversations gets the next number.
    pub open spec fn numbered(self) -> Self {
        BookView { seq: next_number(self.seq), ..self }
    }

    /// The payload with the number that was given to it.
    pub open spec fn home(self, payload: JsonView) -> BookEffectView {
        BookEffectView::Home(payload.with("seq"@, JsonView::number(self.seq as nat)))
    }

    /// A message of the user waits to be sent; one that waits already changes nothing, and
    /// is told of again.
    pub open spec fn queued(
        self,
        conversation_id: Seq<char>,
        session: Seq<char>,
        id: Seq<char>,
    ) -> (Self, Seq<BookEffectView>) {
        let key = listening_key(conversation_id, session);
        let before = self.live_of(key);
        let live = if waits(before.queued, id) {
            before
        } else {
            before.user_message_queued(id, conversation_id, session)
        };
        let after = self.with_live(key, live).numbered();
        (
            after,
            seq![
                after.home(state_payload((conversation_id, session), live)),
                BookEffectView::Chat(
                    listening_key(conversation_id, route_or_self(session)),
                    queued_payload((conversation_id, session), id),
                ),
            ],
        )
    }

    /// A message was added to the log.
    pub open spec fn appended(self, appended: OutgoingMessageAppended, message: JsonView) -> (
        Self,
        Seq<BookEffectView>,
    ) {
        let conversation_id = appended.conversation_id@;
        let session = route_or_self(appended.session_id@);
        let key = listening_key(conversation_id, session);
        let live = self.live_of(key).message_appended(
            message,
            appended.index,
            appended.message.role == ChatRole::User,
            conversation_id,
        );
        let after = self.with_live(key, live).numbered();
        (
            after,
            seq![
                BookEffectView::Chat(key, logged_payload(appended, message)),
                after.home(state_payload((conversation_id, session), live)),
            ],
        )
    }

    /// An event of a stream came; `now` is the time of a message that it begins.
    pub open spec fn streamed(self, stream: OutgoingSessionStream, now: Seq<char>) -> (
        Self,
        Seq<BookEffectView>,
    ) {
        let conversation_id = stream.conversation_id@;
        let session = route_or_self(stream.session_id@);
        let key = listening_key(conversation_id, session);
        let kind = stream_kind(stream.event@);
        let live = self.live_of(key).stream_event(stream.event@, kind, now);
        let one = self.with_live(key, live);
        let told = BookEffectView::Chat(key, nested_payload(stream));
        if bounds_turn(kind) {
            (
                one.numbered(),
                seq![
                    one.numbered().home(state_payload((conversation_id, session), live)),
                    told,
                ],
            )
        } else {
            (one, seq![told])
        }
    }
}

/// What goes to the clients of a session.
pub fn to_listeners(event: SessionEvent) -> (r: BookEffect)
    ensures
        r@ == BookEffectView::Chat(
            listening_key(event.conversation_id@, event.foreground_session_id@),
            event.payload@,
        ),
{
    BookEffect::Chat {
        key: websocket_key(event.conversation_id.as_str(), event.foreground_session_id.as_str()),
        payload: event.payload,
    }
}

impl SessionBook {
    pub open spec fn wf(self) -> bool {
        self.live_states.wf() && self.seen_states.wf() && self.processing_states.wf()
    }

    pub open spec fn view(self) -> BookView {
        BookView {
            seq: self.home_seq,
            live: self.live_states@.map_values(|s: ChatLiveState| s@),
            seen: self.seen_states@.map_values(|s: ConversationSeen| s@),
            processing: self.processing_states@,
        }
    }

    /// A channel that starts with what was seen before.
    pub fn new(seen: TextMap<ConversationSeen>) -> (r: Self)
        requires
            seen.wf(),
        ensures
            r.wf(),
            r@ == (BookView {
                seq: 0,
                live: Map::empty(),
                seen: seen@.map_values(|s: ConversationSeen| s@),
                processing: Map::empty(),
            }),
    {
        let r = SessionBook {
            home_seq: 0,
            live_states: TextMap::new(),
            seen_states: seen,
            processing_states: TextMap::new(),
        };
        assert(r@.live =~= Map::empty());
        r
    }

    /// What is going on in a session.
    pub fn chat_live_snapshot(&self, conversation_id: &str, foreground_session_id: &str) -> (r:
        ChatLiveState)
        requires
            self.wf(),
        ensures
            r@ == self@.live_of(listening_key(conversation_id@, foreground_session_id@)),
    {
        let key: String = websocket_key(conversation_id, foreground_session_id);
        match self.live_states.get(key.as_str()) {
            Some(s) => s.copy(),
            None => ChatLiveState::new(),
        }
    }

    /// What was seen of a session.
    pub fn seen(&self, conversation_id: &str, foreground_session_id: &str) -> (r: Option<
        &ConversationSeen,
    >)
        requires
            self.wf(),
        ensures
            ({
                let key = seen_key(conversation_id@, foreground_session_id@);
                match r {
                    Some(s) => self@.seen.contains_key(key) && s@ == self@.seen[key],
                    None => !self@.seen.contains_key(key),
                }
            }),
    {
        let key: String = conversation_seen_key(conversation_id, foreground_session_id);
        self.seen_states.get(key.as_str())
    }

    /// Notes what was seen of a session.
    pub fn note_seen(
        &mut self,
        conversation_id: &str,
        foreground_session_id: &str,
        seen: ConversationSeen,
    )
        requires
            old(self).wf(),
        ensures
            final(self).wf(),
            final(self)@ == (BookView {
                seen: old(self)@.seen.insert(
                    seen_key(conversation_id@, foreground_session_id@),
                    seen@,
                ),
                ..old(self)@
            }),
    {
        let ghost before = self@;
        let key: String = conversation_seen_key(conversation_id, foreground_session_id);
        self.seen_states.insert(key.as_str(), seen);
        assert(self@.seen =~= before.seen.insert(key@, seen@));
    }

    pub fn processing_state(&self, platform_chat_id: &str) -> (r: ProcessingState)
        requires
            self.wf(),
        ensures
            r == if self@.processing.contains_key(platform_chat_id@) {
                self@.processing[platform_chat_id@]
            } else {
                ProcessingState::Idle
            },
    {
        match self.processing_states.get(platform_chat_id) {
            Some(s) => *s,
            None => ProcessingState::Idle,
        }
    }

    pub fn set_processing(&mut self, platform_chat_id: &str, state: ProcessingState)
        requires
            old(self).wf(),
        ensures
            final(self).wf(),
            final(self)@ == (BookView {
                processing: old(self)@.processing.insert(platform_chat_id@, state),
                ..old(self)@
            }),
    {
        self.processing_states.insert(platform_chat_id, state);
    }

    /// A payload for all that watch the conversations.
    pub fn publish_conversation_event(&mut self, payload: Json) -> (r: BookEffect)
        requires
            old(self).wf(),
        ensures
            final(self).wf(),
            final(self)@ == old(self)@.numbered(),
            r@ == final(self)@.home(payload@),
    {
        self.home_seq = self.home_seq.saturating_add(1);
        let mut payload: Json = payload;
        payload.put("seq", Json::number(self.home_seq));
        BookEffect::Home(payload)
    }

    fn set_live(&mut self, key: &str, live: ChatLiveState)
        requires
            old(self).wf(),
        ensures
            final(self).wf(),
            final(self)@ == old(self)@.with_live(key@, live@),
    {
        let ghost before = self@;
        self.live_states.insert(key, live);
        assert(self@.live =~= before.with_live(key@, live@).live);
    }

    fn publish_state(
        &mut self,
        conversation_id: &str,
        foreground_session_id: &str,
        live: &ChatLiveState,
    ) -> (r: BookEffect)
        requires
            old(self).wf(),
        ensures
            final(self).wf(),
            final(self)@ == old(self)@.numbered(),
            r@ == final(self)@.home(
                state_payload((conversation_id@, foreground_session_id@), live@),
            ),
    {
        let payload: Json = session_state_payload(conversation_id, foreground_session_id, live);
        self.publish_conversation_event(payload)
    }

    /// Notes a message of the user that waits to be sent.
    pub fn user_message_queued(
        &mut self,
        conversation_id: &str,
        foreground_session_id: &str,
        client_message_id: &str,
    ) -> (r: Vec<BookEffect>)
        requires
            old(self).wf(),
        ensures
            final(self).wf(),
            (final(self)@, book_effects(r@)) == old(self)@.queued(
                conversation_id@,
                foreground_session_id@,
                client_message_id@,
            ),
    {
        let ghost expected = self@.queued(
            conversation_id@,
            foreground_session_id@,
            client_message_id@,
        );
        let key: String = websocket_key(conversation_id, foreground_session_id);
        let mut live: ChatLiveState = self.chat_live_snapshot(
            conversation_id,
            foreground_session_id,
        );
        live.record_user_message_queued(client_message_id, conversation_id, foreground_session_id);
        let told: ChatLiveState = live.copy();
        self.set_live(key.as_str(), live);
        let home: BookEffect = self.publish_state(conversation_id, foreground_session_id, &told);
        let session: String = route_id_or_self(foreground_session_id);
        let chat: BookEffect = BookEffect::Chat {
            key: websocket_key(conversation_id, session.as_str()),
            payload: queued_message_payload(
                conversation_id,
                foreground_session_id,
                client_message_id,
            ),
        };
        let r: Vec<BookEffect> = vec![home, chat];
        assert(book_effects(r@) =~= expected.1);
        r
    }

    /// Notes a message that was added to the log.
    pub fn message_appended(&mut self, appended: &OutgoingMessageAppended, message: &Json) -> (r:
        Vec<BookEffect>)
        requires
            old(self).wf(),
        ensures
            final(self).wf(),
            (final(self)@, book_effects(r@)) == old(self)@.appended(*appended, message@),
    {
        let ghost expected = self@.appended(*appended, message@);
        let conversation_id: &str = appended.conversation_id.as_str();
        let session: String = route_id_or_self(appended.session_id.as_str());
        let key: String = websocket_key(conversation_id, session.as_str());
        let from_user: bool = match appended.message.role {
            ChatRole::User => true,
            _ => false,
        };
        let mut live: ChatLiveState = self.chat_live_snapshot(conversation_id, session.as_str());
        live.record_message_appended(message, appended.index, from_user, conversation_id);
        let told: ChatLiveState = live.copy();
        self.set_live(key.as_str(), live);
        let chat: BookEffect = to_listeners(appended_event(appended, message));
        let home: BookEffect = self.publish_state(conversation_id, session.as_str(), &told);
        let r: Vec<BookEffect> = vec![chat, home];
        assert(book_effects(r@) =~= expected.1);
        r
    }

    /// Notes an event of a stream.
    pub fn session_stream(&mut self, stream: &OutgoingSessionStream, now: &str) -> (r: Vec<
        BookEffect,
    >)
        requires
            old(self).wf(),
        ensures
            final(self).wf(),
            (final(self)@, book_effects(r@)) == old(self)@.streamed(*stream, now@),
    {
        let ghost expected = self@.streamed(*stream, now@);
        let conversation_id: &str = stream.conversation_id.as_str();
        let session: String = route_id_or_self(stream.session_id.as_str());
        let key: String = websocket_key(conversation_id, session.as_str());
        let kind: &str = match stream.event.text_field("type") {
            Some(t) => t,
            None => "stream_event",
        };
        let mut live: ChatLiveState = self.chat_live_snapshot(conversation_id, session.as_str());
        live.record_session_stream(&stream.event, kind, now);
        let told: ChatLiveState = live.copy();
        self.set_live(key.as_str(), live);
        let mut r: Vec<BookEffect> = Vec::new();
        if text_eq(kind, "turn_started") || text_eq(kind, "turn_completed") || text_eq(
            kind,
            "stream_error",
        ) {
            let home: BookEffect = self.publish_state(conversation_id, session.as_str(), &told);
            r.push(home);
        }
        r.push(to_listeners(nested_stream_event(stream)));
        assert(book_effects(r@) =~= expected.1);
        r
    }
}

/// A message that the user sends is told of where its session is listened to.
pub proof fn queued_message_reaches_its_session(
    book: BookView,
    conversation_id: Seq<char>,
    session: Seq<char>,
    id: Seq<char>,
)
    requires
        route_or_self(session) == session,
    ensures
        book.queued(conversation_id, session, id).1.last() == BookEffectView::Chat(
            listening_key(conversation_id, session),
            queued_payload((conversation_id, session), id),
        ),
        waits(
            book.queued(conversation_id, session, id).0.live_of(
                listening_key(conversation_id, session),
            ).queued,
            id,
        ),
{
    message_waits_once(
        book.live_of(listening_key(conversation_id, session)),
        id,
        conversation_id,
        session,
    );
}

} // verus!

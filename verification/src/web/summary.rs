//! Conversations and their sessions in short.

use vstd::prelude::*;
use crate::channels::{processing_name, processing_state_name, ProcessingState};
use crate::config::{
    lookup, SandboxConfig, SandboxMode, SelectionView, SessionProfile, StellaclawConfig,
};
use crate::json::{array_view, group_json, or_null, Json, JsonView};
use crate::model::{ModelConfig, ProviderType};
use crate::text::{cat3, cat5, is_blank, opt_copy, opt_view, text_eq, trimmed};
use crate::text_map::{less, TextMap};
use crate::web::history::{ConversationMessageSummary, MessageSummary};
use crate::web::ids::{
    conversation_nickname, default_foreground_route_id, foreground_route_id_from_storage_id,
    foreground_session_storage_id, nickname_of, route_id, storage_id, ConversationMetadata,
};
use crate::web::live::ChatLiveState;
use crate::web::live_model::LiveView;
use crate::web::main_state::ConversationSeen;
use crate::web_terminal::{RemoteView, ToolRemoteMode};

verus! {

broadcast use group_json;

/// The settings of a conversation.
#[derive(Debug)]
pub struct ConversationRuntimeConfig {
    pub session_profile: Option<SessionProfile>,
    pub reasoning_effort: Option<String>,
    pub sandbox: Option<SandboxConfig>,
    pub tool_remote_mode: ToolRemoteMode,
}

pub open spec fn opt_index(n: Option<usize>) -> JsonView {
    match n {
        Some(k) => JsonView::number(k as nat),
        None => JsonView::Null,
    }
}

pub fn opt_count(n: Option<usize>) -> (r: Json)
    ensures
        r@ == opt_index(n),
{
    match n {
        Some(k) => Json::count(k),
        None => Json::Null,
    }
}

// ---------------------------------------------------------------------------
// Labels
// ---------------------------------------------------------------------------
pub open spec fn profile_of(
    runtime: Option<ConversationRuntimeConfig>,
    config: StellaclawConfig,
) -> Option<SessionProfile> {
    match runtime {
        Some(r) => match r.session_profile {
            Some(p) => Some(p),
            None => config.default_profile,
        },
        None => config.default_profile,
    }
}

pub open spec fn shown_model(selection: SelectionView, config: StellaclawConfig) -> Seq<char> {
    match selection {
        SelectionView::Alias(a) => match lookup(config.models, a) {
            Some(m) => m.model_name,
            None => a,
        },
        SelectionView::Inline(m) => m.model_name,
    }
}

/// The model of a conversation: that of its own profile, else of the default one, else
/// the first that agents can use.
pub open spec fn model_label(
    runtime: Option<ConversationRuntimeConfig>,
    config: StellaclawConfig,
) -> Seq<char> {
    match profile_of(runtime, config) {
        Some(p) => shown_model(p.main_model@, config),
        None => match config.initial_name() {
            Some(name) => name,
            None => "unconfigured"@,
        },
    }
}

pub open spec fn opt_runtime(r: Option<&ConversationRuntimeConfig>) -> Option<
    ConversationRuntimeConfig,
> {
    match r {
        Some(r) => Some(*r),
        None => None,
    }
}

pub fn conversation_model_label(
    runtime_config: Option<&ConversationRuntimeConfig>,
    config: &StellaclawConfig,
) -> (r: String)
    requires
        config.wf(),
    ensures
        r@ == model_label(opt_runtime(runtime_config), *config),
{
    if let Some(runtime) = runtime_config {
        if let Some(p) = &runtime.session_profile {
            return p.main_model.display_name(&config.models);
        }
    }
    if let Some(p) = &config.default_profile {
        return p.main_model.display_name(&config.models);
    }
    match config.initial_main_model_name() {
        Some(name) => name,
        None => "unconfigured".to_owned(),
    }
}

pub open spec fn reasoning_label(runtime: Option<ConversationRuntimeConfig>) -> Seq<char> {
    match runtime {
        Some(r) => match r.reasoning_effort {
            Some(e) => e@,
            None => "model default"@,
        },
        None => "model default"@,
    }
}

pub fn conversation_reasoning_label(runtime_config: Option<&ConversationRuntimeConfig>) -> (r:
    String)
    ensures
        r@ == reasoning_label(opt_runtime(runtime_config)),
{
    match runtime_config {
        Some(runtime) => match &runtime.reasoning_effort {
            Some(e) => e.clone(),
            None => "model default".to_owned(),
        },
        None => "model default".to_owned(),
    }
}

pub open spec fn own_sandbox(runtime: Option<ConversationRuntimeConfig>) -> Option<SandboxMode> {
    match runtime {
        Some(r) => match r.sandbox {
            Some(s) => Some(s.mode),
            None => None,
        },
        None => None,
    }
}

fn own_sandbox_mode(runtime_config: Option<&ConversationRuntimeConfig>) -> (r: Option<SandboxMode>)
    ensures
        r == own_sandbox(opt_runtime(runtime_config)),
{
    match runtime_config {
        Some(runtime) => match &runtime.sandbox {
            Some(s) => Some(s.mode),
            None => None,
        },
        None => None,
    }
}

pub open spec fn sandbox_name(mode: SandboxMode) -> Seq<char> {
    match mode {
        SandboxMode::Bubblewrap => "bubblewrap"@,
        SandboxMode::Subprocess => "subprocess"@,
    }
}

/// The sandbox of a conversation: its own, else the configured one.
pub fn conversation_sandbox_name(
    runtime_config: Option<&ConversationRuntimeConfig>,
    config: &StellaclawConfig,
) -> (r: &'static str)
    ensures
        r@ == sandbox_name(
            match own_sandbox(opt_runtime(runtime_config)) {
                Some(m) => m,
                None => config.sandbox.mode,
            },
        ),
{
    let mode: SandboxMode = match own_sandbox_mode(runtime_config) {
        Some(m) => m,
        None => config.sandbox.mode,
    };
    match mode {
        SandboxMode::Bubblewrap => "bubblewrap",
        SandboxMode::Subprocess => "subprocess",
    }
}

/// Where the tools of a conversation work.
pub open spec fn remote_name(mode: RemoteView) -> Seq<char> {
    match mode {
        RemoteView::Selectable => "selectable"@,
        RemoteView::FixedSsh { host, cwd } => "fixed ssh `"@ + host + "` `"@ + (match cwd {
            Some(c) => c,
            None => ""@,
        }) + "`"@,
    }
}

pub fn conversation_remote_name(tool_remote_mode: &ToolRemoteMode) -> (r: String)
    ensures
        r@ == remote_name(tool_remote_mode@),
{
    match tool_remote_mode {
        ToolRemoteMode::Selectable => "selectable".to_owned(),
        ToolRemoteMode::FixedSsh { host, cwd } => {
            let place: &str = match cwd {
                Some(c) => c.as_str(),
                None => "",
            };
            cat5("fixed ssh `", host.as_str(), "` `", place, "`")
        },
    }
}

/// A text in quotation marks, with what needs it escaped.
pub uninterp spec fn quoted_text(text: Seq<char>) -> Seq<char>;

/// `format!("{:?}")` of a text: the text in quotation marks, escaped, which depends on
/// the text alone.
#[verifier::external_body]
fn quote_text(text: &str) -> (r: String)
    ensures
        r@ == quoted_text(text@),
{
    format!("{text:?}")
}

/// Where the tools of a conversation work, in the notation of programs.
pub open spec fn remote_notation(host: Seq<char>, cwd: Option<Seq<char>>) -> Seq<char> {
    "FixedSsh { host: "@ + host + ", cwd: "@ + (match cwd {
        Some(c) => "Some("@ + c + ")"@,
        None => "None"@,
    }) + " }"@
}

/// Puts the notation together from texts in quotation marks.
pub fn fixed_ssh_notation(quoted_host: &str, quoted_cwd: Option<&str>) -> (r: String)
    ensures
        r@ == remote_notation(quoted_host@, crate::text::opt_str_view(quoted_cwd)),
{
    let place: String = match quoted_cwd {
        Some(c) => cat3("Some(", c, ")"),
        None => "None".to_owned(),
    };
    cat5("FixedSsh { host: ", quoted_host, ", cwd: ", place.as_str(), " }")
}

pub open spec fn remote_label(mode: RemoteView) -> Seq<char> {
    match mode {
        RemoteView::Selectable => "Selectable"@,
        RemoteView::FixedSsh { host, cwd } => remote_notation(
            quoted_text(host),
            match cwd {
                Some(c) => Some(quoted_text(c)),
                None => None,
            },
        ),
    }
}

fn make_remote_label(mode: &ToolRemoteMode) -> (r: String)
    ensures
        r@ == remote_label(mode@),
{
    match mode {
        ToolRemoteMode::Selectable => "Selectable".to_owned(),
        ToolRemoteMode::FixedSsh { host, cwd } => {
            let h: String = quote_text(host.as_str());
            match cwd {
                Some(c) => {
                    let q: String = quote_text(c.as_str());
                    fixed_ssh_notation(h.as_str(), Some(q.as_str()))
                },
                None => fixed_ssh_notation(h.as_str(), None),
            }
        },
    }
}

pub open spec fn provider_label(provider: ProviderType) -> Seq<char> {
    match provider {
        ProviderType::OpenRouterCompletion => "OpenRouterCompletion"@,
        ProviderType::OpenRouterResponses => "OpenRouterResponses"@,
        ProviderType::CodexSubscription => "CodexSubscription"@,
        ProviderType::ClaudeCode => "ClaudeCode"@,
        ProviderType::BraveSearch => "BraveSearch"@,
    }
}

fn provider_name(provider: ProviderType) -> (r: &'static str)
    ensures
        r@ == provider_label(provider),
{
    match provider {
        ProviderType::OpenRouterCompletion => "OpenRouterCompletion",
        ProviderType::OpenRouterResponses => "OpenRouterResponses",
        ProviderType::CodexSubscription => "CodexSubscription",
        ProviderType::ClaudeCode => "ClaudeCode",
        ProviderType::BraveSearch => "BraveSearch",
    }
}

// ---------------------------------------------------------------------------
// Conversations with one session each
// ---------------------------------------------------------------------------
/// A conversation in a list.
#[derive(Debug)]
pub struct ConversationSummary {
    pub conversation_id: String,
    pub nickname: String,
    pub platform_chat_id: String,
    pub model: String,
    pub model_selection_pending: bool,
    pub reasoning: String,
    pub sandbox: String,
    pub sandbox_source: String,
    pub remote: String,
    pub workspace: String,
    pub foreground_session_id: String,
    pub total_background: usize,
    pub total_subagents: usize,
    pub processing_state: String,
    pub running: bool,
    pub message_count: usize,
    pub last_message_id: Option<String>,
    pub last_message_time: Option<String>,
    pub last_seen_message_id: Option<String>,
    pub last_seen_at: Option<String>,
}

impl ConversationSummary {
    pub open spec fn is_for(
        self,
        metadata: ConversationMetadata,
        config: StellaclawConfig,
        runtime: Option<ConversationRuntimeConfig>,
        workspace: Seq<char>,
        processing: ProcessingState,
        messages: ConversationMessageSummary,
        seen: Option<ConversationSeen>,
    ) -> bool {
        &&& self.conversation_id@ == metadata.conversation_id@
        &&& self.nickname@ == nickname_of(metadata.conversation_id@, metadata.nickname@)
        &&& self.platform_chat_id@ == metadata.platform_chat_id@
        &&& self.model@ == model_label(runtime, config)
        &&& self.model_selection_pending == metadata.model_selection_pending
        &&& self.reasoning@ == reasoning_label(runtime)
        &&& self.sandbox@ == sandbox_name(
            match own_sandbox(runtime) {
                Some(m) => m,
                None => config.sandbox.mode,
            },
        )
        &&& self.sandbox_source@ == if own_sandbox(runtime) is Some {
            "conversation"@
        } else {
            "default"@
        }
        &&& self.remote@ == remote_name(
            match runtime {
                Some(r) => r.tool_remote_mode@,
                None => RemoteView::Selectable,
            },
        )
        &&& self.workspace@ == workspace
        &&& self.foreground_session_id@ == metadata.foreground_session_id@
        &&& self.total_background == 0
        &&& self.total_subagents == 0
        &&& self.processing_state@ == processing_name(processing)
        &&& self.running == (processing != ProcessingState::Idle)
        &&& self.message_count == messages.message_count
        &&& opt_view(self.last_message_id) == opt_view(messages.last_message_id)
        &&& opt_view(self.last_message_time) == opt_view(messages.last_message_time)
        &&& opt_view(self.last_seen_message_id) == match seen {
            Some(s) => Some(s.last_seen_message_id@),
            None => None,
        }
        &&& opt_view(self.last_seen_at) == match seen {
            Some(s) => Some(s.updated_at@),
            None => None,
        }
    }

    /// A conversation in short. `workspace` is where its files are.
    pub fn from_metadata(
        metadata: &ConversationMetadata,
        config: &StellaclawConfig,
        runtime_config: Option<&ConversationRuntimeConfig>,
        workspace: &str,
        processing_state: ProcessingState,
        message_summary: &ConversationMessageSummary,
        seen: &Option<ConversationSeen>,
    ) -> (r: Self)
        requires
            config.wf(),
        ensures
            r.is_for(
                *metadata,
                *config,
                opt_runtime(runtime_config),
                workspace@,
                processing_state,
                *message_summary,
                *seen,
            ),
    {
        let sandbox_source: &str = if own_sandbox_mode(runtime_config).is_some() {
            "conversation"
        } else {
            "default"
        };
        let remote: String = match runtime_config {
            Some(runtime) => conversation_remote_name(&runtime.tool_remote_mode),
            None => conversation_remote_name(&ToolRemoteMode::Selectable),
        };
        let running: bool = match processing_state {
            ProcessingState::Idle => false,
            ProcessingState::Typing => true,
        };
        let (last_seen_message_id, last_seen_at): (Option<String>, Option<String>) = match seen {
            Some(s) => (Some(s.last_seen_message_id.clone()), Some(s.updated_at.clone())),
            None => (None, None),
        };
        ConversationSummary {
            conversation_id: metadata.conversation_id.clone(),
            nickname: conversation_nickname(metadata),
            platform_chat_id: metadata.platform_chat_id.clone(),
            model: conversation_model_label(runtime_config, config),
            model_selection_pending: metadata.model_selection_pending,
            reasoning: conversation_reasoning_label(runtime_config),
            sandbox: conversation_sandbox_name(runtime_config, config).to_owned(),
            sandbox_source: sandbox_source.to_owned(),
            remote,
            workspace: workspace.to_owned(),
            foreground_session_id: metadata.foreground_session_id.clone(),
            total_background: 0,
            total_subagents: 0,
            processing_state: processing_state_name(processing_state).to_owned(),
            running,
            message_count: message_summary.message_count,
            last_message_id: opt_copy(&message_summary.last_message_id),
            last_message_time: opt_copy(&message_summary.last_message_time),
            last_seen_message_id,
            last_seen_at,
        }
    }

    pub open spec fn payload_view(self) -> JsonView {
        JsonView::empty_object().with(
            "conversation_id"@,
            JsonView::Text(self.conversation_id@),
        ).with("nickname"@, JsonView::Text(self.nickname@)).with(
            "platform_chat_id"@,
            JsonView::Text(self.platform_chat_id@),
        ).with("model"@, JsonView::Text(self.model@)).with(
            "model_selection_pending"@,
            JsonView::Bool(self.model_selection_pending),
        ).with("reasoning"@, JsonView::Text(self.reasoning@)).with(
            "sandbox"@,
            JsonView::Text(self.sandbox@),
        ).with("sandbox_source"@, JsonView::Text(self.sandbox_source@)).with(
            "remote"@,
            JsonView::Text(self.remote@),
        ).with("workspace"@, JsonView::Text(self.workspace@)).with(
            "foreground_session_id"@,
            JsonView::Text(self.foreground_session_id@),
        ).with("total_background"@, JsonView::number(self.total_background as nat)).with(
            "total_subagents"@,
            JsonView::number(self.total_subagents as nat),
        ).with("processing_state"@, JsonView::Text(self.processing_state@)).with(
            "running"@,
            JsonView::Bool(self.running),
        ).with("message_count"@, JsonView::number(self.message_count as nat)).with(
            "last_message_id"@,
            or_null(opt_view(self.last_message_id)),
        ).with("last_message_time"@, or_null(opt_view(self.last_message_time))).with(
            "last_seen_message_id"@,
            or_null(opt_view(self.last_seen_message_id)),
        ).with("last_seen_at"@, or_null(opt_view(self.last_seen_at)))
    }

    /// The conversation as a value.
    pub fn payload(&self) -> (r: Json)
        ensures
            r@ == self.payload_view(),
    {
        let mut p: Json = Json::object();
        p.put("conversation_id", Json::text(self.conversation_id.as_str()));
        p.put("nickname", Json::text(self.nickname.as_str()));
        p.put("platform_chat_id", Json::text(self.platform_chat_id.as_str()));
        p.put("model", Json::text(self.model.as_str()));
        p.put("model_selection_pending", Json::Bool(self.model_selection_pending));
        p.put("reasoning", Json::text(self.reasoning.as_str()));
        p.put("sandbox", Json::text(self.sandbox.as_str()));
        p.put("sandbox_source", Json::text(self.sandbox_source.as_str()));
        p.put("remote", Json::text(self.remote.as_str()));
        p.put("workspace", Json::text(self.workspace.as_str()));
        p.put("foreground_session_id", Json::text(self.foreground_session_id.as_str()));
        p.put("total_background", Json::count(self.total_background));
        p.put("total_subagents", Json::count(self.total_subagents));
        p.put("processing_state", Json::text(self.processing_state.as_str()));
        p.put("running", Json::Bool(self.running));
        p.put("message_count", Json::count(self.message_count));
        p.put("last_message_id", Json::opt_string(&self.last_message_id));
        p.put("last_message_time", Json::opt_string(&self.last_message_time));
        p.put("last_seen_message_id", Json::opt_string(&self.last_seen_message_id));
        p.put("last_seen_at", Json::opt_string(&self.last_seen_at));
        p
    }
}

// ---------------------------------------------------------------------------
// Conversations with sessions
// ---------------------------------------------------------------------------
/// The name that is shown: the given one unless it is blank, else the id.
pub open spec fn shown_name(metadata: ConversationMetadata) -> Seq<char> {
    if trimmed(metadata.nickname@).len() == 0 {
        metadata.conversation_id@
    } else {
        metadata.nickname@
    }
}

fn name_to_show(metadata: &ConversationMetadata) -> (r: &str)
    ensures
        r@ == shown_name(*metadata),
{
    if is_blank(metadata.nickname.as_str()) {
        metadata.conversation_id.as_str()
    } else {
        metadata.nickname.as_str()
    }
}

/// The name of a session: its own, else that of the conversation for the main session,
/// else its id.
pub open spec fn session_name(metadata: ConversationMetadata, session: Seq<char>) -> Seq<char> {
    if metadata.session_nicknames@.contains_key(storage_id(session)) {
        metadata.session_nicknames@[storage_id(session)]@
    } else if session == "main"@ {
        shown_name(metadata)
    } else {
        session
    }
}

fn name_of_session(metadata: &ConversationMetadata, session: &str) -> (r: String)
    requires
        metadata.session_nicknames.wf(),
    ensures
        r@ == session_name(*metadata, session@),
{
    let key: String = foreground_session_storage_id(session);
    match metadata.session_nicknames.get(key.as_str()) {
        Some(n) => n.clone(),
        None => if text_eq(session, "main") {
            name_to_show(metadata).to_owned()
        } else {
            session.to_owned()
        },
    }
}

/// A session in short.
pub open spec fn session_payload(
    metadata: ConversationMetadata,
    session: Seq<char>,
    messages: MessageSummary,
    seen: Option<ConversationSeen>,
    live: LiveView,
) -> JsonView {
    JsonView::empty_object().with("id"@, JsonView::Text(session)).with(
        "foreground_session_id"@,
        JsonView::Text(session),
    ).with("session_id"@, JsonView::Text(storage_id(session))).with(
        "nickname"@,
        JsonView::Text(session_name(metadata, session)),
    ).with("session_name"@, JsonView::Text(session_name(metadata, session))).with(
        "state"@,
        JsonView::Text(live.summary()),
    ).with("active_turn_id"@, or_null(live.turn_id())).with(
        "is_main"@,
        JsonView::Bool(session == "main"@),
    ).with("message_count"@, JsonView::number(messages.message_count as nat)).with(
        "last_message_id"@,
        or_null(opt_view(messages.last_message_id)),
    ).with("last_message_time"@, or_null(opt_view(messages.last_message_time))).with(
        "last_committed_message_id"@,
        or_null(opt_view(messages.last_message_id)),
    ).with("last_committed_message_index"@, opt_index(messages.last_message_index)).with(
        "last_activity_at"@,
        or_null(opt_view(messages.last_message_time)),
    ).with(
        "last_seen_message_id"@,
        match seen {
            Some(s) => JsonView::Text(s.last_seen_message_id@),
            None => JsonView::Null,
        },
    ).with(
        "last_seen_at"@,
        match seen {
            Some(s) => JsonView::Text(s.updated_at@),
            None => JsonView::Null,
        },
    )
}

pub open spec fn opt_seen(s: Option<&ConversationSeen>) -> Option<ConversationSeen> {
    match s {
        Some(s) => Some(*s),
        None => None,
    }
}

pub fn foreground_session_summary(
    metadata: &ConversationMetadata,
    foreground_session_id: &str,
    messages: &MessageSummary,
    seen: Option<&ConversationSeen>,
    live: &ChatLiveState,
) -> (r: Json)
    requires
        metadata.session_nicknames.wf(),
    ensures
        r@ == session_payload(
            *metadata,
            foreground_session_id@,
            *messages,
            opt_seen(seen),
            live@,
        ),
{
    let session: &str = foreground_session_id;
    let kept: String = foreground_session_storage_id(session);
    let name: String = name_of_session(metadata, session);
    let mut p: Json = Json::object();
    p.put("id", Json::text(session));
    p.put("foreground_session_id", Json::text(session));
    p.put("session_id", Json::text(kept.as_str()));
    p.put("nickname", Json::text(name.as_str()));
    p.put("session_name", Json::text(name.as_str()));
    p.put("state", Json::text(live.summary_state()));
    p.put("active_turn_id", Json::opt_text(live.active_turn_id()));
    p.put("is_main", Json::Bool(text_eq(session, "main")));
    p.put("message_count", Json::count(messages.message_count));
    p.put("last_message_id", Json::opt_string(&messages.last_message_id));
    p.put("last_message_time", Json::opt_string(&messages.last_message_time));
    p.put("last_committed_message_id", Json::opt_string(&messages.last_message_id));
    p.put("last_committed_message_index", opt_count(messages.last_message_index));
    p.put("last_activity_at", Json::opt_string(&messages.last_message_time));
    let (id, at): (Json, Json) = match seen {
        Some(s) => (
            Json::text(s.last_seen_message_id.as_str()),
            Json::text(s.updated_at.as_str()),
        ),
        None => (Json::Null, Json::Null),
    };
    p.put("last_seen_message_id", id);
    p.put("last_seen_at", at);
    p
}

/// Whether a session is listed: it is the default one, or it has a name of its own.
pub open spec fn is_listed(metadata: ConversationMetadata, session: Seq<char>) -> bool {
    session == default_session(metadata) || exists|k: Seq<char>|
        #[trigger] metadata.session_nicknames@.contains_key(k) && route_id(k) == Some(session)
}

pub open spec fn default_session(metadata: ConversationMetadata) -> Seq<char> {
    match route_id(metadata.foreground_session_id@) {
        Some(t) => t,
        None => "main"@,
    }
}

/// The first `n` names of sessions, as ids by which sessions are addressed.
pub open spec fn named_among(entries: Seq<(String, String)>, n: int, session: Seq<char>) -> bool {
    exists|i: int| 0 <= i < n && route_id((#[trigger] entries[i]).0@) == Some(session)
}

/// The sessions of a conversation in order: the default one and those with names.
pub fn foreground_session_ids(metadata: &ConversationMetadata) -> (r: Vec<String>)
    requires
        metadata.session_nicknames.wf(),
    ensures
        forall|i: int, j: int| 0 <= i < j < r@.len() ==> less((#[trigger] r@[i])@, (#[trigger] r@[j])@),
        forall|s: Seq<char>|
            is_listed(*metadata, s) <==> exists|i: int| 0 <= i < r@.len() && (#[trigger] r@[i])@ == s,
{
    let mut ids: TextMap<bool> = TextMap::new();
    let entries: &Vec<(String, String)> = &metadata.session_nicknames.entries;
    let mut i: usize = 0;
    while i < entries.len()
        invariant
            i <= entries@.len(),
            ids.wf(),
            forall|s: Seq<char>| #[trigger] ids@.contains_key(s) <==> named_among(
                entries@,
                i as int,
                s,
            ),
        decreases entries@.len() - i,
    {
        let ghost before = ids@;
        match foreground_route_id_from_storage_id(entries[i].0.as_str()) {
            Some(route) => {
                ids.insert(route.as_str(), true);
                assert forall|s: Seq<char>| #[trigger] ids@.contains_key(s) <==> named_among(
                    entries@,
                    i + 1,
                    s,
                ) by {
                    if s == route@ {
                        assert(route_id(entries@[i as int].0@) == Some(s));
                    } else {
                        assert(before.contains_key(s) <==> named_among(entries@, i as int, s));
                        if named_among(entries@, i + 1, s) {
                            let k = choose|k: int|
                                0 <= k < i + 1 && route_id((#[trigger] entries@[k]).0@) == Some(s);
                            assert(k < i);
                        }
                    }
                }
            },
            None => {
                assert forall|s: Seq<char>| #[trigger] ids@.contains_key(s) <==> named_among(
                    entries@,
                    i + 1,
                    s,
                ) by {
                    assert(before.contains_key(s) <==> named_among(entries@, i as int, s));
                    if named_among(entries@, i + 1, s) {
                        let k = choose|k: int|
                            0 <= k < i + 1 && route_id((#[trigger] entries@[k]).0@) == Some(s);
                        assert(k < i);
                    }
                }
            },
        }
        i += 1;
    }
    let default_id: String = default_foreground_route_id(metadata);
    let ghost named = ids@;
    ids.insert(default_id.as_str(), true);
    let mut r: Vec<String> = Vec::new();
    let mut i: usize = 0;
    while i < ids.entries.len()
        invariant
            i <= ids.entries@.len(),
            r@.len() == i,
            forall|k: int| 0 <= k < i ==> (#[trigger] r@[k])@ == ids.entries@[k].0@,
        decreases ids.entries@.len() - i,
    {
        r.push(ids.entries[i].0.clone());
        i += 1;
    }
    proof {
        let nicknames = metadata.session_nicknames;
        assert forall|s: Seq<char>|
            is_listed(*metadata, s) <==> exists|i: int|
                0 <= i < r@.len() && (#[trigger] r@[i])@ == s by {
            assert(ids@.contains_key(s) <==> (s == default_id@ || named.contains_key(s)));
            assert(named.contains_key(s) <==> named_among(entries@, entries@.len() as int, s));
            if named_among(entries@, entries@.len() as int, s) {
                let k = choose|k: int|
                    0 <= k < entries@.len() && route_id((#[trigger] entries@[k]).0@) == Some(s);
                nicknames.lemma_entry(k);
                assert(nicknames@.contains_key(entries@[k].0@));
            }
            if exists|k: Seq<char>|
                #[trigger] nicknames@.contains_key(k) && route_id(k) == Some(s) {
                let key = choose|k: Seq<char>|
                    #[trigger] nicknames@.contains_key(k) && route_id(k) == Some(s);
                let k = choose|k: int|
                    0 <= k < entries@.len() && #[trigger] entries@[k].0@ == key;
                assert(route_id(entries@[k].0@) == Some(s));
            }
            if ids@.contains_key(s) {
                let k = choose|k: int|
                    0 <= k < ids.entries@.len() && #[trigger] ids.entries@[k].0@ == s;
                assert(r@[k]@ == s);
            }
            if exists|i: int| 0 <= i < r@.len() && (#[trigger] r@[i])@ == s {
                let k = choose|i: int| 0 <= i < r@.len() && (#[trigger] r@[i])@ == s;
                ids.lemma_entry(k);
            }
        }
    }
    r
}

/// A conversation in short. `workspace` is where its files are and `sessions` are its
/// sessions in short.
pub open spec fn conversation_payload(
    metadata: ConversationMetadata,
    config: StellaclawConfig,
    runtime: Option<ConversationRuntimeConfig>,
    workspace: Seq<char>,
    processing: ProcessingState,
    messages: MessageSummary,
    sessions: Seq<JsonView>,
) -> JsonView {
    JsonView::empty_object().with(
        "conversation_id"@,
        JsonView::Text(metadata.conversation_id@),
    ).with("conversation_name"@, JsonView::Text(shown_name(metadata))).with(
        "nickname"@,
        JsonView::Text(shown_name(metadata)),
    ).with("platform_chat_id"@, JsonView::Text(metadata.platform_chat_id@)).with(
        "foreground_session_id"@,
        JsonView::Text(metadata.foreground_session_id@),
    ).with("model"@, JsonView::Text(model_label(runtime, config))).with(
        "reasoning"@,
        JsonView::Text(reasoning_label(runtime)),
    ).with(
        "sandbox"@,
        JsonView::Text(
            match own_sandbox(runtime) {
                Some(SandboxMode::Subprocess) => "Subprocess"@,
                Some(SandboxMode::Bubblewrap) => "Bubblewrap"@,
                None => "default"@,
            },
        ),
    ).with(
        "remote"@,
        JsonView::Text(
            match runtime {
                Some(r) => remote_label(r.tool_remote_mode@),
                None => "selectable"@,
            },
        ),
    ).with("workspace"@, JsonView::Text(workspace)).with(
        "processing_state"@,
        JsonView::Text(processing_name(processing)),
    ).with("running"@, JsonView::Bool(processing != ProcessingState::Idle)).with(
        "message_count"@,
        JsonView::number(messages.message_count as nat),
    ).with("last_message_id"@, or_null(opt_view(messages.last_message_id))).with(
        "last_message_time"@,
        or_null(opt_view(messages.last_message_time)),
    ).with("last_committed_message_id"@, or_null(opt_view(messages.last_message_id))).with(
        "last_committed_message_index"@,
        opt_index(messages.last_message_index),
    ).with("updated_at"@, or_null(opt_view(messages.last_message_time))).with(
        "foreground_sessions"@,
        JsonView::Array(sessions),
    )
}

pub fn conversation_summary(
    metadata: &ConversationMetadata,
    config: &StellaclawConfig,
    runtime_config: Option<&ConversationRuntimeConfig>,
    workspace: &str,
    processing_state: ProcessingState,
    messages: &MessageSummary,
    sessions: Vec<Json>,
) -> (r: Json)
    requires
        config.wf(),
    ensures
        r@ == conversation_payload(
            *metadata,
            *config,
            opt_runtime(runtime_config),
            workspace@,
            processing_state,
            *messages,
            array_view(sessions@),
        ),
{
    let model: String = conversation_model_label(runtime_config, config);
    let reasoning: String = conversation_reasoning_label(runtime_config);
    let sandbox: &str = match own_sandbox_mode(runtime_config) {
        Some(SandboxMode::Subprocess) => "Subprocess",
        Some(SandboxMode::Bubblewrap) => "Bubblewrap",
        None => "default",
    };
    let remote: String = match runtime_config {
        Some(runtime) => make_remote_label(&runtime.tool_remote_mode),
        None => "selectable".to_owned(),
    };
    let running: bool = match processing_state {
        ProcessingState::Idle => false,
        ProcessingState::Typing => true,
    };
    let mut p: Json = Json::object();
    p.put("conversation_id", Json::text(metadata.conversation_id.as_str()));
    p.put("conversation_name", Json::text(name_to_show(metadata)));
    p.put("nickname", Json::text(name_to_show(metadata)));
    p.put("platform_chat_id", Json::text(metadata.platform_chat_id.as_str()));
    p.put("foreground_session_id", Json::text(metadata.foreground_session_id.as_str()));
    p.put("model", Json::Text(model));
    p.put("reasoning", Json::Text(reasoning));
    p.put("sandbox", Json::text(sandbox));
    p.put("remote", Json::Text(remote));
    p.put("workspace", Json::text(workspace));
    p.put("processing_state", Json::text(processing_state_name(processing_state)));
    p.put("running", Json::Bool(running));
    p.put("message_count", Json::count(messages.message_count));
    p.put("last_message_id", Json::opt_string(&messages.last_message_id));
    p.put("last_message_time", Json::opt_string(&messages.last_message_time));
    p.put("last_committed_message_id", Json::opt_string(&messages.last_message_id));
    p.put("last_committed_message_index", opt_count(messages.last_message_index));
    p.put("updated_at", Json::opt_string(&messages.last_message_time));
    p.put("foreground_sessions", Json::Array(sessions));
    p
}

// ---------------------------------------------------------------------------
// Models
// ---------------------------------------------------------------------------
pub open spec fn model_payload(alias: Seq<char>, provider: ProviderType) -> JsonView {
    JsonView::empty_object().with("alias"@, JsonView::Text(alias)).with(
        "name"@,
        JsonView::Text(alias),
    ).with("provider"@, JsonView::Text(provider_label(provider))).with(
        "display_name"@,
        JsonView::Text(alias),
    )
}

/// A list of models with the one that is used by default.
pub open spec fn models_payload(default_model: Option<Seq<char>>, models: Seq<JsonView>) -> JsonView {
    JsonView::empty_object().with("default_model"@, or_null(default_model)).with(
        "total"@,
        JsonView::number(models.len()),
    ).with("models"@, JsonView::Array(models))
}

/// The payload that lists models, each given as a value.
pub fn model_listing_payload(config: &StellaclawConfig, models: Vec<Json>) -> (r: Json)
    requires
        config.wf(),
    ensures
        r@ == models_payload(config.initial_name(), array_view(models@)),
{
    assert(array_view(models@).len() == models@.len());
    let mut p: Json = Json::object();
    p.put("default_model", Json::opt_string(&config.initial_main_model_name()));
    p.put("total", Json::count(models.len()));
    p.put("models", Json::Array(models));
    p
}

/// Lists the models that agents can use.
pub fn list_models(config: &StellaclawConfig) -> (r: Json)
    requires
        config.wf(),
    ensures
        r@ == models_payload(
            config.initial_name(),
            config.available().map_values(
                |m: (Seq<char>, crate::model::ModelView)| model_payload(m.0, m.1.provider_type),
            ),
        ),
{
    let list: Vec<(&String, &ModelConfig)> = config.available_agent_models();
    let ghost all = config.available();
    let ghost expected = all.map_values(
        |m: (Seq<char>, crate::model::ModelView)| model_payload(m.0, m.1.provider_type),
    );
    assert(crate::config::model_pairs(list@).len() == list@.len());
    let mut models: Vec<Json> = Vec::new();
    let mut i: usize = 0;
    while i < list.len()
        invariant
            i <= list@.len(),
            all == crate::config::model_pairs(list@),
            all.len() == list@.len(),
            expected.len() == all.len(),
            forall|k: int|
                0 <= k < all.len() ==> (#[trigger] expected[k]) == model_payload(
                    all[k].0,
                    all[k].1.provider_type,
                ),
            array_view(models@) =~= expected.take(i as int),
        decreases list@.len() - i,
    {
        let (alias, model) = list[i];
        assert(all[i as int] == (alias@, model@));
        let mut p: Json = Json::object();
        p.put("alias", Json::text(alias.as_str()));
        p.put("name", Json::text(alias.as_str()));
        p.put("provider", Json::text(provider_name(model.provider_type)));
        p.put("display_name", Json::text(alias.as_str()));
        assert(expected[i as int] == p@);
        models.push(p);
        i += 1;
    }
    assert(expected.take(expected.len() as int) =~= expected);
    model_listing_payload(config, models)
}

} // verus!

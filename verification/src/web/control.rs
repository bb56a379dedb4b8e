//! Commands in web messages, and what they ask of a conversation.

use vstd::prelude::*;
use crate::channels::{
    is_default_effort, is_effort, names_default_effort, names_effort, opt_control,
    parse_reasoning_control_argument, reasoning_control, ControlView, ConversationControl,
};
use crate::config::{can_chat, lookup, ModelSelection, SessionProfile, StellaclawConfig};
use crate::model::ModelCapability;
use crate::telegram::command::{command_base, first_word, split_first_word, strip_bot_name};
use crate::text::{cat2, cat3, opt_copy, opt_view, starts_with, text_eq, trim, trimmed, views};
use crate::web::http::HttpError;
use crate::web_terminal::{RemoteView, ToolRemoteMode};
use crate::words::{lower_seq, split_words, to_lower, words_seq};

verus! {

/// What changes in the settings of a conversation.
#[derive(Debug)]
pub struct KernelRuntimeConfigPatch {
    pub session_profile: Option<Option<SessionProfile>>,
    pub reasoning_effort: Option<Option<String>>,
    pub tool_remote_mode: Option<ToolRemoteMode>,
}

/// What a channel asks of a conversation.
#[derive(Debug)]
pub enum ControlIngress {
    ContinueForegroundTurn { foreground_session_id: Option<String>, reason: Option<String> },
    CancelForegroundTurn { foreground_session_id: Option<String>, reason: Option<String> },
    CompactForegroundNow { foreground_session_id: Option<String> },
    QueryForegroundStatus { foreground_session_id: Option<String> },
    UpdateRuntimeConfig { patch: KernelRuntimeConfigPatch },
}

/// A change of the settings: of the model, of the effort or of the place of the tools.
pub enum PatchView {
    Model(Seq<char>),
    Effort(Option<Seq<char>>),
    Remote(RemoteView),
}

pub enum IngressView {
    Continue(Option<Seq<char>>, Option<Seq<char>>),
    Cancel(Option<Seq<char>>, Option<Seq<char>>),
    Compact(Option<Seq<char>>),
    Query(Option<Seq<char>>),
    Update(PatchView),
}

impl KernelRuntimeConfigPatch {
    /// Whether the patch makes this change and no other.
    pub open spec fn makes(self, change: PatchView) -> bool {
        match change {
            PatchView::Model(alias) => {
                &&& self.session_profile matches Some(Some(p))
                &&& p.main_model matches ModelSelection::Alias(a)
                &&& a@ == alias
                &&& self.reasoning_effort is None
                &&& self.tool_remote_mode is None
            },
            PatchView::Effort(effort) => {
                &&& self.session_profile is None
                &&& self.reasoning_effort matches Some(e)
                &&& opt_view(e) == effort
                &&& self.tool_remote_mode is None
            },
            PatchView::Remote(mode) => {
                &&& self.session_profile is None
                &&& self.reasoning_effort is None
                &&& self.tool_remote_mode matches Some(m)
                &&& m@ == mode
            },
        }
    }
}

impl ControlIngress {
    /// Whether the ingress is the one that is meant.
    pub open spec fn is(self, v: IngressView) -> bool {
        match (self, v) {
            (
                ControlIngress::ContinueForegroundTurn { foreground_session_id, reason },
                IngressView::Continue(s, r),
            ) => opt_view(foreground_session_id) == s && opt_view(reason) == r,
            (
                ControlIngress::CancelForegroundTurn { foreground_session_id, reason },
                IngressView::Cancel(s, r),
            ) => opt_view(foreground_session_id) == s && opt_view(reason) == r,
            (
                ControlIngress::CompactForegroundNow { foreground_session_id },
                IngressView::Compact(s),
            ) => opt_view(foreground_session_id) == s,
            (
                ControlIngress::QueryForegroundStatus { foreground_session_id },
                IngressView::Query(s),
            ) => opt_view(foreground_session_id) == s,
            (ControlIngress::UpdateRuntimeConfig { patch }, IngressView::Update(change)) =>
                patch.makes(change),
            _ => false,
        }
    }
}

fn set_model(alias: &str) -> (r: ControlIngress)
    ensures
        r.is(IngressView::Update(PatchView::Model(alias@))),
{
    ControlIngress::UpdateRuntimeConfig {
        patch: KernelRuntimeConfigPatch {
            session_profile: Some(
                Some(SessionProfile { main_model: ModelSelection::alias(alias) }),
            ),
            reasoning_effort: None,
            tool_remote_mode: None,
        },
    }
}

fn set_effort(effort: Option<String>) -> (r: ControlIngress)
    ensures
        r.is(IngressView::Update(PatchView::Effort(opt_view(effort)))),
{
    ControlIngress::UpdateRuntimeConfig {
        patch: KernelRuntimeConfigPatch {
            session_profile: None,
            reasoning_effort: Some(effort),
            tool_remote_mode: None,
        },
    }
}

fn set_remote(mode: ToolRemoteMode) -> (r: ControlIngress)
    ensures
        r.is(IngressView::Update(PatchView::Remote(mode@))),
{
    ControlIngress::UpdateRuntimeConfig {
        patch: KernelRuntimeConfigPatch {
            session_profile: None,
            reasoning_effort: None,
            tool_remote_mode: Some(mode),
        },
    }
}

// ---------------------------------------------------------------------------
// Reading a command
// ---------------------------------------------------------------------------
/// The command and its argument, where the text starts with a slash.
pub open spec fn command_and_argument(text: Seq<char>) -> Option<(Seq<char>, Seq<char>)> {
    let t = trimmed(text);
    if "/"@.is_prefix_of(t) {
        Some((trimmed(command_base(first_word(t).0)), trimmed(first_word(t).1)))
    } else {
        None
    }
}

pub fn parse_web_control_command(text: &str) -> (r: Option<(&str, &str)>)
    ensures
        match (r, command_and_argument(text@)) {
            (Some(a), Some(b)) => a.0@ == b.0 && a.1@ == b.1,
            (None, None) => true,
            _ => false,
        },
{
    let t: &str = trim(text);
    if !starts_with(t, "/") {
        return None;
    }
    let (first, rest) = split_first_word(t);
    Some((trim(strip_bot_name(first)), trim(rest)))
}

/// The effort that an argument asks for; nothing is known of other words.
pub open spec fn effort_of(argument: Seq<char>) -> Result<Option<Seq<char>>, Seq<char>> {
    let w = lower_seq(trimmed(argument));
    if w.len() == 0 || w == "show"@ || is_default_effort(w) {
        Ok(None)
    } else if is_effort(w) {
        Ok(Some(w))
    } else {
        Err("unknown reasoning effort "@ + w)
    }
}

pub fn parse_reasoning_effort_argument(argument: &str) -> (r: Result<Option<String>, HttpError>)
    ensures
        match (r, effort_of(argument@)) {
            (Ok(a), Ok(b)) => opt_view(a) == b,
            (Err(e), Err(message)) => e.status == 400 && e.message@ == message,
            _ => false,
        },
{
    let lower: String = to_lower(trim(argument));
    let w: &str = lower.as_str();
    if w.is_empty() || text_eq(w, "show") || names_default_effort(w) {
        Ok(None)
    } else if names_effort(w) {
        Ok(Some(lower))
    } else {
        let message: String = cat2("unknown reasoning effort ", w);
        Err(HttpError::new(400, message.as_str()))
    }
}

/// Whether the argument takes the tools back to this machine.
pub open spec fn means_local(argument: Seq<char>) -> bool {
    argument == "off"@ || argument == "disable"@ || argument == "disabled"@ || argument == "local"@
}

/// What a command asks for: nothing, something, or something that cannot be.
pub open spec fn control_of(
    has_model: spec_fn(Seq<char>) -> bool,
    command: Seq<char>,
    argument: Seq<char>,
    session: Option<Seq<char>>,
) -> Result<Option<IngressView>, Seq<char>> {
    let bare = argument.len() == 0;
    if command == "/continue"@ && bare {
        Ok(Some(IngressView::Continue(session, Some("web requested continue"@))))
    } else if command == "/cancel"@ && bare {
        Ok(Some(IngressView::Cancel(session, Some("web requested cancel"@))))
    } else if command == "/compact"@ && bare {
        Ok(Some(IngressView::Compact(session)))
    } else if (command == "/status"@ || command == "/model"@ || command == "/remote"@) && bare {
        Ok(Some(IngressView::Query(session)))
    } else if command == "/model"@ {
        if has_model(argument) {
            Ok(Some(IngressView::Update(PatchView::Model(argument))))
        } else {
            Err("unknown model alias "@ + argument)
        }
    } else if command == "/reasoning"@ {
        match effort_of(argument) {
            Ok(effort) => Ok(Some(IngressView::Update(PatchView::Effort(effort)))),
            Err(message) => Err(message),
        }
    } else if command == "/remote"@ {
        if means_local(argument) {
            Ok(Some(IngressView::Update(PatchView::Remote(RemoteView::Selectable))))
        } else if words_seq(argument).len() == 2 {
            Ok(
                Some(
                    IngressView::Update(
                        PatchView::Remote(
                            RemoteView::FixedSsh {
                                host: words_seq(argument)[0],
                                cwd: Some(words_seq(argument)[1]),
                            },
                        ),
                    ),
                ),
            )
        } else {
            Err("usage: /remote <host> <path>"@)
        }
    } else if command == "/sandbox"@ {
        Err("sandbox runtime switching is not exposed through web yet"@)
    } else {
        Ok(None)
    }
}

/// Whether a configuration holds a model of a name.
pub open spec fn knows_model(config: StellaclawConfig) -> spec_fn(Seq<char>) -> bool {
    |name: Seq<char>| config.models@.contains_key(name)
}

pub open spec fn control_result(
    r: Result<Option<ControlIngress>, HttpError>,
    expected: Result<Option<IngressView>, Seq<char>>,
) -> bool {
    match (r, expected) {
        (Ok(Some(i)), Ok(Some(v))) => i.is(v),
        (Ok(None), Ok(None)) => true,
        (Err(e), Err(message)) => e.status == 400 && e.message@ == message,
        _ => false,
    }
}

/// Reads a message as a command to a session.
pub fn control_ingress_from_text(
    config: &StellaclawConfig,
    text: &str,
    foreground_session_id: &str,
) -> (r: Result<Option<ControlIngress>, HttpError>)
    requires
        config.models.wf(),
    ensures
        control_result(
            r,
            match command_and_argument(text@) {
                Some((command, argument)) => control_of(
                    knows_model(*config),
                    command,
                    argument,
                    Some(foreground_session_id@),
                ),
                None => Ok(None),
            },
        ),
{
    let (command, argument) = match parse_web_control_command(text) {
        Some(p) => p,
        None => {
            return Ok(None);
        },
    };
    let session: Option<String> = Some(foreground_session_id.to_owned());
    let bare: bool = argument.is_empty();
    if text_eq(command, "/continue") && bare {
        Ok(
            Some(
                ControlIngress::ContinueForegroundTurn {
                    foreground_session_id: session,
                    reason: Some("web requested continue".to_owned()),
                },
            ),
        )
    } else if text_eq(command, "/cancel") && bare {
        Ok(
            Some(
                ControlIngress::CancelForegroundTurn {
                    foreground_session_id: session,
                    reason: Some("web requested cancel".to_owned()),
                },
            ),
        )
    } else if text_eq(command, "/compact") && bare {
        Ok(Some(ControlIngress::CompactForegroundNow { foreground_session_id: session }))
    } else if (text_eq(command, "/status") || text_eq(command, "/model") || text_eq(
        command,
        "/remote",
    )) && bare {
        Ok(Some(ControlIngress::QueryForegroundStatus { foreground_session_id: session }))
    } else if text_eq(command, "/model") {
        if config.models.contains_key(argument) {
            Ok(Some(set_model(argument)))
        } else {
            let message: String = cat2("unknown model alias ", argument);
            Err(HttpError::new(400, message.as_str()))
        }
    } else if text_eq(command, "/reasoning") {
        match parse_reasoning_effort_argument(argument) {
            Ok(effort) => Ok(Some(set_effort(effort))),
            Err(e) => Err(e),
        }
    } else if text_eq(command, "/remote") {
        if text_eq(argument, "off") || text_eq(argument, "disable") || text_eq(argument, "disabled")
            || text_eq(argument, "local") {
            return Ok(Some(set_remote(ToolRemoteMode::Selectable)));
        }
        let parts: Vec<String> = split_words(argument);
        assert(views(parts@).len() == parts@.len());
        if parts.len() != 2 {
            return Err(HttpError::new(400, "usage: /remote <host> <path>"));
        }
        assert(views(parts@)[0] == parts@[0]@ && views(parts@)[1] == parts@[1]@);
        Ok(
            Some(
                set_remote(
                    ToolRemoteMode::FixedSsh {
                        host: parts[0].clone(),
                        cwd: Some(parts[1].clone()),
                    },
                ),
            ),
        )
    } else if text_eq(command, "/sandbox") {
        Err(HttpError::new(400, "sandbox runtime switching is not exposed through web yet"))
    } else {
        Ok(None)
    }
}

// ---------------------------------------------------------------------------
// Commands that stand alone
// ---------------------------------------------------------------------------
pub open spec fn web_remote_control(argument: Seq<char>) -> ControlView {
    let (first, rest) = first_word(trimmed(argument));
    if trimmed(first).len() == 0 || trimmed(rest).len() == 0 {
        ControlView::InvalidRemote { reason: "remote command requires host and path."@ }
    } else {
        ControlView::SetRemote { host: trimmed(first), path: trimmed(rest) }
    }
}

pub fn parse_web_remote_control(argument: &str) -> (r: ConversationControl)
    ensures
        r@ == web_remote_control(argument@),
{
    let (first, rest) = split_first_word(trim(argument));
    let host: &str = trim(first);
    let path: &str = trim(rest);
    if host.is_empty() || path.is_empty() {
        ConversationControl::InvalidRemote {
            reason: "remote command requires host and path.".to_owned(),
        }
    } else {
        ConversationControl::SetRemote { host: host.to_owned(), path: path.to_owned() }
    }
}

/// What a web message asks for besides talking, if it is a command.
pub open spec fn web_control(text: Seq<char>) -> Option<ControlView> {
    let command = first_word(text).0;
    let argument = trimmed(first_word(text).1);
    let bare = argument.len() == 0;
    if command == "/continue"@ && bare {
        Some(ControlView::Continue)
    } else if command == "/cancel"@ && bare {
        Some(ControlView::Cancel)
    } else if command == "/compact"@ && bare {
        Some(ControlView::Compact)
    } else if command == "/status"@ && bare {
        Some(ControlView::ShowStatus)
    } else if command == "/model"@ {
        if bare {
            Some(ControlView::ShowModel)
        } else {
            Some(ControlView::SwitchModel { model_name: argument })
        }
    } else if command == "/reasoning"@ {
        Some(reasoning_control(argument))
    } else if command == "/remote"@ {
        if bare {
            Some(ControlView::ShowRemote)
        } else if lower_seq(argument) == "off"@ {
            Some(ControlView::DisableRemote)
        } else {
            Some(web_remote_control(argument))
        }
    } else {
        None
    }
}

pub fn parse_web_control(text: &str) -> (r: Option<ConversationControl>)
    ensures
        opt_control(r) == web_control(text@),
{
    let (command, rest) = split_first_word(text);
    let argument: &str = trim(rest);
    let bare: bool = argument.is_empty();
    if text_eq(command, "/continue") && bare {
        Some(ConversationControl::Continue)
    } else if text_eq(command, "/cancel") && bare {
        Some(ConversationControl::Cancel)
    } else if text_eq(command, "/compact") && bare {
        Some(ConversationControl::Compact)
    } else if text_eq(command, "/status") && bare {
        Some(ConversationControl::ShowStatus)
    } else if text_eq(command, "/model") {
        if bare {
            Some(ConversationControl::ShowModel)
        } else {
            Some(ConversationControl::SwitchModel { model_name: argument.to_owned() })
        }
    } else if text_eq(command, "/reasoning") {
        Some(parse_reasoning_control_argument(argument))
    } else if text_eq(command, "/remote") {
        let lower: String = to_lower(argument);
        if bare {
            Some(ConversationControl::ShowRemote)
        } else if text_eq(lower.as_str(), "off") {
            Some(ConversationControl::DisableRemote)
        } else {
            Some(parse_web_remote_control(argument))
        }
    } else {
        None
    }
}

/// Whether a configuration offers a model to agents.
pub open spec fn offers(config: StellaclawConfig, name: Seq<char>) -> bool {
    exists|i: int| 0 <= i < config.available().len() && (#[trigger] config.available()[i]).0 == name
}

/// What is asked of a conversation by a control.
pub open spec fn ingress_of(config: StellaclawConfig, control: ControlView) -> Result<
    IngressView,
    Seq<char>,
> {
    match control {
        ControlView::Continue => Ok(IngressView::Continue(None, Some("user requested continue"@))),
        ControlView::Cancel => Ok(IngressView::Cancel(None, Some("user requested cancel"@))),
        ControlView::Compact => Ok(IngressView::Compact(None)),
        ControlView::ShowStatus => Ok(IngressView::Query(None)),
        ControlView::ShowModel => Ok(IngressView::Query(None)),
        ControlView::ShowReasoning => Ok(IngressView::Query(None)),
        ControlView::ShowRemote => Ok(IngressView::Query(None)),
        ControlView::ShowSandbox => Ok(IngressView::Query(None)),
        ControlView::SwitchModel { model_name } => match lookup(config.models, model_name) {
            None => Err("unknown model alias "@ + model_name),
            Some(m) => if !offers(config, model_name) {
                Err("model "@ + model_name + " is not available for agent selection"@)
            } else if !can_chat(m) {
                Err("model "@ + model_name + " is not chat-capable"@)
            } else {
                Ok(IngressView::Update(PatchView::Model(model_name)))
            },
        },
        ControlView::SetReasoning { effort } => Ok(IngressView::Update(PatchView::Effort(effort))),
        ControlView::SetRemote { host, path } => Ok(
            IngressView::Update(PatchView::Remote(RemoteView::FixedSsh { host, cwd: Some(path) })),
        ),
        ControlView::DisableRemote => Ok(
            IngressView::Update(PatchView::Remote(RemoteView::Selectable)),
        ),
        ControlView::SetSandbox { .. } => Err(
            "sandbox runtime switching is not exposed through the new channel protocol yet"@,
        ),
        ControlView::InvalidReasoning { reason } => Err(reason),
        ControlView::InvalidRemote { reason } => Err(reason),
        ControlView::InvalidSandbox { reason } => Err(reason),
    }
}

pub fn web_control_to_channel_ingress(
    config: &StellaclawConfig,
    control: &ConversationControl,
) -> (r: Result<ControlIngress, HttpError>)
    requires
        config.wf(),
    ensures
        match (r, ingress_of(*config, control@)) {
            (Ok(i), Ok(v)) => i.is(v),
            (Err(e), Err(message)) => e.status == 400 && e.message@ == message,
            _ => false,
        },
{
    match control {
        ConversationControl::Continue => Ok(
            ControlIngress::ContinueForegroundTurn {
                foreground_session_id: None,
                reason: Some("user requested continue".to_owned()),
            },
        ),
        ConversationControl::Cancel => Ok(
            ControlIngress::CancelForegroundTurn {
                foreground_session_id: None,
                reason: Some("user requested cancel".to_owned()),
            },
        ),
        ConversationControl::Compact => Ok(
            ControlIngress::CompactForegroundNow { foreground_session_id: None },
        ),
        ConversationControl::ShowStatus
        | ConversationControl::ShowModel
        | ConversationControl::ShowReasoning
        | ConversationControl::ShowRemote
        | ConversationControl::ShowSandbox => Ok(
            ControlIngress::QueryForegroundStatus { foreground_session_id: None },
        ),
        ConversationControl::SwitchModel { model_name } => {
            let name: &str = model_name.as_str();
            match config.models.get(name) {
                None => {
                    let message: String = cat2("unknown model alias ", name);
                    Err(HttpError::new(400, message.as_str()))
                },
                Some(model) => if !config.is_available_agent_model(name) {
                    let message: String = cat3(
                        "model ",
                        name,
                        " is not available for agent selection",
                    );
                    Err(HttpError::new(400, message.as_str()))
                } else if !model.supports(ModelCapability::Chat) {
                    let message: String = cat3("model ", name, " is not chat-capable");
                    Err(HttpError::new(400, message.as_str()))
                } else {
                    Ok(set_model(name))
                },
            }
        },
        ConversationControl::SetReasoning { effort } => Ok(set_effort(opt_copy(effort))),
        ConversationControl::SetRemote { host, path } => Ok(
            set_remote(
                ToolRemoteMode::FixedSsh { host: host.clone(), cwd: Some(path.clone()) },
            ),
        ),
        ConversationControl::DisableRemote => Ok(set_remote(ToolRemoteMode::Selectable)),
        ConversationControl::SetSandbox { .. } => Err(
            HttpError::new(
                400,
                "sandbox runtime switching is not exposed through the new channel protocol yet",
            ),
        ),
        ConversationControl::InvalidReasoning { reason }
        | ConversationControl::InvalidRemote { reason }
        | ConversationControl::InvalidSandbox { reason } => Err(
            HttpError::new(400, reason.as_str()),
        ),
    }
}

} // verus!

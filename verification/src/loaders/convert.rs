//! A whole configuration of partyclaw in the current form.

use vstd::prelude::*;
use crate::config::{
    lookup, ChannelConfig, ModelSelection, SandboxConfig, SandboxMode, SelectionView,
    SessionDefaults, SessionProfile, StellaclawConfig, TargetView, ToolModelTarget,
};
use crate::model::{ModelConfig, ModelView};
use crate::text::{
    cat3, is_blank, opt_str_view, opt_view, split_once, split_once_seq, text_eq, trim, trimmed,
};
use crate::text_map::TextMap;
use super::partyclaw::{
    convert_named_models, converted_model, convertible, files_asked_for, is_held_up, model_views,
    models_step, named_models, outcome_of, unit_readable, ConversionStep, FileOutcome,
    LegacyChannelConfig, LegacyModelCapability, LegacyModelConfig, LegacyModelType, LegacySandboxMode,
    LegacyServerConfig,
};
use super::upgrade::opt_target;

verus! {

/// The tokens at which a context is compressed, and how many recent ones stay.
#[derive(Clone, Copy, Debug)]
pub struct CompressionTokens {
    pub threshold: Option<u64>,
    pub retain_recent: Option<u64>,
}

/// The threshold of compression: the configured limit, else `scaled`, which is the
/// context window of the main model scaled by the trigger ratio. None where compression
/// is off.
pub fn compression_threshold(legacy: &LegacyServerConfig, scaled: Option<u64>) -> (r: Option<u64>)
    ensures
        r == if !legacy.enable_context_compression {
            None
        } else if legacy.token_limit_override is Some {
            legacy.token_limit_override
        } else {
            scaled
        },
{
    if !legacy.enable_context_compression {
        None
    } else if legacy.token_limit_override.is_some() {
        legacy.token_limit_override
    } else {
        scaled
    }
}

// ---------------------------------------------------------------------------
// The main model
// ---------------------------------------------------------------------------
pub open spec fn chats(m: LegacyModelConfig) -> bool {
    m.capabilities@.contains(LegacyModelCapability::Chat) || m.model_type
        != LegacyModelType::BraveSearch
}

pub open spec fn first_chatting(entries: Seq<(String, LegacyModelConfig)>, i: int) -> Option<
    Seq<char>,
>
    decreases entries.len() - i,
{
    if i < 0 || i >= entries.len() {
        None
    } else if chats(entries[i].1) {
        Some(entries[i].0@)
    } else {
        first_chatting(entries, i + 1)
    }
}

/// The name of the main model: the first that the lists name, else the first model that
/// can chat.
pub open spec fn main_model_name(legacy: LegacyServerConfig) -> Result<Seq<char>, Seq<char>> {
    if legacy.chat_model_keys@.len() > 0 {
        Ok(legacy.chat_model_keys@[0]@)
    } else if legacy.available_models@.len() > 0 {
        Ok(legacy.available_models@[0]@)
    } else if legacy.agent_frame_models@.len() > 0 {
        Ok(legacy.agent_frame_models@[0]@)
    } else {
        match first_chatting(legacy.models.entries@, 0) {
            Some(name) => Ok(name),
            None => Err("unable to determine main chat model from partyclaw config"@),
        }
    }
}

fn model_chats(m: &LegacyModelConfig) -> (b: bool)
    ensures
        b == chats(*m),
{
    if m.model_type != LegacyModelType::BraveSearch {
        return true;
    }
    let mut i: usize = 0;
    while i < m.capabilities.len()
        invariant
            i <= m.capabilities@.len(),
            forall|j: int| 0 <= j < i ==> m.capabilities@[j] != LegacyModelCapability::Chat,
        decreases m.capabilities@.len() - i,
    {
        if m.capabilities[i] == LegacyModelCapability::Chat {
            return true;
        }
        i += 1;
    }
    false
}

pub fn select_main_model_name(legacy: &LegacyServerConfig) -> (r: Result<String, String>)
    ensures
        match (r, main_model_name(*legacy)) {
            (Ok(a), Ok(b)) => a@ == b,
            (Err(e), Err(f)) => e@ == f,
            _ => false,
        },
{
    if legacy.chat_model_keys.len() > 0 {
        return Ok(legacy.chat_model_keys[0].clone());
    }
    if legacy.available_models.len() > 0 {
        return Ok(legacy.available_models[0].clone());
    }
    if legacy.agent_frame_models.len() > 0 {
        return Ok(legacy.agent_frame_models[0].clone());
    }
    let mut i: usize = 0;
    while i < legacy.models.entries.len()
        invariant
            i <= legacy.models.entries@.len(),
            first_chatting(legacy.models.entries@, i as int) == first_chatting(
                legacy.models.entries@,
                0,
            ),
            legacy.chat_model_keys@.len() == 0,
            legacy.available_models@.len() == 0,
            legacy.agent_frame_models@.len() == 0,
        decreases legacy.models.entries@.len() - i,
    {
        if model_chats(&legacy.models.entries[i].1) {
            return Ok(legacy.models.entries[i].0.clone());
        }
        i += 1;
    }
    Err("unable to determine main chat model from partyclaw config".to_owned())
}

// ---------------------------------------------------------------------------
// The models of tools
// ---------------------------------------------------------------------------
/// What a tooling target says: its alias and whether it asks for the main model.
pub open spec fn tooling_target(raw: Seq<char>) -> Result<(Seq<char>, bool), Seq<char>> {
    if trimmed(raw).len() == 0 {
        Err("tooling target must not be empty"@)
    } else {
        match split_once_seq(raw, ':') {
            Some((alias, suffix)) => if trimmed(suffix) != "self"@ {
                Err(
                    "unsupported tooling target suffix '"@ + trimmed(suffix)
                        + "'; expected ':self'"@,
                )
            } else {
                Ok((trimmed(alias), true))
            },
            None => Ok((trimmed(raw), false)),
        }
    }
}

pub fn parse_tooling_target(raw: &str) -> (r: Result<(&str, bool), String>)
    ensures
        match (r, tooling_target(raw@)) {
            (Ok(p), Ok(q)) => p.0@ == q.0 && p.1 == q.1,
            (Err(e), Err(f)) => e@ == f,
            _ => false,
        },
{
    if is_blank(raw) {
        return Err("tooling target must not be empty".to_owned());
    }
    match split_once(raw, ':') {
        Some((alias, suffix)) => {
            let suffix: &str = trim(suffix);
            if !text_eq(suffix, "self") {
                return Err(
                    cat3("unsupported tooling target suffix '", suffix, "'; expected ':self'"),
                );
            }
            Ok((trim(alias), true))
        },
        None => Ok((trim(raw), false)),
    }
}

/// The model that a tool uses, if a target is set.
pub open spec fn helper_model(
    models: Map<Seq<char>, ModelView>,
    main: Seq<char>,
    raw: Option<Seq<char>>,
    search: bool,
) -> Result<Option<TargetView>, Seq<char>> {
    match raw {
        None => Ok(None),
        Some(t) => match tooling_target(t) {
            Err(e) => Err(e),
            Ok((alias, prefer_self)) => {
                let name = if alias == main || prefer_self {
                    main
                } else {
                    alias
                };
                if models.contains_key(name) {
                    Ok(Some(TargetView::Inline(models[name])))
                } else if search {
                    Err("unknown web_search tooling model alias '"@ + name + "'"@)
                } else if alias == main || prefer_self {
                    Err("missing main model '"@ + main + "'"@)
                } else {
                    Err("unknown tooling model alias '"@ + alias + "'"@)
                }
            },
        },
    }
}

fn resolve_helper_model(
    models: &TextMap<ModelConfig>,
    main: &str,
    raw: Option<&str>,
    search: bool,
) -> (r: Result<Option<ToolModelTarget>, String>)
    requires
        models.wf(),
    ensures
        match (r, helper_model(model_views(models@), main@, opt_str_view(raw), search)) {
            (Ok(m), Ok(v)) => opt_target(m) == v,
            (Err(e), Err(f)) => e@ == f,
            _ => false,
        },
{
    let target: &str = match raw {
        Some(t) => t,
        None => {
            return Ok(None);
        },
    };
    let (alias, prefer_self) = match parse_tooling_target(target) {
        Ok(p) => p,
        Err(e) => {
            return Err(e);
        },
    };
    let own: bool = text_eq(alias, main) || prefer_self;
    let name: &str = if own {
        main
    } else {
        alias
    };
    match models.get(name) {
        Some(m) => {
            assert(model_views(models@)[name@] == m@);
            Ok(Some(ToolModelTarget::Inline(m.copy())))
        },
        None => {
            if search {
                Err(cat3("unknown web_search tooling model alias '", name, "'"))
            } else if own {
                Err(cat3("missing main model '", main, "'"))
            } else {
                Err(cat3("unknown tooling model alias '", alias, "'"))
            }
        },
    }
}

pub struct DefaultsView {
    pub image: Option<TargetView>,
    pub pdf: Option<TargetView>,
    pub audio: Option<TargetView>,
    pub image_generation: Option<TargetView>,
    pub search: Option<TargetView>,
}

pub open spec fn or_else(a: Option<Seq<char>>, b: Option<Seq<char>>) -> Option<Seq<char>> {
    match a {
        Some(_) => a,
        None => b,
    }
}

/// The models of the tools; the first failure counts.
pub open spec fn tool_models(
    legacy: LegacyServerConfig,
    models: Map<Seq<char>, ModelView>,
    main: Seq<char>,
) -> Result<DefaultsView, Seq<char>> {
    if !legacy.models@.contains_key(main) {
        Err("missing legacy main model '"@ + main + "'"@)
    } else {
        let own = legacy.models@[main];
        let t = legacy.tooling;
        match helper_model(
            models,
            main,
            or_else(opt_view(t.image), opt_view(own.image_tool_model)),
            false,
        ) {
            Err(e) => Err(e),
            Ok(image) => match helper_model(models, main, opt_view(t.pdf), false) {
                Err(e) => Err(e),
                Ok(pdf) => match helper_model(models, main, opt_view(t.audio_input), false) {
                    Err(e) => Err(e),
                    Ok(audio) => match helper_model(models, main, opt_view(t.image_gen), false) {
                        Err(e) => Err(e),
                        Ok(image_generation) => match helper_model(
                            models,
                            main,
                            or_else(opt_view(t.web_search), opt_view(own.web_search_model)),
                            true,
                        ) {
                            Err(e) => Err(e),
                            Ok(search) => Ok(
                                DefaultsView { image, pdf, audio, image_generation, search },
                            ),
                        },
                    },
                },
            },
        }
    }
}

pub open spec fn defaults_view(d: SessionDefaults) -> DefaultsView {
    DefaultsView {
        image: opt_target(d.image_tool_model),
        pdf: opt_target(d.pdf_tool_model),
        audio: opt_target(d.audio_tool_model),
        image_generation: opt_target(d.image_generation_tool_model),
        search: opt_target(d.search_tool_model),
    }
}

fn first_set<'a>(a: &'a Option<String>, b: &'a Option<String>) -> (r: Option<&'a str>)
    ensures
        opt_str_view(r) == or_else(opt_view(*a), opt_view(*b)),
{
    match a {
        Some(t) => Some(t.as_str()),
        None => match b {
            Some(t) => Some(t.as_str()),
            None => None,
        },
    }
}

pub fn convert_session_defaults(
    legacy: &LegacyServerConfig,
    models: &TextMap<ModelConfig>,
    main: &str,
    compression: CompressionTokens,
) -> (r: Result<SessionDefaults, String>)
    requires
        legacy.models.wf(),
        models.wf(),
    ensures
        match (r, tool_models(*legacy, model_views(models@), main@)) {
            (Ok(d), Ok(v)) => defaults_view(d) == v && d.compression_threshold_tokens
                == compression.threshold && d.compression_retain_recent_tokens
                == compression.retain_recent && d.search_image_tool_model is None
                && d.search_video_tool_model is None && d.search_news_tool_model is None,
            (Err(e), Err(f)) => e@ == f,
            _ => false,
        },
{
    let own: &LegacyModelConfig = match legacy.models.get(main) {
        Some(m) => m,
        None => {
            return Err(cat3("missing legacy main model '", main, "'"));
        },
    };
    let none: Option<String> = None;
    let tooling = &legacy.tooling;
    let image: Option<ToolModelTarget> = match resolve_helper_model(
        models,
        main,
        first_set(&tooling.image, &own.image_tool_model),
        false,
    ) {
        Ok(m) => m,
        Err(e) => {
            return Err(e);
        },
    };
    let pdf: Option<ToolModelTarget> = match resolve_helper_model(
        models,
        main,
        first_set(&tooling.pdf, &none),
        false,
    ) {
        Ok(m) => m,
        Err(e) => {
            return Err(e);
        },
    };
    let audio: Option<ToolModelTarget> = match resolve_helper_model(
        models,
        main,
        first_set(&tooling.audio_input, &none),
        false,
    ) {
        Ok(m) => m,
        Err(e) => {
            return Err(e);
        },
    };
    let image_generation: Option<ToolModelTarget> = match resolve_helper_model(
        models,
        main,
        first_set(&tooling.image_gen, &none),
        false,
    ) {
        Ok(m) => m,
        Err(e) => {
            return Err(e);
        },
    };
    let search: Option<ToolModelTarget> = match resolve_helper_model(
        models,
        main,
        first_set(&tooling.web_search, &own.web_search_model),
        true,
    ) {
        Ok(m) => m,
        Err(e) => {
            return Err(e);
        },
    };
    Ok(
        SessionDefaults {
            compression_threshold_tokens: compression.threshold,
            compression_retain_recent_tokens: compression.retain_recent,
            image_tool_model: image,
            pdf_tool_model: pdf,
            audio_tool_model: audio,
            image_generation_tool_model: image_generation,
            search_tool_model: search,
            search_image_tool_model: None,
            search_video_tool_model: None,
            search_news_tool_model: None,
        },
    )
}

// ---------------------------------------------------------------------------
// Channels
// ---------------------------------------------------------------------------
pub open spec fn refused_channel(id: Seq<char>, kind: Seq<char>) -> Seq<char> {
    "partyclaw channel '"@ + id + kind
}

/// A channel in the current form; only Telegram is taken over.
pub open spec fn converted_channel(c: LegacyChannelConfig) -> Result<ChannelConfig, Seq<char>> {
    match c {
        LegacyChannelConfig::Telegram(t) => Ok(ChannelConfig::Telegram(t)),
        LegacyChannelConfig::CommandLine { id } => Err(
            refused_channel(id@, "' is command_line, which stellaclaw does not support yet"@),
        ),
        LegacyChannelConfig::Dingtalk { id } => Err(
            refused_channel(id@, "' is dingtalk, which stellaclaw does not support yet"@),
        ),
        LegacyChannelConfig::DingtalkRobot { id } => Err(
            refused_channel(id@, "' is dingtalk_robot, which stellaclaw does not support yet"@),
        ),
        LegacyChannelConfig::Web { id } => Err(
            refused_channel(id@, "' is web, which stellaclaw does not support yet"@),
        ),
    }
}

pub fn convert_channel(channel: LegacyChannelConfig) -> (r: Result<ChannelConfig, String>)
    ensures
        match (r, converted_channel(channel)) {
            (Ok(a), Ok(b)) => a == b,
            (Err(e), Err(f)) => e@ == f,
            _ => false,
        },
{
    match channel {
        LegacyChannelConfig::Telegram(t) => Ok(ChannelConfig::Telegram(t)),
        LegacyChannelConfig::CommandLine { id } => Err(
            cat3(
                "partyclaw channel '",
                id.as_str(),
                "' is command_line, which stellaclaw does not support yet",
            ),
        ),
        LegacyChannelConfig::Dingtalk { id } => Err(
            cat3(
                "partyclaw channel '",
                id.as_str(),
                "' is dingtalk, which stellaclaw does not support yet",
            ),
        ),
        LegacyChannelConfig::DingtalkRobot { id } => Err(
            cat3(
                "partyclaw channel '",
                id.as_str(),
                "' is dingtalk_robot, which stellaclaw does not support yet",
            ),
        ),
        LegacyChannelConfig::Web { id } => Err(
            cat3(
                "partyclaw channel '",
                id.as_str(),
                "' is web, which stellaclaw does not support yet",
            ),
        ),
    }
}

/// The channels from index `i` on, converted; the first failure counts.
pub open spec fn converted_channels(s: Seq<LegacyChannelConfig>) -> Result<
    Seq<ChannelConfig>,
    Seq<char>,
>
    decreases s.len(),
{
    if s.len() == 0 {
        Ok(Seq::empty())
    } else {
        match converted_channel(s[0]) {
            Err(e) => Err(e),
            Ok(c) => match converted_channels(s.drop_first()) {
                Err(e) => Err(e),
                Ok(rest) => Ok(seq![c] + rest),
            },
        }
    }
}

fn convert_channels(channels: Vec<LegacyChannelConfig>) -> (r: Result<Vec<ChannelConfig>, String>)
    ensures
        match (r, converted_channels(channels@)) {
            (Ok(a), Ok(b)) => a@ == b,
            (Err(e), Err(f)) => e@ == f,
            _ => false,
        },
{
    let mut rest: Vec<LegacyChannelConfig> = channels;
    let mut done: Vec<ChannelConfig> = Vec::new();
    let ghost whole = converted_channels(channels@);
    proof {
        if let Ok(t) = whole {
            assert(done@ + t =~= t);
        }
    }
    while rest.len() > 0
        invariant
            whole == converted_channels(channels@),
            match converted_channels(rest@) {
                Ok(t) => whole == Ok::<Seq<ChannelConfig>, Seq<char>>(done@ + t),
                Err(e) => whole == Err::<Seq<ChannelConfig>, Seq<char>>(e),
            },
        decreases rest@.len(),
    {
        let ghost before = rest@;
        let ghost so_far = done@;
        let channel: LegacyChannelConfig = rest.remove(0);
        assert(rest@ =~= before.drop_first());
        match convert_channel(channel) {
            Ok(c) => {
                done.push(c);
                proof {
                    if let Ok(t) = converted_channels(rest@) {
                        assert(so_far + (seq![c] + t) =~= done@ + t);
                    }
                }
            },
            Err(e) => {
                return Err(e);
            },
        }
    }
    assert(done@ + Seq::<ChannelConfig>::empty() =~= done@);
    Ok(done)
}

// ---------------------------------------------------------------------------
// The whole configuration
// ---------------------------------------------------------------------------
pub open spec fn sandbox_mode(m: LegacySandboxMode) -> SandboxMode {
    match m {
        LegacySandboxMode::Bubblewrap => SandboxMode::Bubblewrap,
        _ => SandboxMode::Subprocess,
    }
}

/// Whether a configuration is not refused before its models are looked at.
pub open spec fn starts_conversion(legacy: LegacyServerConfig) -> bool {
    legacy.models.entries@.len() > 0 && legacy.channels@.len() > 0
        && !legacy.sandbox.map_docker_socket
}

/// Says what the conversion of a configuration needs next, given the outcomes for the files
/// of its models so far.
pub fn conversion_step(legacy: &LegacyServerConfig, files: &TextMap<FileOutcome>) -> (r:
    ConversionStep)
    requires
        files.wf(),
    ensures
        match r {
            ConversionStep::Ready => starts_conversion(*legacy) ==> convertible(
                legacy.models,
                *files,
            ),
            ConversionStep::Files { name, template, tokenizer } => starts_conversion(*legacy)
                && exists|i: int| #[trigger]
                is_held_up(legacy.models.entries@, *files, i) && legacy.models.entries@[i].0@
                    == name@ && files_asked_for(name@, legacy.models.entries@[i].1) == Some(
                    (template@, tokenizer@),
                ) && !files@.contains_key(name@),
            ConversionStep::TimeToLive { name } => starts_conversion(*legacy) && exists|i: int|
                #[trigger]
                is_held_up(legacy.models.entries@, *files, i) && legacy.models.entries@[i].0@
                    == name@ && converted_model(
                    name@,
                    legacy.models.entries@[i].1,
                    outcome_of(*files, name@),
                ) is Ok && !unit_readable(opt_view(legacy.models.entries@[i].1.cache_ttl)),
        },
{
    if legacy.models.len() == 0 || legacy.channels.len() == 0 || legacy.sandbox.map_docker_socket {
        ConversionStep::Ready
    } else {
        models_step(&legacy.models, files)
    }
}

/// Why a configuration cannot be converted; the first reason counts.
pub open spec fn conversion_error(legacy: LegacyServerConfig, files: TextMap<FileOutcome>) -> Option<
    Seq<char>,
> {
    if legacy.models.entries@.len() == 0 {
        Some("partyclaw config must define at least one model"@)
    } else if legacy.channels@.len() == 0 {
        Some("partyclaw config must define at least one channel"@)
    } else if legacy.sandbox.map_docker_socket {
        Some("partyclaw sandbox.map_docker_socket is not supported by stellaclaw"@)
    } else {
        match named_models(legacy.models, legacy.web_search_catalog, files) {
            Err(e) => Some(e),
            Ok(models) => match main_model_name(legacy) {
                Err(e) => Some(e),
                Ok(main) => if !models.contains_key(main) {
                    Some("main model '"@ + main + "' is missing after conversion"@)
                } else {
                    match tool_models(legacy, models, main) {
                        Err(e) => Some(e),
                        Ok(_) => match converted_channels(legacy.channels@) {
                            Err(e) => Some(e),
                            Ok(_) => None,
                        },
                    }
                },
            },
        }
    }
}

/// What a converted configuration holds.
pub open spec fn is_conversion(
    legacy: LegacyServerConfig,
    files: TextMap<FileOutcome>,
    compression: CompressionTokens,
    c: StellaclawConfig,
) -> bool {
    match (
        named_models(legacy.models, legacy.web_search_catalog, files),
        main_model_name(legacy),
        converted_channels(legacy.channels@),
    ) {
        (Ok(models), Ok(main), Ok(channels)) => {
            &&& c.wf()
            &&& c.version@ == "0.11"@
            &&& c.agent_server == legacy.agent_server
            &&& model_views(c.models@) == models
            &&& c.default_profile matches Some(p) && p.main_model@ == SelectionView::Inline(
                models[main],
            )
            &&& tool_models(legacy, models, main) == Ok::<DefaultsView, Seq<char>>(
                defaults_view(c.session_defaults),
            )
            &&& c.session_defaults.search_image_tool_model is None
            &&& c.session_defaults.search_video_tool_model is None
            &&& c.session_defaults.search_news_tool_model is None
            &&& c.session_defaults.compression_threshold_tokens == compression.threshold
            &&& c.session_defaults.compression_retain_recent_tokens == compression.retain_recent
            &&& c.available_agent_models@.len() == 0
            &&& c.skill_sync@.len() == 0
            &&& c.sandbox.mode == sandbox_mode(legacy.sandbox.mode)
            &&& c.sandbox.bubblewrap_binary == legacy.sandbox.bubblewrap_binary
            &&& c.sandbox.software_dir is None
            &&& c.sandbox.software_mount_path@ == "/opt"@
            &&& c.channels@ == channels
        },
        _ => false,
    }
}

pub fn convert_legacy_config(
    legacy: LegacyServerConfig,
    files: &TextMap<FileOutcome>,
    compression: CompressionTokens,
) -> (r: Result<StellaclawConfig, String>)
    requires
        legacy.models.wf(),
        files.wf(),
        starts_conversion(legacy) ==> convertible(legacy.models, *files),
    ensures
        match r {
            Ok(c) => conversion_error(legacy, *files) is None && is_conversion(
                legacy,
                *files,
                compression,
                c,
            ),
            Err(e) => conversion_error(legacy, *files) == Some(e@),
        },
{
    if legacy.models.len() == 0 {
        return Err("partyclaw config must define at least one model".to_owned());
    }
    if legacy.channels.len() == 0 {
        return Err("partyclaw config must define at least one channel".to_owned());
    }
    if legacy.sandbox.map_docker_socket {
        return Err(
            "partyclaw sandbox.map_docker_socket is not supported by stellaclaw".to_owned(),
        );
    }
    let models: TextMap<ModelConfig> = match convert_named_models(
        &legacy.models,
        &legacy.web_search_catalog,
        files,
    ) {
        Ok(m) => m,
        Err(e) => {
            return Err(e);
        },
    };
    let main: String = match select_main_model_name(&legacy) {
        Ok(name) => name,
        Err(e) => {
            return Err(e);
        },
    };
    let main_model: ModelConfig = match models.get(main.as_str()) {
        Some(m) => m.copy(),
        None => {
            return Err(cat3("main model '", main.as_str(), "' is missing after conversion"));
        },
    };
    let session_defaults: SessionDefaults = match convert_session_defaults(
        &legacy,
        &models,
        main.as_str(),
        compression,
    ) {
        Ok(d) => d,
        Err(e) => {
            return Err(e);
        },
    };
    let channels: Vec<ChannelConfig> = match convert_channels(legacy.channels) {
        Ok(c) => c,
        Err(e) => {
            return Err(e);
        },
    };
    Ok(
        StellaclawConfig {
            version: "0.11".to_owned(),
            agent_server: legacy.agent_server,
            default_profile: Some(
                SessionProfile { main_model: ModelSelection::Inline(main_model) },
            ),
            models,
            available_agent_models: Vec::new(),
            session_defaults,
            skill_sync: Vec::new(),
            sandbox: SandboxConfig {
                mode: match legacy.sandbox.mode {
                    LegacySandboxMode::Bubblewrap => SandboxMode::Bubblewrap,
                    _ => SandboxMode::Subprocess,
                },
                bubblewrap_binary: legacy.sandbox.bubblewrap_binary,
                software_dir: None,
                software_mount_path: "/opt".to_owned(),
            },
            channels,
        },
    )
}

/// A converted configuration has a main model to start with: the one that was selected.
pub proof fn conversion_keeps_the_main_model(
    legacy: LegacyServerConfig,
    files: TextMap<FileOutcome>,
    compression: CompressionTokens,
    c: StellaclawConfig,
)
    requires
        conversion_error(legacy, files) is None,
        is_conversion(legacy, files, compression, c),
    ensures
        c.initial_model() matches Some(m) && main_model_name(legacy) matches Ok(main)
            && lookup(c.models, main) == Some(m),
{
    if let Ok(main) = main_model_name(legacy) {
        if let Ok(models) = named_models(legacy.models, legacy.web_search_catalog, files) {
            assert(models.contains_key(main));
            assert(model_views(c.models@).contains_key(main));
        }
    }
}

} // verus!

//! Configurations of partyclaw, converted to the current form.

use vstd::prelude::*;
use crate::config::{AgentServerConfig, TelegramChannelConfig};
use crate::json::Json;
use crate::json_ops::opt_json;
use crate::model::{
    copy_media, holds_capability, opt_multimodal, MediaInputConfig, MediaInputTransport, MediaView,
    ModelCapability, ModelConfig, ModelView, MultimodalInputConfig, MultimodalView, ProviderType,
    RetryMode, TokenEstimatorType,
};
use crate::number::{parse_decimal, parse_seq};
use crate::text::{cat2, cat3, chars_of, opt_view, trim, trimmed, views};
use crate::text_map::TextMap;
use super::estimator::{
    convert_token_estimator, estimator_plan, EstimatorPlan, LegacyTokenEstimation, PlanView,
};

verus! {

#[derive(Clone, Copy, Debug, PartialEq, Eq, Structural)]
pub enum LegacyModelType {
    Openrouter,
    OpenrouterResp,
    CodexSubscription,
    ClaudeCode,
    BraveSearch,
}

#[derive(Clone, Copy, Debug, PartialEq, Eq, Structural)]
pub enum LegacyModelCapability {
    Chat,
    WebSearch,
    ImageIn,
    ImageOut,
    Pdf,
    AudioIn,
}

/// How often a request was repeated; the interval is in whole seconds, at least one.
#[derive(Clone, Copy, Debug, PartialEq, Eq, Structural)]
pub enum LegacyRetryMode {
    No,
    Random { max_retries: u32, max_interval_secs: u64 },
}

/// A model; the timeout is in whole seconds, at least one.
#[derive(Debug)]
pub struct LegacyModelConfig {
    pub model_type: LegacyModelType,
    pub api_endpoint: String,
    pub model: String,
    pub supports_vision_input: bool,
    pub image_tool_model: Option<String>,
    pub web_search_model: Option<String>,
    pub api_key_env: String,
    pub chat_completions_path: String,
    pub timeout_secs: u64,
    pub retry_mode: LegacyRetryMode,
    pub context_window_tokens: u64,
    pub cache_ttl: Option<String>,
    pub headers: Vec<(String, Json)>,
    pub reasoning: Option<Json>,
    pub capabilities: Vec<LegacyModelCapability>,
    pub native_web_search: Option<Json>,
    pub token_estimation: Option<LegacyTokenEstimation>,
    pub multimodal_input: Option<MultimodalInputConfig>,
}

/// A model for searching the web; the timeout is in whole seconds, at least one.
#[derive(Debug)]
pub struct LegacyExternalWebSearchConfig {
    pub base_url: String,
    pub model: String,
    pub api_key_env: String,
    pub chat_completions_path: String,
    pub timeout_secs: u64,
    pub supports_vision_input: bool,
}

#[derive(Debug)]
pub struct LegacyToolingConfig {
    pub web_search: Option<String>,
    pub image: Option<String>,
    pub image_gen: Option<String>,
    pub pdf: Option<String>,
    pub audio_input: Option<String>,
}

#[derive(Clone, Copy, Debug, PartialEq, Eq, Structural)]
pub enum LegacySandboxMode {
    Subprocess,
    Bubblewrap,
    Disabled,
}

#[derive(Debug)]
pub struct LegacySandboxConfig {
    pub mode: LegacySandboxMode,
    pub bubblewrap_binary: String,
    pub map_docker_socket: bool,
}

#[derive(Debug)]
pub enum LegacyChannelConfig {
    Telegram(TelegramChannelConfig),
    CommandLine { id: String },
    Dingtalk { id: String },
    DingtalkRobot { id: String },
    Web { id: String },
}

#[derive(Debug)]
pub struct LegacyServerConfig {
    pub agent_server: AgentServerConfig,
    pub models: TextMap<LegacyModelConfig>,
    pub agent_frame_models: Vec<String>,
    pub available_models: Vec<String>,
    pub web_search_catalog: TextMap<LegacyExternalWebSearchConfig>,
    pub tooling: LegacyToolingConfig,
    pub chat_model_keys: Vec<String>,
    pub enable_context_compression: bool,
    pub token_limit_override: Option<u64>,
    pub sandbox: LegacySandboxConfig,
    pub channels: Vec<LegacyChannelConfig>,
}

/// What became of the estimator files of a model: the address of its settings, or why
/// they could not be used.
#[derive(Debug)]
pub enum FileOutcome {
    Ready(String),
    Failed(String),
}

// ---------------------------------------------------------------------------
// Small conversions
// ---------------------------------------------------------------------------
pub open spec fn without_trailing_slashes(s: Seq<char>) -> Seq<char>
    decreases s.len(),
{
    if s.len() > 0 && s.last() == '/' {
        without_trailing_slashes(s.drop_last())
    } else {
        s
    }
}

pub fn trim_trailing_slashes(text: &str) -> (r: &str)
    ensures
        r@ == without_trailing_slashes(text@),
{
    let chars: Vec<char> = chars_of(text);
    let mut n: usize = chars.len();
    assert(text@.take(n as int) =~= text@);
    while n > 0 && chars[n - 1] == '/'
        invariant
            n <= chars@.len(),
            chars@ == text@,
            without_trailing_slashes(text@.take(n as int)) == without_trailing_slashes(text@),
        decreases n,
    {
        assert(text@.take(n as int).drop_last() =~= text@.take(n - 1));
        n -= 1;
    }
    assert(text@.subrange(0, n as int) =~= text@.take(n as int));
    text.substring_char(0, n)
}

/// The address of an endpoint: the path below the base, with one slash between them.
pub open spec fn endpoint(base: Seq<char>, path: Seq<char>) -> Seq<char> {
    let b = without_trailing_slashes(base);
    let p = if path.len() == 0 {
        "/chat/completions"@
    } else {
        path
    };
    if p.len() > 0 && p[0] == '/' {
        b + p
    } else {
        b + "/"@ + p
    }
}

pub fn join_endpoint(base: &str, path: &str) -> (r: String)
    ensures
        r@ == endpoint(base@, path@),
{
    let b: &str = trim_trailing_slashes(base);
    let p: &str = if path.is_empty() {
        "/chat/completions"
    } else {
        path
    };
    if !p.is_empty() && p.get_char(0) == '/' {
        cat2(b, p)
    } else {
        cat3(b, "/", p)
    }
}

pub open spec fn saturated(n: nat) -> u64 {
    if n <= u64::MAX {
        n as u64
    } else {
        u64::MAX
    }
}

/// Whether a time to live ends in a one-byte character, so that its unit can be cut off.
pub open spec fn unit_readable(raw: Option<Seq<char>>) -> bool {
    raw matches Some(t) ==> trimmed(t).len() > 0 ==> (trimmed(t).last() as u32) < 0x80
}

/// The seconds of a time to live such as `30s`, `5m`, `2h` or `1d`; without a unit, the
/// number itself, if it has at least two digits.
pub open spec fn cache_seconds(raw: Option<Seq<char>>) -> Option<u64> {
    match raw {
        None => None,
        Some(t) => {
            let s = trimmed(t);
            if s.len() == 0 {
                None
            } else {
                match parse_seq(s.drop_last(), u64::MAX as nat) {
                    None => None,
                    Some(n) => if s.last() == 's' {
                        Some(n as u64)
                    } else if s.last() == 'm' {
                        Some(saturated(n * 60))
                    } else if s.last() == 'h' {
                        Some(saturated(n * 3600))
                    } else if s.last() == 'd' {
                        Some(saturated(n * 86400))
                    } else {
                        match parse_seq(s, u64::MAX as nat) {
                            Some(m) => Some(m as u64),
                            None => None,
                        }
                    },
                }
            }
        },
    }
}

fn times(n: u64, factor: u64) -> (r: u64)
    ensures
        r == saturated((n * factor) as nat),
{
    match n.checked_mul(factor) {
        Some(product) => product,
        None => u64::MAX,
    }
}

pub fn parse_cache_timeout_secs(raw: &Option<String>) -> (r: Option<u64>)
    requires
        unit_readable(opt_view(*raw)),
    ensures
        r == cache_seconds(opt_view(*raw)),
{
    let text: &str = match raw {
        Some(t) => trim(t.as_str()),
        None => {
            return None;
        },
    };
    if text.is_empty() {
        return None;
    }
    let n: usize = text.unicode_len();
    assert(text@.subrange(0, n - 1) =~= text@.drop_last());
    let amount: u64 = match parse_decimal(text.substring_char(0, n - 1), u64::MAX) {
        Some(a) => a,
        None => {
            return None;
        },
    };
    let unit: char = text.get_char(n - 1);
    if unit == 's' {
        Some(amount)
    } else if unit == 'm' {
        Some(times(amount, 60))
    } else if unit == 'h' {
        Some(times(amount, 3600))
    } else if unit == 'd' {
        Some(times(amount, 86400))
    } else {
        parse_decimal(text, u64::MAX)
    }
}

pub open spec fn capability(c: LegacyModelCapability) -> ModelCapability {
    match c {
        LegacyModelCapability::Chat => ModelCapability::Chat,
        LegacyModelCapability::WebSearch => ModelCapability::WebSearch,
        LegacyModelCapability::ImageIn => ModelCapability::ImageIn,
        LegacyModelCapability::ImageOut => ModelCapability::ImageOut,
        LegacyModelCapability::Pdf => ModelCapability::PdfIn,
        LegacyModelCapability::AudioIn => ModelCapability::AudioIn,
    }
}

/// Whether a model is to have a capability: it is listed, or, for images, the model was
/// marked as seeing.
pub open spec fn has_capability(m: LegacyModelConfig, c: ModelCapability) -> bool {
    ||| exists|i: int|
        0 <= i < m.capabilities@.len() && capability(#[trigger] m.capabilities@[i]) == c
    ||| c == ModelCapability::ImageIn && m.supports_vision_input
}

pub open spec fn one_if(b: bool, c: ModelCapability) -> Seq<ModelCapability> {
    if b {
        seq![c]
    } else {
        Seq::empty()
    }
}

/// The capabilities of a model, each once, in a fixed order.
pub open spec fn ordered_capabilities(m: LegacyModelConfig) -> Seq<ModelCapability> {
    one_if(has_capability(m, ModelCapability::Chat), ModelCapability::Chat) + one_if(
        has_capability(m, ModelCapability::ImageIn),
        ModelCapability::ImageIn,
    ) + one_if(has_capability(m, ModelCapability::ImageOut), ModelCapability::ImageOut) + one_if(
        has_capability(m, ModelCapability::PdfIn),
        ModelCapability::PdfIn,
    ) + one_if(has_capability(m, ModelCapability::AudioIn), ModelCapability::AudioIn) + one_if(
        has_capability(m, ModelCapability::WebSearch),
        ModelCapability::WebSearch,
    )
}

fn convert_capability(c: LegacyModelCapability) -> (r: ModelCapability)
    ensures
        r == capability(c),
{
    match c {
        LegacyModelCapability::Chat => ModelCapability::Chat,
        LegacyModelCapability::WebSearch => ModelCapability::WebSearch,
        LegacyModelCapability::ImageIn => ModelCapability::ImageIn,
        LegacyModelCapability::ImageOut => ModelCapability::ImageOut,
        LegacyModelCapability::Pdf => ModelCapability::PdfIn,
        LegacyModelCapability::AudioIn => ModelCapability::AudioIn,
    }
}

fn model_has(legacy: &LegacyModelConfig, c: ModelCapability) -> (b: bool)
    ensures
        b == has_capability(*legacy, c),
{
    if c == ModelCapability::ImageIn && legacy.supports_vision_input {
        return true;
    }
    let mut i: usize = 0;
    while i < legacy.capabilities.len()
        invariant
            i <= legacy.capabilities@.len(),
            forall|j: int| 0 <= j < i ==> capability(#[trigger] legacy.capabilities@[j]) != c,
        decreases legacy.capabilities@.len() - i,
    {
        if convert_capability(legacy.capabilities[i]) == c {
            return true;
        }
        i += 1;
    }
    false
}

fn push_if(list: &mut Vec<ModelCapability>, legacy: &LegacyModelConfig, c: ModelCapability)
    ensures
        final(list)@ == old(list)@ + one_if(has_capability(*legacy, c), c),
{
    if model_has(legacy, c) {
        list.push(c);
        assert(list@ =~= old(list)@ + seq![c]);
    } else {
        assert(old(list)@ + Seq::<ModelCapability>::empty() =~= old(list)@);
    }
}

pub fn convert_capabilities(legacy: &LegacyModelConfig) -> (r: Vec<ModelCapability>)
    ensures
        r@ == ordered_capabilities(*legacy),
{
    let mut r: Vec<ModelCapability> = Vec::new();
    push_if(&mut r, legacy, ModelCapability::Chat);
    assert(r@ =~= one_if(has_capability(*legacy, ModelCapability::Chat), ModelCapability::Chat));
    push_if(&mut r, legacy, ModelCapability::ImageIn);
    push_if(&mut r, legacy, ModelCapability::ImageOut);
    push_if(&mut r, legacy, ModelCapability::PdfIn);
    push_if(&mut r, legacy, ModelCapability::AudioIn);
    push_if(&mut r, legacy, ModelCapability::WebSearch);
    r
}

// ---------------------------------------------------------------------------
// Media input
// ---------------------------------------------------------------------------
pub open spec fn default_image_input() -> MediaView {
    MediaView {
        transport: MediaInputTransport::InlineBase64,
        supported_media_types: seq!["image/png"@, "image/jpeg"@, "image/webp"@, "image/gif"@],
        max_width: Some(4096),
        max_height: Some(4096),
    }
}

pub open spec fn default_pdf_input() -> MediaView {
    MediaView {
        transport: MediaInputTransport::InlineBase64,
        supported_media_types: seq!["application/pdf"@],
        max_width: None,
        max_height: None,
    }
}

pub open spec fn default_audio_input() -> MediaView {
    MediaView {
        transport: MediaInputTransport::InlineBase64,
        supported_media_types: seq![
            "audio/mpeg"@,
            "audio/mp3"@,
            "audio/wav"@,
            "audio/ogg"@,
            "audio/webm"@,
            "audio/flac"@,
            "audio/mp4"@,
        ],
        max_width: None,
        max_height: None,
    }
}

/// The media that a model with these capabilities takes in.
pub open spec fn default_media(capabilities: Seq<ModelCapability>) -> Option<MultimodalView> {
    let image = capabilities.contains(ModelCapability::ImageIn);
    let pdf = capabilities.contains(ModelCapability::PdfIn);
    let audio = capabilities.contains(ModelCapability::AudioIn);
    if !image && !pdf && !audio {
        None
    } else {
        Some(
            MultimodalView {
                image: if image {
                    Some(default_image_input())
                } else {
                    None
                },
                pdf: if pdf {
                    Some(default_pdf_input())
                } else {
                    None
                },
                audio: if audio {
                    Some(default_audio_input())
                } else {
                    None
                },
            },
        )
    }
}

pub fn build_multimodal_input(capabilities: &Vec<ModelCapability>) -> (r: Option<
    MultimodalInputConfig,
>)
    ensures
        opt_multimodal(r) == default_media(capabilities@),
{
    let image: Option<MediaInputConfig> = if holds_capability(
        capabilities,
        ModelCapability::ImageIn,
    ) {
        let mut types: Vec<String> = Vec::new();
        types.push("image/png".to_owned());
        types.push("image/jpeg".to_owned());
        types.push("image/webp".to_owned());
        types.push("image/gif".to_owned());
        assert(views(types@) =~= default_image_input().supported_media_types);
        Some(
            MediaInputConfig {
                transport: MediaInputTransport::InlineBase64,
                supported_media_types: types,
                max_width: Some(4096),
                max_height: Some(4096),
            },
        )
    } else {
        None
    };
    let pdf: Option<MediaInputConfig> = if holds_capability(capabilities, ModelCapability::PdfIn) {
        let mut types: Vec<String> = Vec::new();
        types.push("application/pdf".to_owned());
        assert(views(types@) =~= default_pdf_input().supported_media_types);
        Some(
            MediaInputConfig {
                transport: MediaInputTransport::InlineBase64,
                supported_media_types: types,
                max_width: None,
                max_height: None,
            },
        )
    } else {
        None
    };
    let audio: Option<MediaInputConfig> = if holds_capability(
        capabilities,
        ModelCapability::AudioIn,
    ) {
        let mut types: Vec<String> = Vec::new();
        types.push("audio/mpeg".to_owned());
        types.push("audio/mp3".to_owned());
        types.push("audio/wav".to_owned());
        types.push("audio/ogg".to_owned());
        types.push("audio/webm".to_owned());
        types.push("audio/flac".to_owned());
        types.push("audio/mp4".to_owned());
        assert(views(types@) =~= default_audio_input().supported_media_types);
        Some(
            MediaInputConfig {
                transport: MediaInputTransport::InlineBase64,
                supported_media_types: types,
                max_width: None,
                max_height: None,
            },
        )
    } else {
        None
    };
    if image.is_none() && pdf.is_none() && audio.is_none() {
        None
    } else {
        Some(MultimodalInputConfig { image, pdf, audio })
    }
}

// ---------------------------------------------------------------------------
// Models
// ---------------------------------------------------------------------------
pub open spec fn retry(mode: LegacyRetryMode) -> RetryMode {
    match mode {
        LegacyRetryMode::No => RetryMode::Once,
        LegacyRetryMode::Random { max_retries, max_interval_secs } => RetryMode::RandomInterval {
            max_interval_secs,
            max_retries: max_retries as u64,
        },
    }
}

pub fn convert_retry_mode(mode: LegacyRetryMode) -> (r: RetryMode)
    ensures
        r == retry(mode),
{
    match mode {
        LegacyRetryMode::No => RetryMode::Once,
        LegacyRetryMode::Random { max_retries, max_interval_secs } => RetryMode::RandomInterval {
            max_interval_secs,
            max_retries: max_retries as u64,
        },
    }
}

pub open spec fn provider(t: LegacyModelType) -> ProviderType {
    match t {
        LegacyModelType::Openrouter => ProviderType::OpenRouterCompletion,
        LegacyModelType::OpenrouterResp => ProviderType::OpenRouterResponses,
        LegacyModelType::CodexSubscription => ProviderType::CodexSubscription,
        LegacyModelType::ClaudeCode => ProviderType::ClaudeCode,
        LegacyModelType::BraveSearch => ProviderType::BraveSearch,
    }
}

pub open spec fn searches_natively(m: LegacyModelConfig) -> bool {
    opt_json(m.native_web_search) matches Some(v) && v.bool_field("enabled"@) == Some(true)
}

/// The estimator of a model, once its files have been looked at.
pub open spec fn settled(plan: PlanView, files: Option<FileOutcome>) -> Result<
    (TokenEstimatorType, Option<Seq<char>>),
    Seq<char>,
> {
    match plan {
        PlanView::Ready { kind, url } => Ok((kind, url)),
        PlanView::Files { template, tokenizer } => match files {
            Some(FileOutcome::Ready(url)) => Ok((TokenEstimatorType::HuggingFace, Some(url@))),
            Some(FileOutcome::Failed(e)) => Err(e@),
            None => Err(Seq::empty()),
        },
    }
}

/// The estimator of a model that can be converted, or why it cannot be.
pub open spec fn settled_model(
    name: Seq<char>,
    m: LegacyModelConfig,
    files: Option<FileOutcome>,
) -> Result<(TokenEstimatorType, Option<Seq<char>>), Seq<char>> {
    if m.headers@.len() > 0 {
        Err(
            "partyclaw model '"@ + name
                + "' uses custom headers, which stellaclaw does not support yet"@,
        )
    } else if searches_natively(m) {
        Err(
            "partyclaw model '"@ + name
                + "' enables native_web_search, which stellaclaw does not support yet"@,
        )
    } else {
        match estimator_plan(name, m.token_estimation) {
            Err(e) => Err(e),
            Ok(plan) => settled(plan, files),
        }
    }
}

/// A model in the current form, or why it cannot be converted.
pub open spec fn converted_model(
    name: Seq<char>,
    m: LegacyModelConfig,
    files: Option<FileOutcome>,
) -> Result<ModelView, Seq<char>> {
    match settled_model(name, m, files) {
        Err(e) => Err(e),
        Ok((kind, url)) => Ok(
            ModelView {
                provider_type: provider(m.model_type),
                model_name: m.model@,
                url: endpoint(m.api_endpoint@, m.chat_completions_path@),
                api_key_env: m.api_key_env@,
                capabilities: ordered_capabilities(m),
                token_max_context: m.context_window_tokens,
                cache_timeout: match cache_seconds(opt_view(m.cache_ttl)) {
                    Some(n) => n,
                    None => 300,
                },
                conn_timeout: m.timeout_secs,
                retry_mode: retry(m.retry_mode),
                reasoning: opt_json(m.reasoning),
                token_estimator_type: kind,
                multimodal_estimator: None,
                multimodal_input: match opt_multimodal(m.multimodal_input) {
                    Some(v) => Some(v),
                    None => default_media(ordered_capabilities(m)),
                },
                token_estimator_url: url,
            },
        ),
    }
}

/// The files of the estimator of a model that nothing else stands against.
pub open spec fn files_asked_for(name: Seq<char>, m: LegacyModelConfig) -> Option<
    (Seq<char>, Seq<char>),
> {
    if m.headers@.len() > 0 || searches_natively(m) {
        None
    } else {
        match estimator_plan(name, m.token_estimation) {
            Ok(PlanView::Files { template, tokenizer }) => Some((template, tokenizer)),
            _ => None,
        }
    }
}

/// Whether the outcome for the files of a model is known where it is asked for, and its time
/// to live can be cut where it is read.
pub open spec fn model_convertible(
    name: Seq<char>,
    m: LegacyModelConfig,
    files: Option<FileOutcome>,
) -> bool {
    &&& files_asked_for(name, m) is Some ==> files is Some
    &&& converted_model(name, m, files) is Ok ==> unit_readable(opt_view(m.cache_ttl))
}

pub open spec fn opt_outcome(files: Option<&FileOutcome>) -> Option<FileOutcome> {
    match files {
        Some(f) => Some(*f),
        None => None,
    }
}

fn has_native_search(legacy: &LegacyModelConfig) -> (b: bool)
    ensures
        b == searches_natively(*legacy),
{
    match &legacy.native_web_search {
        Some(v) => match v.bool_field("enabled") {
            Some(enabled) => enabled,
            None => false,
        },
        None => false,
    }
}

fn settle_model(name: &str, legacy: &LegacyModelConfig, files: Option<&FileOutcome>) -> (r: Result<
    (TokenEstimatorType, Option<String>),
    String,
>)
    ensures
        match (r, settled_model(name@, *legacy, opt_outcome(files))) {
            (Ok((kind, url)), Ok((k, u))) => kind == k && opt_view(url) == u,
            (Err(e), Err(f)) => e@ == f,
            _ => false,
        },
{
    if legacy.headers.len() > 0 {
        return Err(
            cat3(
                "partyclaw model '",
                name,
                "' uses custom headers, which stellaclaw does not support yet",
            ),
        );
    }
    if has_native_search(legacy) {
        return Err(
            cat3(
                "partyclaw model '",
                name,
                "' enables native_web_search, which stellaclaw does not support yet",
            ),
        );
    }
    match convert_token_estimator(name, &legacy.token_estimation) {
        Ok(EstimatorPlan::Ready { kind, url }) => Ok((kind, url)),
        Ok(EstimatorPlan::Files { .. }) => match files {
            Some(FileOutcome::Ready(u)) => Ok(
                (TokenEstimatorType::HuggingFace, Some(u.clone())),
            ),
            Some(FileOutcome::Failed(e)) => Err(e.clone()),
            None => Err(String::new()),
        },
        Err(e) => Err(e),
    }
}

pub fn convert_model(name: &str, legacy: &LegacyModelConfig, files: Option<&FileOutcome>) -> (r: Result<
    ModelConfig,
    String,
>)
    requires
        model_convertible(name@, *legacy, opt_outcome(files)),
    ensures
        match (r, converted_model(name@, *legacy, opt_outcome(files))) {
            (Ok(m), Ok(v)) => m@ == v,
            (Err(e), Err(f)) => e@ == f,
            _ => false,
        },
{
    let (kind, url): (TokenEstimatorType, Option<String>) = match settle_model(name, legacy, files) {
        Ok(settled) => settled,
        Err(e) => {
            return Err(e);
        },
    };
    let capabilities: Vec<ModelCapability> = convert_capabilities(legacy);
    let multimodal_input: Option<MultimodalInputConfig> = match &legacy.multimodal_input {
        Some(m) => Some(
            MultimodalInputConfig {
                image: copy_media(&m.image),
                pdf: copy_media(&m.pdf),
                audio: copy_media(&m.audio),
            },
        ),
        None => build_multimodal_input(&capabilities),
    };
    Ok(
        ModelConfig {
            provider_type: match legacy.model_type {
                LegacyModelType::Openrouter => ProviderType::OpenRouterCompletion,
                LegacyModelType::OpenrouterResp => ProviderType::OpenRouterResponses,
                LegacyModelType::CodexSubscription => ProviderType::CodexSubscription,
                LegacyModelType::ClaudeCode => ProviderType::ClaudeCode,
                LegacyModelType::BraveSearch => ProviderType::BraveSearch,
            },
            model_name: legacy.model.clone(),
            url: join_endpoint(
                legacy.api_endpoint.as_str(),
                legacy.chat_completions_path.as_str(),
            ),
            api_key_env: legacy.api_key_env.clone(),
            capabilities,
            token_max_context: legacy.context_window_tokens,
            cache_timeout: match parse_cache_timeout_secs(&legacy.cache_ttl) {
                Some(n) => n,
                None => 300,
            },
            conn_timeout: legacy.timeout_secs,
            retry_mode: convert_retry_mode(legacy.retry_mode),
            reasoning: match &legacy.reasoning {
                Some(j) => Some(j.copy()),
                None => None,
            },
            token_estimator_type: kind,
            multimodal_estimator: None,
            multimodal_input,
            token_estimator_url: url,
        },
    )
}

/// A model for searching the web in the current form.
pub open spec fn converted_search_model(m: LegacyExternalWebSearchConfig) -> ModelView {
    ModelView {
        provider_type: ProviderType::OpenRouterResponses,
        model_name: m.model@,
        url: endpoint(m.base_url@, m.chat_completions_path@),
        api_key_env: m.api_key_env@,
        capabilities: seq![ModelCapability::WebSearch],
        token_max_context: 128_000,
        cache_timeout: 300,
        conn_timeout: m.timeout_secs,
        retry_mode: RetryMode::Once,
        reasoning: None,
        token_estimator_type: TokenEstimatorType::Local,
        multimodal_estimator: None,
        multimodal_input: if m.supports_vision_input {
            default_media(seq![ModelCapability::WebSearch, ModelCapability::ImageIn])
        } else {
            default_media(seq![ModelCapability::WebSearch])
        },
        token_estimator_url: None,
    }
}

pub fn convert_external_web_search_model(legacy: &LegacyExternalWebSearchConfig) -> (r: ModelConfig)
    ensures
        r@ == converted_search_model(*legacy),
{
    let mut capabilities: Vec<ModelCapability> = Vec::new();
    capabilities.push(ModelCapability::WebSearch);
    let mut seen: Vec<ModelCapability> = Vec::new();
    seen.push(ModelCapability::WebSearch);
    if legacy.supports_vision_input {
        seen.push(ModelCapability::ImageIn);
        assert(seen@ =~= seq![ModelCapability::WebSearch, ModelCapability::ImageIn]);
    } else {
        assert(seen@ =~= seq![ModelCapability::WebSearch]);
    }
    assert(capabilities@ =~= seq![ModelCapability::WebSearch]);
    ModelConfig {
        provider_type: ProviderType::OpenRouterResponses,
        model_name: legacy.model.clone(),
        url: join_endpoint(legacy.base_url.as_str(), legacy.chat_completions_path.as_str()),
        api_key_env: legacy.api_key_env.clone(),
        capabilities,
        token_max_context: 128_000,
        cache_timeout: 300,
        conn_timeout: legacy.timeout_secs,
        retry_mode: RetryMode::Once,
        reasoning: None,
        token_estimator_type: TokenEstimatorType::Local,
        multimodal_estimator: None,
        multimodal_input: build_multimodal_input(&seen),
        token_estimator_url: None,
    }
}

/// The models of a map by their values.
pub open spec fn model_views(m: Map<Seq<char>, ModelConfig>) -> Map<Seq<char>, ModelView> {
    m.map_values(|x: ModelConfig| x@)
}

pub open spec fn outcome_of(files: TextMap<FileOutcome>, name: Seq<char>) -> Option<FileOutcome> {
    if files@.contains_key(name) {
        Some(files@[name])
    } else {
        None
    }
}

/// The first `n` models, converted in order; the first failure counts.
pub open spec fn own_models(
    entries: Seq<(String, LegacyModelConfig)>,
    files: TextMap<FileOutcome>,
    n: int,
) -> Result<Map<Seq<char>, ModelView>, Seq<char>>
    decreases n,
{
    if n <= 0 || n > entries.len() {
        Ok(Map::empty())
    } else {
        let e = entries[n - 1];
        match own_models(entries, files, n - 1) {
            Err(why) => Err(why),
            Ok(m) => match converted_model(e.0@, e.1, outcome_of(files, e.0@)) {
                Err(why) => Err(why),
                Ok(v) => Ok(m.insert(e.0@, v)),
            },
        }
    }
}

/// The models with the first `n` of the search catalogue added under new names.
pub open spec fn with_catalog(
    models: Map<Seq<char>, ModelView>,
    entries: Seq<(String, LegacyExternalWebSearchConfig)>,
    n: int,
) -> Map<Seq<char>, ModelView>
    decreases n,
{
    if n <= 0 || n > entries.len() {
        models
    } else {
        let m = with_catalog(models, entries, n - 1);
        let e = entries[n - 1];
        if m.contains_key(e.0@) {
            m
        } else {
            m.insert(e.0@, converted_search_model(e.1))
        }
    }
}

pub open spec fn named_models(
    models: TextMap<LegacyModelConfig>,
    catalog: TextMap<LegacyExternalWebSearchConfig>,
    files: TextMap<FileOutcome>,
) -> Result<Map<Seq<char>, ModelView>, Seq<char>> {
    match own_models(models.entries@, files, models.entries@.len() as int) {
        Err(why) => Err(why),
        Ok(m) => Ok(with_catalog(m, catalog.entries@, catalog.entries@.len() as int)),
    }
}

/// Whether each model that is reached can be converted or refused.
pub open spec fn convertible(models: TextMap<LegacyModelConfig>, files: TextMap<FileOutcome>) -> bool {
    forall|i: int| #[trigger]
        is_reached(models.entries@, files, i) ==> model_convertible(
            models.entries@[i].0@,
            models.entries@[i].1,
            outcome_of(files, models.entries@[i].0@),
        )
}

/// Whether a model is looked at: those before it can all be converted.
pub open spec fn is_reached(
    entries: Seq<(String, LegacyModelConfig)>,
    files: TextMap<FileOutcome>,
    i: int,
) -> bool {
    0 <= i < entries.len() && own_models(entries, files, i) is Ok
}

/// Whether the model at a place is the first at which the conversion cannot go on.
pub open spec fn is_held_up(
    entries: Seq<(String, LegacyModelConfig)>,
    files: TextMap<FileOutcome>,
    i: int,
) -> bool {
    &&& is_reached(entries, files, i)
    &&& !model_convertible(entries[i].0@, entries[i].1, outcome_of(files, entries[i].0@))
    &&& forall|k: int|
        0 <= k < i ==> model_convertible(
            (#[trigger] entries[k]).0@,
            entries[k].1,
            outcome_of(files, entries[k].0@),
        )
}

/// Whether a time to live can be cut.
fn unit_can_be_read(raw: &Option<String>) -> (b: bool)
    ensures
        b == unit_readable(opt_view(*raw)),
{
    match raw {
        Some(t) => {
            let s: &str = trim(t.as_str());
            let n: usize = s.unicode_len();
            n == 0 || (s.get_char(n - 1) as u32) < 0x80
        },
        None => true,
    }
}

proof fn lemma_own_models_error_stays(
    entries: Seq<(String, LegacyModelConfig)>,
    files: TextMap<FileOutcome>,
    i: int,
    n: int,
)
    requires
        0 <= i <= n <= entries.len(),
        own_models(entries, files, i) is Err,
    ensures
        own_models(entries, files, n) == own_models(entries, files, i),
    decreases n - i,
{
    if i < n {
        lemma_own_models_error_stays(entries, files, i, n - 1);
    }
}

/// What a conversion needs next.
#[derive(Debug)]
pub enum ConversionStep {
    /// The outcome for the files of the estimator of a model.
    Files { name: String, template: String, tokenizer: String },
    /// A time to live that can be cut, for a model that would be converted.
    TimeToLive { name: String },
    /// Nothing: every model that is reached can be converted or refused.
    Ready,
}

/// Looks for the first model at which a conversion cannot go on.
pub fn models_step(models: &TextMap<LegacyModelConfig>, files: &TextMap<FileOutcome>) -> (r:
    ConversionStep)
    requires
        files.wf(),
    ensures
        match r {
            ConversionStep::Ready => convertible(*models, *files),
            ConversionStep::Files { name, template, tokenizer } => exists|i: int| #[trigger]
                is_held_up(models.entries@, *files, i) && models.entries@[i].0@ == name@
                    && files_asked_for(name@, models.entries@[i].1) == Some(
                    (template@, tokenizer@),
                ) && !files@.contains_key(name@),
            ConversionStep::TimeToLive { name } => exists|i: int| #[trigger]
                is_held_up(models.entries@, *files, i) && models.entries@[i].0@ == name@
                    && converted_model(
                    name@,
                    models.entries@[i].1,
                    outcome_of(*files, name@),
                ) is Ok && !unit_readable(opt_view(models.entries@[i].1.cache_ttl)),
        },
{
    let ghost entries = models.entries@;
    let mut i: usize = 0;
    while i < models.entries.len()
        invariant
            i <= models.entries@.len(),
            entries == models.entries@,
            files.wf(),
            own_models(entries, *files, i as int) is Ok,
            forall|k: int|
                0 <= k < i ==> model_convertible(
                    (#[trigger] entries[k]).0@,
                    entries[k].1,
                    outcome_of(*files, entries[k].0@),
                ),
        decreases models.entries@.len() - i,
    {
        let name: &str = models.entries[i].0.as_str();
        let legacy: &LegacyModelConfig = &models.entries[i].1;
        assert(is_reached(entries, *files, i as int));
        let outcome: Option<&FileOutcome> = files.get(name);
        assert(opt_outcome(outcome) == outcome_of(*files, name@));
        if outcome.is_none() && legacy.headers.len() == 0 && !has_native_search(legacy) {
            if let Ok(EstimatorPlan::Files { template, tokenizer }) = convert_token_estimator(
                name,
                &legacy.token_estimation,
            ) {
                assert(is_held_up(entries, *files, i as int));
                return ConversionStep::Files { name: name.to_owned(), template, tokenizer };
            }
        }
        match settle_model(name, legacy, outcome) {
            Err(_) => {
                assert forall|k: int| #[trigger] is_reached(entries, *files, k) implies
                    model_convertible(
                    entries[k].0@,
                    entries[k].1,
                    outcome_of(*files, entries[k].0@),
                ) by {
                    assert(own_models(entries, *files, i + 1) is Err);
                    if k > i {
                        lemma_own_models_error_stays(entries, *files, i + 1, k);
                    }
                }
                return ConversionStep::Ready;
            },
            Ok(_) => {},
        }
        if !unit_can_be_read(&legacy.cache_ttl) {
            assert(is_held_up(entries, *files, i as int));
            return ConversionStep::TimeToLive { name: name.to_owned() };
        }
        i += 1;
    }
    ConversionStep::Ready
}

proof fn lemma_insert_views(m: Map<Seq<char>, ModelConfig>, k: Seq<char>, x: ModelConfig)
    ensures
        model_views(m.insert(k, x)) == model_views(m).insert(k, x@),
{
    assert(model_views(m.insert(k, x)) =~= model_views(m).insert(k, x@));
}

pub fn convert_named_models(
    models: &TextMap<LegacyModelConfig>,
    catalog: &TextMap<LegacyExternalWebSearchConfig>,
    files: &TextMap<FileOutcome>,
) -> (r: Result<TextMap<ModelConfig>, String>)
    requires
        files.wf(),
        convertible(*models, *files),
    ensures
        match (r, named_models(*models, *catalog, *files)) {
            (Ok(m), Ok(v)) => m.wf() && model_views(m@) == v,
            (Err(e), Err(f)) => e@ == f,
            _ => false,
        },
{
    let mut r: TextMap<ModelConfig> = TextMap::new();
    let ghost entries = models.entries@;
    let mut i: usize = 0;
    assert(model_views(r@) =~= Map::empty());
    while i < models.entries.len()
        invariant
            i <= models.entries@.len(),
            entries == models.entries@,
            files.wf(),
            convertible(*models, *files),
            r.wf(),
            own_models(entries, *files, i as int) == Ok::<_, Seq<char>>(model_views(r@)),
        decreases models.entries@.len() - i,
    {
        let name: &str = models.entries[i].0.as_str();
        let legacy: &LegacyModelConfig = &models.entries[i].1;
        assert(is_reached(entries, *files, i as int));
        let outcome: Option<&FileOutcome> = files.get(name);
        assert(opt_outcome(outcome) == outcome_of(*files, name@));
        match convert_model(name, legacy, outcome) {
            Ok(m) => {
                proof {
                    lemma_insert_views(r@, name@, m);
                }
                r.insert(name, m);
            },
            Err(e) => {
                proof {
                    lemma_own_models_error_stays(
                        entries,
                        *files,
                        i + 1,
                        entries.len() as int,
                    );
                }
                return Err(e);
            },
        }
        i += 1;
    }
    let ghost own = model_views(r@);
    let ghost extra = catalog.entries@;
    let mut j: usize = 0;
    while j < catalog.entries.len()
        invariant
            j <= catalog.entries@.len(),
            extra == catalog.entries@,
            r.wf(),
            model_views(r@) == with_catalog(own, extra, j as int),
        decreases catalog.entries@.len() - j,
    {
        let name: &str = catalog.entries[j].0.as_str();
        if !r.contains_key(name) {
            let m: ModelConfig = convert_external_web_search_model(&catalog.entries[j].1);
            proof {
                lemma_insert_views(r@, name@, m);
            }
            r.insert(name, m);
        }
        j += 1;
    }
    Ok(r)
}

} // verus!

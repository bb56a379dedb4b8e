//! Language models: what a configuration says of one, and lists of them by name.

use vstd::prelude::*;
use crate::json::{group_json, Json, JsonView};
use crate::text::{opt_copy, opt_text_eq, opt_view, text_eq, views, views_copy};
use crate::json_ops::opt_json;

verus! {

broadcast use group_json;

#[derive(Clone, Copy, Debug, PartialEq, Eq, Structural)]
pub enum ProviderType {
    OpenRouterCompletion,
    OpenRouterResponses,
    CodexSubscription,
    ClaudeCode,
    BraveSearch,
}

#[derive(Clone, Copy, Debug, PartialEq, Eq, Structural)]
pub enum ModelCapability {
    Chat,
    WebSearch,
    ImageIn,
    ImageOut,
    PdfIn,
    AudioIn,
}

#[derive(Clone, Copy, Debug, PartialEq, Eq, Structural)]
pub enum TokenEstimatorType {
    Local,
    HuggingFace,
}

#[derive(Clone, Copy, Debug, PartialEq, Eq, Structural)]
pub enum RetryMode {
    Once,
    RandomInterval { max_interval_secs: u64, max_retries: u64 },
}

#[derive(Clone, Copy, Debug, PartialEq, Eq, Structural)]
pub enum MediaInputTransport {
    InlineBase64,
    FileReference,
}

#[derive(Debug)]
pub struct MediaInputConfig {
    pub transport: MediaInputTransport,
    pub supported_media_types: Vec<String>,
    pub max_width: Option<u32>,
    pub max_height: Option<u32>,
}

#[derive(Debug)]
pub struct MultimodalInputConfig {
    pub image: Option<MediaInputConfig>,
    pub pdf: Option<MediaInputConfig>,
    pub audio: Option<MediaInputConfig>,
}

/// How a model is reached and what it can do.
#[derive(Debug)]
pub struct ModelConfig {
    pub provider_type: ProviderType,
    pub model_name: String,
    pub url: String,
    pub api_key_env: String,
    pub capabilities: Vec<ModelCapability>,
    pub token_max_context: u64,
    pub cache_timeout: u64,
    pub conn_timeout: u64,
    pub retry_mode: RetryMode,
    pub reasoning: Option<Json>,
    pub token_estimator_type: TokenEstimatorType,
    pub multimodal_estimator: Option<Json>,
    pub multimodal_input: Option<MultimodalInputConfig>,
    pub token_estimator_url: Option<String>,
}

pub struct MediaView {
    pub transport: MediaInputTransport,
    pub supported_media_types: Seq<Seq<char>>,
    pub max_width: Option<u32>,
    pub max_height: Option<u32>,
}

pub struct MultimodalView {
    pub image: Option<MediaView>,
    pub pdf: Option<MediaView>,
    pub audio: Option<MediaView>,
}

pub struct ModelView {
    pub provider_type: ProviderType,
    pub model_name: Seq<char>,
    pub url: Seq<char>,
    pub api_key_env: Seq<char>,
    pub capabilities: Seq<ModelCapability>,
    pub token_max_context: u64,
    pub cache_timeout: u64,
    pub conn_timeout: u64,
    pub retry_mode: RetryMode,
    pub reasoning: Option<JsonView>,
    pub token_estimator_type: TokenEstimatorType,
    pub multimodal_estimator: Option<JsonView>,
    pub multimodal_input: Option<MultimodalView>,
    pub token_estimator_url: Option<Seq<char>>,
}

impl MediaInputConfig {
    pub open spec fn view(self) -> MediaView {
        MediaView {
            transport: self.transport,
            supported_media_types: views(self.supported_media_types@),
            max_width: self.max_width,
            max_height: self.max_height,
        }
    }
}

pub open spec fn opt_media(m: Option<MediaInputConfig>) -> Option<MediaView> {
    match m {
        Some(m) => Some(m@),
        None => None,
    }
}

impl MultimodalInputConfig {
    pub open spec fn view(self) -> MultimodalView {
        MultimodalView {
            image: opt_media(self.image),
            pdf: opt_media(self.pdf),
            audio: opt_media(self.audio),
        }
    }
}

pub open spec fn opt_multimodal(m: Option<MultimodalInputConfig>) -> Option<MultimodalView> {
    match m {
        Some(m) => Some(m@),
        None => None,
    }
}

impl ModelConfig {
    pub open spec fn view(self) -> ModelView {
        ModelView {
            provider_type: self.provider_type,
            model_name: self.model_name@,
            url: self.url@,
            api_key_env: self.api_key_env@,
            capabilities: self.capabilities@,
            token_max_context: self.token_max_context,
            cache_timeout: self.cache_timeout,
            conn_timeout: self.conn_timeout,
            retry_mode: self.retry_mode,
            reasoning: opt_json(self.reasoning),
            token_estimator_type: self.token_estimator_type,
            multimodal_estimator: opt_json(self.multimodal_estimator),
            multimodal_input: opt_multimodal(self.multimodal_input),
            token_estimator_url: opt_view(self.token_estimator_url),
        }
    }

    /// Whether the model has a capability.
    pub fn supports(&self, capability: ModelCapability) -> (b: bool)
        ensures
            b == self@.capabilities.contains(capability),
    {
        holds_capability(&self.capabilities, capability)
    }

    pub fn copy(&self) -> (r: Self)
        ensures
            r@ == self@,
    {
        ModelConfig {
            provider_type: self.provider_type,
            model_name: self.model_name.clone(),
            url: self.url.clone(),
            api_key_env: self.api_key_env.clone(),
            capabilities: copy_capabilities(&self.capabilities),
            token_max_context: self.token_max_context,
            cache_timeout: self.cache_timeout,
            conn_timeout: self.conn_timeout,
            retry_mode: self.retry_mode,
            reasoning: match &self.reasoning {
                Some(j) => Some(j.copy()),
                None => None,
            },
            token_estimator_type: self.token_estimator_type,
            multimodal_estimator: match &self.multimodal_estimator {
                Some(j) => Some(j.copy()),
                None => None,
            },
            multimodal_input: match &self.multimodal_input {
                Some(m) => Some(
                    MultimodalInputConfig {
                        image: copy_media(&m.image),
                        pdf: copy_media(&m.pdf),
                        audio: copy_media(&m.audio),
                    },
                ),
                None => None,
            },
            token_estimator_url: opt_copy(&self.token_estimator_url),
        }
    }

    /// Whether two models are configured alike.
    pub fn same(&self, other: &Self) -> (b: bool)
        ensures
            b == (self@ == other@),
    {
        self.provider_type == other.provider_type && text_eq(
            self.model_name.as_str(),
            other.model_name.as_str(),
        ) && text_eq(self.url.as_str(), other.url.as_str()) && text_eq(
            self.api_key_env.as_str(),
            other.api_key_env.as_str(),
        ) && same_capabilities(&self.capabilities, &other.capabilities) && self.token_max_context
            == other.token_max_context && self.cache_timeout == other.cache_timeout
            && self.conn_timeout == other.conn_timeout && self.retry_mode == other.retry_mode
            && same_opt_json(&self.reasoning, &other.reasoning) && self.token_estimator_type
            == other.token_estimator_type && same_opt_json(
            &self.multimodal_estimator,
            &other.multimodal_estimator,
        ) && same_multimodal(
            &self.multimodal_input,
            &other.multimodal_input,
        ) && opt_text_eq(&self.token_estimator_url, &other.token_estimator_url)
    }
}

pub fn holds_capability(list: &Vec<ModelCapability>, capability: ModelCapability) -> (b: bool)
    ensures
        b == list@.contains(capability),
{
    let mut i: usize = 0;
    while i < list.len()
        invariant
            i <= list@.len(),
            forall|j: int| 0 <= j < i ==> list@[j] != capability,
        decreases list@.len() - i,
    {
        if list[i] == capability {
            return true;
        }
        i += 1;
    }
    false
}

pub fn copy_capabilities(list: &Vec<ModelCapability>) -> (r: Vec<ModelCapability>)
    ensures
        r@ == list@,
{
    let mut r: Vec<ModelCapability> = Vec::new();
    let mut i: usize = 0;
    while i < list.len()
        invariant
            i <= list@.len(),
            r@ =~= list@.take(i as int),
        decreases list@.len() - i,
    {
        r.push(list[i]);
        i += 1;
    }
    assert(list@.take(list@.len() as int) =~= list@);
    r
}

fn same_capabilities(a: &Vec<ModelCapability>, b: &Vec<ModelCapability>) -> (r: bool)
    ensures
        r == (a@ == b@),
{
    if a.len() != b.len() {
        return false;
    }
    let mut i: usize = 0;
    while i < a.len()
        invariant
            i <= a@.len(),
            a@.len() == b@.len(),
            forall|j: int| 0 <= j < i ==> a@[j] == b@[j],
        decreases a@.len() - i,
    {
        if a[i] != b[i] {
            return false;
        }
        i += 1;
    }
    assert(a@ =~= b@);
    true
}

pub fn copy_media(m: &Option<MediaInputConfig>) -> (r: Option<MediaInputConfig>)
    ensures
        opt_media(r) == opt_media(*m),
{
    match m {
        Some(m) => Some(
            MediaInputConfig {
                transport: m.transport,
                supported_media_types: views_copy(&m.supported_media_types),
                max_width: m.max_width,
                max_height: m.max_height,
            },
        ),
        None => None,
    }
}

pub fn same_texts(a: &Vec<String>, b: &Vec<String>) -> (r: bool)
    ensures
        r == (views(a@) == views(b@)),
{
    if a.len() != b.len() {
        assert(views(a@).len() == a@.len());
        assert(views(b@).len() == b@.len());
        return false;
    }
    let mut i: usize = 0;
    while i < a.len()
        invariant
            i <= a@.len(),
            a@.len() == b@.len(),
            forall|j: int| 0 <= j < i ==> (#[trigger] a@[j])@ == b@[j]@,
        decreases a@.len() - i,
    {
        if !text_eq(a[i].as_str(), b[i].as_str()) {
            assert(views(a@)[i as int] != views(b@)[i as int]);
            return false;
        }
        i += 1;
    }
    assert(views(a@) =~= views(b@));
    true
}

fn same_limit(a: Option<u32>, b: Option<u32>) -> (r: bool)
    ensures
        r == (a == b),
{
    match (a, b) {
        (Some(x), Some(y)) => x == y,
        (None, None) => true,
        _ => false,
    }
}

fn same_media(a: &Option<MediaInputConfig>, b: &Option<MediaInputConfig>) -> (r: bool)
    ensures
        r == (opt_media(*a) == opt_media(*b)),
{
    match (a, b) {
        (Some(x), Some(y)) => x.transport == y.transport && same_texts(
            &x.supported_media_types,
            &y.supported_media_types,
        ) && same_limit(x.max_width, y.max_width) && same_limit(x.max_height, y.max_height),
        (None, None) => true,
        _ => false,
    }
}

fn same_multimodal(a: &Option<MultimodalInputConfig>, b: &Option<MultimodalInputConfig>) -> (r:
    bool)
    ensures
        r == (opt_multimodal(*a) == opt_multimodal(*b)),
{
    match (a, b) {
        (Some(x), Some(y)) => same_media(&x.image, &y.image) && same_media(&x.pdf, &y.pdf)
            && same_media(&x.audio, &y.audio),
        (None, None) => true,
        _ => false,
    }
}

fn same_opt_json(a: &Option<Json>, b: &Option<Json>) -> (r: bool)
    ensures
        r == (opt_json(*a) == opt_json(*b)),
{
    match (a, b) {
        (Some(x), Some(y)) => x.same(y),
        (None, None) => true,
        _ => false,
    }
}

} // verus!

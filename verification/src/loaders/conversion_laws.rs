//! Laws of the conversion: what is configured is found again in the current form.

use vstd::prelude::*;
use crate::config::{
    first_same_model, ChannelConfig, SandboxMode, SelectionView, StellaclawConfig, TargetView,
};
use crate::json::JsonView;
use crate::json_ops::opt_json;
use crate::model::{
    MediaInputTransport, ModelCapability, ModelConfig, ModelView, ProviderType, RetryMode,
    TokenEstimatorType,
};
use crate::number::{decimal, decimal_is_digits, decimal_then_parse};
use crate::text::{cut_is_at_the_first, is_space, opt_view, trimming_drops_the_space_around};
use crate::text_map::{less_is_irreflexive, TextMap};
use super::convert::{
    chats, conversion_error, converted_channel, converted_channels, first_chatting, helper_model,
    is_conversion, main_model_name, sandbox_mode, tool_models, tooling_target, CompressionTokens,
};
use super::estimator::{estimator_plan, LegacyTokenEstimation, PlanView};
use super::partyclaw::{
    cache_seconds, capability, converted_model, converted_search_model, default_media, endpoint,
    has_capability, model_views, named_models, ordered_capabilities, outcome_of, own_models,
    searches_natively, with_catalog, without_trailing_slashes, FileOutcome, LegacyChannelConfig,
    LegacyExternalWebSearchConfig, LegacyModelCapability, LegacyModelConfig, LegacyModelType,
    LegacyRetryMode, LegacySandboxMode, LegacyServerConfig,
};
use super::upgrade::{any_compact, is_compact, looks_compact, named_target, stated_version};

verus! {

// ---------------------------------------------------------------------------
// Addresses
// ---------------------------------------------------------------------------
proof fn lemma_slashes(b: Seq<char>, slashes: Seq<char>)
    requires
        b.len() > 0 ==> b.last() != '/',
        forall|i: int| 0 <= i < slashes.len() ==> #[trigger] slashes[i] == '/',
    ensures
        without_trailing_slashes(b + slashes) == b,
    decreases slashes.len(),
{
    if slashes.len() == 0 {
        assert(b + slashes =~= b);
    } else {
        assert((b + slashes).last() == slashes[slashes.len() - 1]);
        assert((b + slashes).drop_last() =~= b + slashes.drop_last());
        lemma_slashes(b, slashes.drop_last());
    }
}

/// An address ends in the configured path. Before it stands the base without the slashes at
/// its end, with exactly one slash between the two.
pub proof fn address_is_the_path_below_the_base(
    base: Seq<char>,
    slashes: Seq<char>,
    path: Seq<char>,
)
    requires
        base.len() > 0 ==> base.last() != '/',
        forall|i: int| 0 <= i < slashes.len() ==> #[trigger] slashes[i] == '/',
        path.len() > 0,
    ensures
        path.is_suffix_of(endpoint(base + slashes, path)),
        base.is_prefix_of(endpoint(base + slashes, path)),
        path[0] == '/' ==> endpoint(base + slashes, path) == base + path,
        path[0] != '/' ==> endpoint(base + slashes, path) == base + seq!['/'] + path,
{
    lemma_slashes(base, slashes);
    let r = endpoint(base + slashes, path);
    reveal_strlit("/");
    assert("/"@ =~= seq!['/']);
    assert(r.subrange(r.len() - path.len(), r.len() as int) =~= path);
    assert(r.subrange(0, base.len() as int) =~= base);
}

/// Where no path is configured, that of chat completions stands below the base.
pub proof fn address_without_path(base: Seq<char>, slashes: Seq<char>)
    requires
        base.len() > 0 ==> base.last() != '/',
        forall|i: int| 0 <= i < slashes.len() ==> #[trigger] slashes[i] == '/',
    ensures
        endpoint(base + slashes, Seq::empty()) == base + "/chat/completions"@,
{
    lemma_slashes(base, slashes);
    reveal_strlit("/chat/completions");
}

// ---------------------------------------------------------------------------
// Times to live
// ---------------------------------------------------------------------------
/// A time to live counts seconds, minutes, hours or days, as its unit says; a number without
/// a unit counts seconds, if it has two digits or more. White space around it does not
/// matter, and a time that is too long is the longest.
pub proof fn time_to_live_counts_its_unit(n: nat, a: Seq<char>, b: Seq<char>, unit: char)
    requires
        n <= u64::MAX,
        forall|i: int| 0 <= i < a.len() ==> is_space(#[trigger] a[i]),
        forall|i: int| 0 <= i < b.len() ==> is_space(#[trigger] b[i]),
    ensures
        ({
            let seconds = cache_seconds(Some(a + decimal(n).push(unit) + b));
            &&& unit == 's' ==> seconds == Some(n as u64)
            &&& unit == 'm' && n * 60 <= u64::MAX ==> seconds == Some((n * 60) as u64)
            &&& unit == 'h' && n * 3600 <= u64::MAX ==> seconds == Some((n * 3600) as u64)
            &&& unit == 'd' && n * 86400 <= u64::MAX ==> seconds == Some((n * 86400) as u64)
            &&& unit == 'm' && n * 60 > u64::MAX ==> seconds == Some(u64::MAX)
            &&& unit == 'h' && n * 3600 > u64::MAX ==> seconds == Some(u64::MAX)
            &&& unit == 'd' && n * 86400 > u64::MAX ==> seconds == Some(u64::MAX)
        }),
        n >= 10 ==> cache_seconds(Some(a + decimal(n) + b)) == Some(n as u64),
        cache_seconds(Some(a + b)) is None,
        cache_seconds(None) is None,
{
    let d = decimal(n);
    decimal_is_digits(n);
    decimal_then_parse(n, u64::MAX as nat);
    assert(crate::text::is_digit(d[0]) && crate::text::is_digit(d.last()));
    if unit == 's' || unit == 'm' || unit == 'h' || unit == 'd' {
        trimming_drops_the_space_around(a, d.push(unit), b);
        assert(d.push(unit).drop_last() =~= d);
    }
    if n >= 10 {
        trimming_drops_the_space_around(a, d, b);
        assert(d.drop_last() =~= decimal(n / 10));
        decimal_then_parse(n / 10, u64::MAX as nat);
    }
    trimming_drops_the_space_around(a, Seq::empty(), b);
    assert(a + Seq::<char>::empty() + b =~= a + b);
}

// ---------------------------------------------------------------------------
// Models
// ---------------------------------------------------------------------------
/// The capability of the current form for each that was listed, by itself.
pub open spec fn is_listed(m: LegacyModelConfig, c: LegacyModelCapability) -> bool {
    m.capabilities@.contains(c)
}

proof fn lemma_listed(m: LegacyModelConfig, c: LegacyModelCapability)
    ensures
        is_listed(m, c) ==> has_capability(m, capability(c)),
        has_capability(m, capability(c)) && !(c is ImageIn) ==> is_listed(m, c),
        has_capability(m, capability(c)) && c is ImageIn && !m.supports_vision_input ==> is_listed(
            m,
            c,
        ),
{
    if is_listed(m, c) {
        let i = choose|i: int| 0 <= i < m.capabilities@.len() && m.capabilities@[i] == c;
        assert(capability(m.capabilities@[i]) == capability(c));
    }
}

/// A model has the capabilities that were listed for it and no others, but that a model that
/// was marked as seeing takes images. Each stands once.
pub proof fn capabilities_are_kept(m: LegacyModelConfig)
    ensures
        ({
            let r = ordered_capabilities(m);
            &&& r.no_duplicates()
            &&& r.contains(ModelCapability::Chat) <==> is_listed(m, LegacyModelCapability::Chat)
            &&& r.contains(ModelCapability::WebSearch) <==> is_listed(
                m,
                LegacyModelCapability::WebSearch,
            )
            &&& r.contains(ModelCapability::ImageOut) <==> is_listed(
                m,
                LegacyModelCapability::ImageOut,
            )
            &&& r.contains(ModelCapability::PdfIn) <==> is_listed(m, LegacyModelCapability::Pdf)
            &&& r.contains(ModelCapability::AudioIn) <==> is_listed(
                m,
                LegacyModelCapability::AudioIn,
            )
            &&& r.contains(ModelCapability::ImageIn) <==> is_listed(
                m,
                LegacyModelCapability::ImageIn,
            ) || m.supports_vision_input
        }),
{
    lemma_listed(m, LegacyModelCapability::Chat);
    lemma_listed(m, LegacyModelCapability::WebSearch);
    lemma_listed(m, LegacyModelCapability::ImageIn);
    lemma_listed(m, LegacyModelCapability::ImageOut);
    lemma_listed(m, LegacyModelCapability::Pdf);
    lemma_listed(m, LegacyModelCapability::AudioIn);
    let r = ordered_capabilities(m);
    let (a, b, c, d, e, f) = (
        has_capability(m, ModelCapability::Chat),
        has_capability(m, ModelCapability::ImageIn),
        has_capability(m, ModelCapability::ImageOut),
        has_capability(m, ModelCapability::PdfIn),
        has_capability(m, ModelCapability::AudioIn),
        has_capability(m, ModelCapability::WebSearch),
    );
    let s0 = Seq::<ModelCapability>::empty();
    let s1 = lemma_append(s0, a, ModelCapability::Chat);
    let s2 = lemma_append(s1, b, ModelCapability::ImageIn);
    let s3 = lemma_append(s2, c, ModelCapability::ImageOut);
    let s4 = lemma_append(s3, d, ModelCapability::PdfIn);
    let s5 = lemma_append(s4, e, ModelCapability::AudioIn);
    let s6 = lemma_append(s5, f, ModelCapability::WebSearch);
    assert(r =~= s6);
}

proof fn lemma_append(s: Seq<ModelCapability>, b: bool, c: ModelCapability) -> (t: Seq<
    ModelCapability,
>)
    requires
        s.no_duplicates(),
        !s.contains(c),
    ensures
        t == s + super::partyclaw::one_if(b, c),
        t.no_duplicates(),
        forall|x: ModelCapability| #[trigger] t.contains(x) <==> s.contains(x) || (b && x == c),
{
    let t = s + super::partyclaw::one_if(b, c);
    assert forall|x: ModelCapability| #[trigger] t.contains(x) <==> s.contains(x) || (b && x
        == c) by {
        if s.contains(x) {
            let i = choose|i: int| 0 <= i < s.len() && s[i] == x;
            assert(t[i] == x);
        }
        if b && x == c {
            assert(t[s.len() as int] == x);
        }
        if t.contains(x) {
            let i = choose|i: int| 0 <= i < t.len() && t[i] == x;
            if i < s.len() {
                assert(s[i] == x);
            }
        }
    }
    t
}

/// A model that takes images, PDF files or sound in gets the settings for that medium, and
/// for no other; one that takes none gets none.
pub proof fn media_follow_capabilities(c: Seq<ModelCapability>)
    ensures
        default_media(c) is None <==> !c.contains(ModelCapability::ImageIn) && !c.contains(
            ModelCapability::PdfIn,
        ) && !c.contains(ModelCapability::AudioIn),
        default_media(c) matches Some(v) ==> {
            &&& v.image is Some <==> c.contains(ModelCapability::ImageIn)
            &&& v.pdf is Some <==> c.contains(ModelCapability::PdfIn)
            &&& v.audio is Some <==> c.contains(ModelCapability::AudioIn)
            &&& v.image matches Some(i) ==> i.transport == MediaInputTransport::InlineBase64
                && i.max_width == Some(4096u32) && i.max_height == Some(4096u32)
                && i.supported_media_types == seq![
                "image/png"@,
                "image/jpeg"@,
                "image/webp"@,
                "image/gif"@,
            ]
            &&& v.pdf matches Some(p) ==> p.transport == MediaInputTransport::InlineBase64
                && p.max_width is None && p.max_height is None && p.supported_media_types == seq![
                "application/pdf"@,
            ]
            &&& v.audio matches Some(s) ==> s.transport == MediaInputTransport::InlineBase64
                && s.max_width is None && s.max_height is None && s.supported_media_types == seq![
                "audio/mpeg"@,
                "audio/mp3"@,
                "audio/wav"@,
                "audio/ogg"@,
                "audio/webm"@,
                "audio/flac"@,
                "audio/mp4"@,
            ]
        },
{
}

/// A converted model keeps its name, its key, its limits and its reasoning, and is reached
/// over the same service at its own address.
pub proof fn converted_model_keeps_its_settings(
    name: Seq<char>,
    m: LegacyModelConfig,
    files: Option<FileOutcome>,
)
    ensures
        converted_model(name, m, files) matches Ok(v) ==> {
            &&& v.model_name == m.model@
            &&& v.api_key_env == m.api_key_env@
            &&& v.token_max_context == m.context_window_tokens
            &&& v.conn_timeout == m.timeout_secs
            &&& v.reasoning == opt_json(m.reasoning)
            &&& v.multimodal_estimator is None
            &&& v.url == endpoint(m.api_endpoint@, m.chat_completions_path@)
            &&& v.capabilities == ordered_capabilities(m)
            &&& v.cache_timeout == (match cache_seconds(opt_view(m.cache_ttl)) {
                Some(n) => n,
                None => 300,
            })
            &&& m.model_type is Openrouter ==> v.provider_type
                == ProviderType::OpenRouterCompletion
            &&& m.model_type is OpenrouterResp ==> v.provider_type
                == ProviderType::OpenRouterResponses
            &&& m.model_type is CodexSubscription ==> v.provider_type
                == ProviderType::CodexSubscription
            &&& m.model_type is ClaudeCode ==> v.provider_type == ProviderType::ClaudeCode
            &&& m.model_type is BraveSearch ==> v.provider_type == ProviderType::BraveSearch
            &&& m.retry_mode is No ==> v.retry_mode == RetryMode::Once
            &&& m.retry_mode matches LegacyRetryMode::Random { max_retries, max_interval_secs }
                ==> (v.retry_mode matches RetryMode::RandomInterval {
                max_interval_secs: interval,
                max_retries: retries,
            } && interval == max_interval_secs && retries == max_retries)
        },
        m.headers@.len() > 0 ==> converted_model(name, m, files) is Err,
        opt_json(m.native_web_search) matches Some(v) && v.bool_field("enabled"@)
            == Some(true) ==> converted_model(name, m, files) is Err,
{
}

/// A model of the search catalogue searches the web at its own address, and takes images only
/// where it was marked as seeing.
pub proof fn search_model_keeps_its_settings(m: LegacyExternalWebSearchConfig)
    ensures
        ({
            let v = converted_search_model(m);
            &&& v.model_name == m.model@
            &&& v.api_key_env == m.api_key_env@
            &&& v.url == endpoint(m.base_url@, m.chat_completions_path@)
            &&& v.conn_timeout == m.timeout_secs
            &&& v.capabilities == seq![ModelCapability::WebSearch]
            &&& v.provider_type == ProviderType::OpenRouterResponses
            &&& v.token_max_context == 128_000
            &&& v.cache_timeout == 300
            &&& v.retry_mode == RetryMode::Once
            &&& v.token_estimator_type == TokenEstimatorType::Local
            &&& v.token_estimator_url is None
            &&& m.supports_vision_input ==> (v.multimodal_input matches Some(i) && i.image is Some)
            &&& !m.supports_vision_input ==> v.multimodal_input is None
        }),
{
    let seeing = seq![ModelCapability::WebSearch, ModelCapability::ImageIn];
    assert(seeing[1] == ModelCapability::ImageIn);
}

proof fn lemma_own_models(
    entries: Seq<(String, LegacyModelConfig)>,
    files: TextMap<FileOutcome>,
    n: int,
    i: int,
)
    requires
        0 <= i < n <= entries.len(),
        own_models(entries, files, n) is Ok,
        forall|a: int, b: int|
            0 <= a < b < entries.len() ==> (#[trigger] entries[a]).0@ != (#[trigger] entries[b]).0@,
    ensures
        own_models(entries, files, n)->Ok_0.contains_key(entries[i].0@),
        converted_model(entries[i].0@, entries[i].1, outcome_of(files, entries[i].0@)) is Ok,
        own_models(entries, files, n)->Ok_0[entries[i].0@] == converted_model(
            entries[i].0@,
            entries[i].1,
            outcome_of(files, entries[i].0@),
        )->Ok_0,
    decreases n,
{
    if i < n - 1 {
        lemma_own_models(entries, files, n - 1, i);
        assert(entries[i].0@ != entries[n - 1].0@);
    }
}

proof fn lemma_own_model_names(
    entries: Seq<(String, LegacyModelConfig)>,
    files: TextMap<FileOutcome>,
    n: int,
    k: Seq<char>,
)
    requires
        0 <= n <= entries.len(),
        own_models(entries, files, n) is Ok,
        own_models(entries, files, n)->Ok_0.contains_key(k),
    ensures
        exists|i: int| 0 <= i < n && (#[trigger] entries[i]).0@ == k,
    decreases n,
{
    if n > 0 {
        if k == entries[n - 1].0@ {
            assert(entries[n - 1].0@ == k);
        } else {
            lemma_own_model_names(entries, files, n - 1, k);
            let i = choose|i: int| 0 <= i < n - 1 && (#[trigger] entries[i]).0@ == k;
            assert(entries[i].0@ == k);
        }
    }
}

proof fn lemma_catalog(
    models: Map<Seq<char>, ModelView>,
    entries: Seq<(String, LegacyExternalWebSearchConfig)>,
    n: int,
    k: Seq<char>,
)
    requires
        0 <= n <= entries.len(),
        forall|a: int, b: int|
            0 <= a < b < entries.len() ==> (#[trigger] entries[a]).0@ != (#[trigger] entries[b]).0@,
    ensures
        models.contains_key(k) ==> with_catalog(models, entries, n).contains_key(k)
            && with_catalog(models, entries, n)[k] == models[k],
        with_catalog(models, entries, n).contains_key(k) ==> models.contains_key(k) || exists|
            i: int,
        |
            0 <= i < n && (#[trigger] entries[i]).0@ == k,
        forall|i: int|
            0 <= i < n && (#[trigger] entries[i]).0@ == k && !models.contains_key(k)
                ==> with_catalog(models, entries, n).contains_key(k) && with_catalog(
                models,
                entries,
                n,
            )[k] == converted_search_model(entries[i].1),
    decreases n,
{
    if n > 0 {
        lemma_catalog(models, entries, n - 1, k);
        lemma_catalog(models, entries, n - 1, entries[n - 1].0@);
        assert forall|i: int|
            0 <= i < n && (#[trigger] entries[i]).0@ == k && !models.contains_key(k) implies
            with_catalog(models, entries, n).contains_key(k) && with_catalog(models, entries, n)[k]
            == converted_search_model(entries[i].1) by {
            if i < n - 1 {
                assert(entries[i].0@ != entries[n - 1].0@);
            } else {
                assert forall|j: int| 0 <= j < n - 1 implies (#[trigger] entries[j]).0@ != k by {
                    assert(entries[j].0@ != entries[n - 1].0@);
                }
            }
        }
        if with_catalog(models, entries, n).contains_key(k) && !models.contains_key(k) {
            if k == entries[n - 1].0@ {
                assert(entries[n - 1].0@ == k);
            } else {
                let i = choose|i: int| 0 <= i < n - 1 && (#[trigger] entries[i]).0@ == k;
                assert(entries[i].0@ == k);
            }
        }
    }
}

proof fn lemma_distinct<V>(m: TextMap<V>)
    requires
        m.wf(),
    ensures
        forall|a: int, b: int|
            0 <= a < b < m.entries@.len() ==> (#[trigger] m.entries@[a]).0@ != (
            #[trigger] m.entries@[b]).0@,
{
    assert forall|a: int, b: int| 0 <= a < b < m.entries@.len() implies (#[trigger] m.entries@[a]).0@
        != (#[trigger] m.entries@[b]).0@ by {
        less_is_irreflexive(m.entries@[a].0@);
    }
}

/// Every model is found under its own name in the current form, and every model of the search
/// catalogue whose name no model has. There are no others.
pub proof fn models_keep_their_names(
    models: TextMap<LegacyModelConfig>,
    catalog: TextMap<LegacyExternalWebSearchConfig>,
    files: TextMap<FileOutcome>,
    k: Seq<char>,
)
    requires
        models.wf(),
        catalog.wf(),
        named_models(models, catalog, files) is Ok,
    ensures
        ({
            let r = named_models(models, catalog, files)->Ok_0;
            &&& r.contains_key(k) <==> models@.contains_key(k) || catalog@.contains_key(k)
            &&& models@.contains_key(k) ==> converted_model(k, models@[k], outcome_of(files, k))
                == Ok::<ModelView, Seq<char>>(r[k])
            &&& !models@.contains_key(k) && catalog@.contains_key(k) ==> r[k]
                == converted_search_model(catalog@[k])
        }),
{
    lemma_distinct(models);
    lemma_distinct(catalog);
    let own = own_models(models.entries@, files, models.entries@.len() as int)->Ok_0;
    lemma_catalog(own, catalog.entries@, catalog.entries@.len() as int, k);
    if models@.contains_key(k) {
        let i = choose|i: int|
            0 <= i < models.entries@.len() && #[trigger] models.entries@[i].0@ == k;
        models.lemma_entry(i);
        lemma_own_models(models.entries@, files, models.entries@.len() as int, i);
    } else if own.contains_key(k) {
        lemma_own_model_names(models.entries@, files, models.entries@.len() as int, k);
    }
    if catalog@.contains_key(k) {
        let i = choose|i: int|
            0 <= i < catalog.entries@.len() && #[trigger] catalog.entries@[i].0@ == k;
        catalog.lemma_entry(i);
        assert(catalog.entries@[i].0@ == k);
    }
}

// ---------------------------------------------------------------------------
// The main model and the models of tools
// ---------------------------------------------------------------------------
proof fn lemma_first_chatting(entries: Seq<(String, LegacyModelConfig)>, i: int)
    requires
        0 <= i <= entries.len(),
    ensures
        match first_chatting(entries, i) {
            Some(name) => exists|k: int|
                i <= k < entries.len() && (#[trigger] entries[k]).0@ == name && chats(entries[k].1)
                    && forall|j: int| i <= j < k ==> !chats((#[trigger] entries[j]).1),
            None => forall|j: int| i <= j < entries.len() ==> !chats((#[trigger] entries[j]).1),
        },
    decreases entries.len() - i,
{
    if i < entries.len() {
        if chats(entries[i].1) {
            assert(entries[i].0@ == first_chatting(entries, i)->0);
        } else {
            lemma_first_chatting(entries, i + 1);
            if let Some(name) = first_chatting(entries, i + 1) {
                let k = choose|k: int|
                    i + 1 <= k < entries.len() && (#[trigger] entries[k]).0@ == name && chats(
                        entries[k].1,
                    ) && forall|j: int| i + 1 <= j < k ==> !chats((#[trigger] entries[j]).1);
                assert(entries[k].0@ == name);
            }
        }
    }
}

/// The main model is the first that the chat models name, else the first available one, else
/// the first of the agent's models, else the first model that can chat: any but a search
/// service, or one that lists chatting.
pub proof fn main_model_is_the_first_named(legacy: LegacyServerConfig, k: int)
    requires
        0 <= k < legacy.models.entries@.len(),
        legacy.models.entries@[k].1.capabilities@.contains(LegacyModelCapability::Chat)
            || legacy.models.entries@[k].1.model_type != LegacyModelType::BraveSearch,
        forall|j: int|
            0 <= j < k ==> (#[trigger] legacy.models.entries@[j]).1.model_type
                == LegacyModelType::BraveSearch && !legacy.models.entries@[j].1.capabilities@.contains(
                LegacyModelCapability::Chat,
            ),
    ensures
        main_model_name(legacy) == Ok::<Seq<char>, Seq<char>>(
            if legacy.chat_model_keys@.len() > 0 {
                legacy.chat_model_keys@[0]@
            } else if legacy.available_models@.len() > 0 {
                legacy.available_models@[0]@
            } else if legacy.agent_frame_models@.len() > 0 {
                legacy.agent_frame_models@[0]@
            } else {
                legacy.models.entries@[k].0@
            },
        ),
{
    let entries = legacy.models.entries@;
    lemma_first_chatting(entries, 0);
    assert(chats(entries[k].1));
    match first_chatting(entries, 0) {
        Some(name) => {
            let i = choose|i: int|
                0 <= i < entries.len() && (#[trigger] entries[i]).0@ == name && chats(entries[i].1)
                    && forall|j: int| 0 <= j < i ==> !chats((#[trigger] entries[j]).1);
            if i < k {
                assert(!chats(entries[i].1));
            } else if k < i {
                assert(!chats(entries[k].1));
            }
        },
        None => {},
    }
}

/// Whether a text names a model for a tool: it has no white space around it and no colon.
pub open spec fn is_alias(t: Seq<char>) -> bool {
    t.len() > 0 && !is_space(t[0]) && !is_space(t.last()) && !t.contains(':')
}

proof fn lemma_alias(t: Seq<char>)
    requires
        is_alias(t),
    ensures
        tooling_target(t) == Ok::<(Seq<char>, bool), Seq<char>>((t, false)),
        tooling_target(t + ":self"@) == Ok::<(Seq<char>, bool), Seq<char>>((t, true)),
{
    let e = Seq::<char>::empty();
    reveal_strlit(":self");
    reveal_strlit("self");
    let own = t + ":self"@;
    trimming_drops_the_space_around(e, t, e);
    assert(e + t + e =~= t);
    trimming_drops_the_space_around(e, own, e);
    assert(e + own + e =~= own);
    trimming_drops_the_space_around(e, "self"@, e);
    assert(e + "self"@ + e =~= "self"@);
    cut_is_at_the_first(t, ':', "self"@);
    assert(t + seq![':'] + "self"@ =~= own);
}

/// A tool uses the model that its target names; one whose target ends in `:self` uses the
/// main model; one without a target has none; and a target that names no model is an error.
pub proof fn tool_uses_the_model_it_names(
    models: Map<Seq<char>, ModelView>,
    main: Seq<char>,
    alias: Seq<char>,
    search: bool,
)
    requires
        is_alias(alias),
    ensures
        helper_model(models, main, None, search) == Ok::<Option<TargetView>, Seq<char>>(None),
        models.contains_key(alias) ==> helper_model(models, main, Some(alias), search) == Ok::<
            Option<TargetView>,
            Seq<char>,
        >(Some(TargetView::Inline(models[alias]))),
        models.contains_key(main) ==> helper_model(models, main, Some(alias + ":self"@), search)
            == Ok::<Option<TargetView>, Seq<char>>(Some(TargetView::Inline(models[main]))),
        !models.contains_key(alias) ==> helper_model(models, main, Some(alias), search) is Err,
{
    lemma_alias(alias);
}

/// Every tool gets the model of its own setting: those for images and for searching the one
/// of the tooling, else that of the main model.
pub proof fn tools_get_their_own_models(
    legacy: LegacyServerConfig,
    models: Map<Seq<char>, ModelView>,
    main: Seq<char>,
)
    ensures
        tool_models(legacy, models, main) matches Ok(d) ==> {
            let own = legacy.models@[main];
            let t = legacy.tooling;
            &&& legacy.models@.contains_key(main)
            &&& t.image is Some ==> helper_model(models, main, opt_view(t.image), false) == Ok::<
                _,
                Seq<char>,
            >(d.image)
            &&& t.image is None ==> helper_model(
                models,
                main,
                opt_view(own.image_tool_model),
                false,
            ) == Ok::<_, Seq<char>>(d.image)
            &&& helper_model(models, main, opt_view(t.pdf), false) == Ok::<_, Seq<char>>(d.pdf)
            &&& helper_model(models, main, opt_view(t.audio_input), false) == Ok::<_, Seq<char>>(
                d.audio,
            )
            &&& helper_model(models, main, opt_view(t.image_gen), false) == Ok::<_, Seq<char>>(
                d.image_generation,
            )
            &&& t.web_search is Some ==> helper_model(models, main, opt_view(t.web_search), true)
                == Ok::<_, Seq<char>>(d.search)
            &&& t.web_search is None ==> helper_model(
                models,
                main,
                opt_view(own.web_search_model),
                true,
            ) == Ok::<_, Seq<char>>(d.search)
        },
{
}

/// A tool's model that is replaced by a name stays the same model: the name is that of a
/// model that is configured alike, the first of them. Names stay as they are.
pub proof fn naming_a_tool_model_changes_nothing(t: Option<TargetView>, models: TextMap<ModelConfig>)
    ensures
        match t {
            Some(TargetView::Inline(m)) => match named_target(t, models) {
                Some(TargetView::Alias(name)) => exists|i: int|
                    0 <= i < models.entries@.len() && (#[trigger] models.entries@[i]).0@ == name
                        && models.entries@[i].1@ == m && forall|j: int|
                        0 <= j < i ==> (#[trigger] models.entries@[j]).1@ != m,
                other => other == t && forall|j: int|
                    0 <= j < models.entries@.len() ==> (#[trigger] models.entries@[j]).1@ != m,
            },
            _ => named_target(t, models) == t,
        },
{
    if let Some(TargetView::Inline(m)) = t {
        let k = lemma_first_same(models.entries@, m, 0);
        if k < models.entries@.len() {
            assert(models.entries@[k].0@ == models.entries@[k].0@);
        }
    }
}

proof fn lemma_first_same(entries: Seq<(String, ModelConfig)>, m: ModelView, i: int) -> (k: int)
    requires
        0 <= i <= entries.len(),
    ensures
        i <= k <= entries.len(),
        forall|j: int| i <= j < k ==> (#[trigger] entries[j]).1@ != m,
        k < entries.len() ==> entries[k].1@ == m && first_same_model(entries, m, i) == Some(
            entries[k].0@,
        ),
        k == entries.len() ==> first_same_model(entries, m, i) is None,
    decreases entries.len() - i,
{
    if i < entries.len() && entries[i].1@ != m {
        lemma_first_same(entries, m, i + 1)
    } else {
        i
    }
}

// ---------------------------------------------------------------------------
// Channels, the sandbox and estimators
// ---------------------------------------------------------------------------
/// Where the channels are converted, each is a Telegram channel and is taken over unchanged,
/// in its place; a channel of another kind stops the conversion, and its message names it.
pub proof fn channels_are_taken_over_in_order(s: Seq<LegacyChannelConfig>)
    ensures
        match converted_channels(s) {
            Ok(r) => r.len() == s.len() && forall|i: int|
                0 <= i < s.len() ==> (#[trigger] s[i] matches LegacyChannelConfig::Telegram(t)
                    && r[i] == ChannelConfig::Telegram(t)),
            Err(e) => exists|i: int|
                0 <= i < s.len() && !(#[trigger] s[i] is Telegram) && refusal_names(e, s[i]),
        },
    decreases s.len(),
{
    if s.len() > 0 {
        let rest = s.drop_first();
        channels_are_taken_over_in_order(rest);
        match converted_channel(s[0]) {
            Err(e) => {
                let id = channel_id(s[0]);
                reveal_strlit("partyclaw channel '");
                let p = "partyclaw channel '"@ + id;
                assert(e.subrange(0, p.len() as int) =~= p);
                assert(refusal_names(e, s[0]));
            },
            Ok(c) => match converted_channels(rest) {
                Ok(r) => {
                    assert forall|i: int| 0 <= i < s.len() implies (
                    #[trigger] s[i] matches LegacyChannelConfig::Telegram(t) && (seq![c] + r)[i]
                        == ChannelConfig::Telegram(t)) by {
                        if i > 0 {
                            assert(rest[i - 1] == s[i]);
                        }
                    }
                },
                Err(e) => {
                    let i = choose|i: int|
                        0 <= i < rest.len() && !(#[trigger] rest[i] is Telegram) && refusal_names(
                            e,
                            rest[i],
                        );
                    assert(s[i + 1] == rest[i]);
                },
            },
        }
    }
}

pub open spec fn channel_id(c: LegacyChannelConfig) -> Seq<char> {
    match c {
        LegacyChannelConfig::Telegram(t) => t.id@,
        LegacyChannelConfig::CommandLine { id } => id@,
        LegacyChannelConfig::Dingtalk { id } => id@,
        LegacyChannelConfig::DingtalkRobot { id } => id@,
        LegacyChannelConfig::Web { id } => id@,
    }
}

/// Whether a message says which channel cannot be taken over.
pub open spec fn refusal_names(message: Seq<char>, c: LegacyChannelConfig) -> bool {
    ("partyclaw channel '"@ + channel_id(c)).is_prefix_of(message)
}

/// Only what ran in a sandbox of its own before does so afterwards.
pub proof fn sandbox_is_kept(m: LegacySandboxMode)
    ensures
        sandbox_mode(m) == SandboxMode::Bubblewrap <==> m == LegacySandboxMode::Bubblewrap,
        sandbox_mode(m) == SandboxMode::Subprocess <==> m != LegacySandboxMode::Bubblewrap,
{
}

/// A model without settings for counting tokens is counted here; one that names a repository
/// is counted by its tokenizer, in the stated revision or the main one.
pub proof fn estimator_is_the_stated_one(name: Seq<char>, e: LegacyTokenEstimation)
    ensures
        estimator_plan(name, None) == Ok::<PlanView, Seq<char>>(
            PlanView::Ready { kind: TokenEstimatorType::Local, url: None },
        ),
        e.huggingface && e.repo is None ==> estimator_plan(name, Some(e)) is Err,
        e.huggingface && e.repo is Some ==> (estimator_plan(name, Some(e)) matches Ok(
            PlanView::Ready { kind, url: Some(url) },
        ) && kind == TokenEstimatorType::HuggingFace && url == "https://huggingface.co/"@
            + e.repo->0@ + "/raw/"@ + (match e.revision {
            Some(r) => r@,
            None => "main"@,
        }) + "/tokenizer_config.json"@),
{
}

/// A converted configuration holds all that was configured: its models, its main model and
/// those of its tools, its channels, its sandbox and its limits, in the current version.
pub proof fn conversion_keeps_everything(
    legacy: LegacyServerConfig,
    files: TextMap<FileOutcome>,
    compression: CompressionTokens,
    c: StellaclawConfig,
    main: Seq<char>,
)
    requires
        conversion_error(legacy, files) is None,
        is_conversion(legacy, files, compression, c),
        main_model_name(legacy) == Ok::<Seq<char>, Seq<char>>(main),
    ensures
        c.version@ == "0.11"@,
        c.agent_server == legacy.agent_server,
        named_models(legacy.models, legacy.web_search_catalog, files) == Ok::<
            Map<Seq<char>, ModelView>,
            Seq<char>,
        >(model_views(c.models@)),
        c.models@.contains_key(main),
        c.default_profile matches Some(p) && p.main_model@ == SelectionView::Inline(
            c.models@[main]@,
        ),
        c.channels@.len() == legacy.channels@.len(),
        forall|i: int|
            0 <= i < c.channels@.len() ==> (#[trigger] legacy.channels@[i] matches
                LegacyChannelConfig::Telegram(t) && c.channels@[i] == ChannelConfig::Telegram(t)),
        c.session_defaults.compression_threshold_tokens == compression.threshold,
        c.session_defaults.compression_retain_recent_tokens == compression.retain_recent,
        c.sandbox.bubblewrap_binary == legacy.sandbox.bubblewrap_binary,
        c.sandbox.mode == SandboxMode::Bubblewrap <==> legacy.sandbox.mode
            == LegacySandboxMode::Bubblewrap,
        c.sandbox.software_dir is None,
        c.sandbox.software_mount_path@ == "/opt"@,
        c.available_agent_models@.len() == 0,
        c.skill_sync@.len() == 0,
{
    channels_are_taken_over_in_order(legacy.channels@);
    let models = named_models(legacy.models, legacy.web_search_catalog, files)->Ok_0;
    assert(models.contains_key(main));
    assert(model_views(c.models@).contains_key(main));
    assert(model_views(c.models@)[main] == c.models@[main]@);
}

/// A configuration without models or channels, or that maps the socket of docker, is refused,
/// and so is one with a model or a channel that cannot be converted.
pub proof fn incomplete_configurations_are_refused(
    legacy: LegacyServerConfig,
    files: TextMap<FileOutcome>,
)
    ensures
        legacy.models.entries@.len() == 0 ==> conversion_error(legacy, files) is Some,
        legacy.channels@.len() == 0 ==> conversion_error(legacy, files) is Some,
        legacy.sandbox.map_docker_socket ==> conversion_error(legacy, files) is Some,
        named_models(legacy.models, legacy.web_search_catalog, files) is Err ==> conversion_error(
            legacy,
            files,
        ) is Some,
        converted_channels(legacy.channels@) is Err ==> conversion_error(legacy, files) is Some,
        main_model_name(legacy) is Err ==> conversion_error(legacy, files) is Some,
{
}

/// A configuration states its version; one that states none has the first. Its models are
/// written in the compact form where one of them has a member of that form.
pub proof fn configuration_tells_its_form(
    v: Seq<char>,
    models: Map<Seq<char>, JsonView>,
    name: Seq<char>,
    member: JsonView,
)
    requires
        models.contains_key(name),
    ensures
        stated_version(JsonView::empty_object().with("version"@, JsonView::Text(v))) == v,
        stated_version(JsonView::empty_object()) == "0.1"@,
        ({
            let whole = JsonView::empty_object().with("models"@, JsonView::Object(models));
            &&& models[name] == JsonView::empty_object().with("type"@, member) ==> is_compact(whole)
            &&& models[name] == JsonView::empty_object().with("api_endpoint"@, member)
                ==> is_compact(whole)
            &&& models[name] == JsonView::empty_object().with("context_window_tokens"@, member)
                ==> is_compact(whole)
            &&& (forall|k: Seq<char>| #[trigger]
                models.contains_key(k) ==> models[k] == JsonView::empty_object()) ==> !is_compact(
                whole,
            )
        }),
        !is_compact(JsonView::empty_object()),
{
    let whole = JsonView::empty_object().with("models"@, JsonView::Object(models));
    assert(whole.field("models"@) == Some(JsonView::Object(models)));
    if looks_compact(models[name]) {
        assert(any_compact(models));
    }
}

/// A model with headers of its own, or one that searches by itself, is refused; so is one
/// whose estimator is, or whose files cannot be had.
pub proof fn unsupported_models_are_refused(
    name: Seq<char>,
    m: LegacyModelConfig,
    files: Option<FileOutcome>,
)
    ensures
        m.headers@.len() > 0 ==> converted_model(name, m, files) is Err,
        searches_natively(m) ==> converted_model(name, m, files) is Err,
        estimator_plan(name, m.token_estimation) is Err ==> converted_model(name, m, files) is Err,
        estimator_plan(name, m.token_estimation) is Ok && estimator_plan(
            name,
            m.token_estimation,
        )->Ok_0 is Files && files is Some && files->0 is Failed ==> converted_model(name, m, files)
            is Err,
        m.headers@.len() == 0 && !searches_natively(m) && estimator_plan(name, m.token_estimation)
            is Ok && estimator_plan(name, m.token_estimation)->Ok_0 is Ready ==> converted_model(
            name,
            m,
            files,
        ) is Ok,
{
}

} // verus!

//! Which loader reads a configuration, and what an upgrade changes.

use vstd::prelude::*;
use crate::config::{
    find_same_model, first_same_model, SessionDefaults, StellaclawConfig, TargetView,
    ToolModelTarget,
};
use crate::json::{group_json, object_view, Json, JsonView};
use crate::model::ModelConfig;
use crate::text::{cat3, text_eq};
use crate::text_map::TextMap;

verus! {

broadcast use group_json;

/// The readers of configuration files.
#[derive(Clone, Copy, Debug, PartialEq, Eq, Structural)]
pub enum Loader {
    /// The first version; taken over as it is.
    V0_1,
    /// The current version, or its compact form.
    Latest,
    /// The last version that partyclaw wrote.
    Partyclaw,
}

/// The version that a configuration states; the first one when it states none.
pub open spec fn stated_version(value: JsonView) -> Seq<char> {
    match value.text_field("version"@) {
        Some(v) => v,
        None => "0.1"@,
    }
}

pub fn detect_config_version(value: &Json) -> (r: String)
    ensures
        r@ == stated_version(value@),
{
    match value.text_field("version") {
        Some(v) => v.to_owned(),
        None => "0.1".to_owned(),
    }
}

/// The loader for a version. A configuration is rewritten when its version is not the
/// current one.
pub fn loader_for_version(version: &str) -> (r: Result<(Loader, bool), String>)
    ensures
        match r {
            Ok((Loader::V0_1, upgraded)) => version@ == "0.1"@ && upgraded,
            Ok((Loader::Latest, upgraded)) => version@ == "0.11"@ && !upgraded,
            Ok((Loader::Partyclaw, upgraded)) => version@ == "0.28"@ && upgraded,
            Err(e) => version@ != "0.1"@ && version@ != "0.11"@ && version@ != "0.28"@ && e@
                == "unsupported config version '"@ + version@ + "'"@,
        },
{
    proof {
        reveal_strlit("0.1");
        reveal_strlit("0.11");
        reveal_strlit("0.28");
        assert("0.1"@.len() != "0.11"@.len());
        assert("0.11"@[2] != "0.28"@[2]);
    }
    if text_eq(version, "0.1") {
        Ok((Loader::V0_1, true))
    } else if text_eq(version, "0.11") {
        Ok((Loader::Latest, false))
    } else if text_eq(version, "0.28") {
        Ok((Loader::Partyclaw, true))
    } else {
        Err(cat3("unsupported config version '", version, "'"))
    }
}

pub open spec fn looks_compact(model: JsonView) -> bool {
    model.field("type"@) is Some || model.field("api_endpoint"@) is Some || model.field(
        "context_window_tokens"@,
    ) is Some
}

pub open spec fn any_compact(models: Map<Seq<char>, JsonView>) -> bool {
    exists|k: Seq<char>| #[trigger] models.contains_key(k) && looks_compact(models[k])
}

/// Whether the models of a configuration are written in the compact form.
pub open spec fn is_compact(value: JsonView) -> bool {
    match value.field("models"@) {
        Some(JsonView::Object(models)) => any_compact(models),
        _ => false,
    }
}

proof fn lemma_member_of_entry(entries: Seq<(String, Json)>, k: Seq<char>)
    requires
        object_view(entries).contains_key(k),
    ensures
        exists|i: int|
            0 <= i < entries.len() && (#[trigger] entries[i]).0@ == k && entries[i].1@
                == object_view(entries)[k] && forall|j: int|
                i < j < entries.len() ==> (#[trigger] entries[j]).0@ != k,
    decreases entries.len(),
{
    if entries.len() > 0 {
        let n = entries.len() - 1;
        if entries[n].0@ == k {
            assert(entries[n].1@ == object_view(entries)[k]);
        } else {
            let rest = entries.drop_last();
            lemma_member_of_entry(rest, k);
            let i = choose|i: int|
                0 <= i < rest.len() && (#[trigger] rest[i]).0@ == k && rest[i].1@ == object_view(
                    rest,
                )[k] && forall|j: int| i < j < rest.len() ==> (#[trigger] rest[j]).0@ != k;
            assert(entries[i] == rest[i]);
            assert forall|j: int| i < j < entries.len() implies (#[trigger] entries[j]).0@ != k by {
                if j < n {
                    assert(rest[j].0@ != k);
                }
            }
        }
    }
}

proof fn lemma_entry_of_member(entries: Seq<(String, Json)>, i: int)
    requires
        0 <= i < entries.len(),
        forall|j: int| i < j < entries.len() ==> (#[trigger] entries[j]).0@ != entries[i].0@,
    ensures
        object_view(entries).contains_key(entries[i].0@),
        object_view(entries)[entries[i].0@] == entries[i].1@,
    decreases entries.len(),
{
    if i < entries.len() - 1 {
        let rest = entries.drop_last();
        assert(entries[entries.len() - 1].0@ != entries[i].0@);
        assert forall|j: int| i < j < rest.len() implies (#[trigger] rest[j]).0@ != rest[i].0@ by {
            assert(entries[j].0@ != entries[i].0@);
        }
        lemma_entry_of_member(rest, i);
    }
}

/// Whether a later entry has the same key.
fn is_overwritten(entries: &Vec<(String, Json)>, i: usize) -> (b: bool)
    requires
        i < entries@.len(),
    ensures
        b == exists|j: int|
            i < j < entries@.len() && (#[trigger] entries@[j]).0@ == entries@[i as int].0@,
{
    let n: usize = entries.len();
    let mut j: usize = i + 1;
    while j < n
        invariant
            i < j <= entries@.len(),
            n == entries@.len(),
            forall|k: int| i < k < j ==> (#[trigger] entries@[k]).0@ != entries@[i as int].0@,
        decreases entries@.len() - j,
    {
        if text_eq(entries[j].0.as_str(), entries[i].0.as_str()) {
            return true;
        }
        j += 1;
    }
    false
}

pub fn is_partyclaw_compatible_config(value: &Json) -> (b: bool)
    ensures
        b == is_compact(value@),
{
    match value.get("models") {
        Some(Json::Object(entries)) => {
            let ghost models = object_view(entries@);
            let mut i: usize = 0;
            while i < entries.len()
                invariant
                    i <= entries@.len(),
                    models == object_view(entries@),
                    value@.field("models"@) == Some(JsonView::Object(models)),
                    forall|j: int|
                        0 <= j < i && looks_compact((#[trigger] entries@[j]).1@) ==> exists|k: int|
                            j < k < entries@.len() && (#[trigger] entries@[k]).0@
                                == entries@[j].0@,
                decreases entries@.len() - i,
            {
                let model: &Json = &entries[i].1;
                if model.get("type").is_some() || model.get("api_endpoint").is_some() || model.get(
                    "context_window_tokens",
                ).is_some() {
                    assert(looks_compact(entries@[i as int].1@));
                    if !is_overwritten(entries, i) {
                        proof {
                            lemma_entry_of_member(entries@, i as int);
                            let key = entries@[i as int].0@;
                            assert(models.contains_key(key) && looks_compact(models[key]));
                            assert(any_compact(models));
                        }
                        return true;
                    }
                }
                i += 1;
            }
            proof {
                if any_compact(models) {
                    let k = choose|k: Seq<char>| #[trigger]
                        models.contains_key(k) && looks_compact(models[k]);
                    lemma_member_of_entry(entries@, k);
                }
            }
            false
        },
        _ => false,
    }
}

pub open spec fn opt_target(t: Option<ToolModelTarget>) -> Option<TargetView> {
    match t {
        Some(t) => Some(t@),
        None => None,
    }
}

/// A model that is written out becomes the name of one that is configured alike.
pub open spec fn named_target(t: Option<TargetView>, models: TextMap<ModelConfig>) -> Option<
    TargetView,
> {
    match t {
        Some(TargetView::Inline(m)) => match first_same_model(models.entries@, m, 0) {
            Some(name) => Some(TargetView::Alias(name)),
            None => t,
        },
        _ => t,
    }
}

fn prefer_named_tool_model_target(
    target: Option<ToolModelTarget>,
    models: &TextMap<ModelConfig>,
) -> (r: Option<ToolModelTarget>)
    ensures
        opt_target(r) == named_target(opt_target(target), *models),
{
    match target {
        Some(ToolModelTarget::Inline(model)) => match find_same_model(models, &model) {
            Some(alias) => Some(ToolModelTarget::Alias(alias)),
            None => Some(ToolModelTarget::Inline(model)),
        },
        other => other,
    }
}

/// Names the models of tools where a configured model is the same.
pub fn prefer_named_tool_model_targets(defaults: SessionDefaults, models: &TextMap<ModelConfig>) -> (r:
    SessionDefaults)
    ensures
        r.compression_threshold_tokens == defaults.compression_threshold_tokens,
        r.compression_retain_recent_tokens == defaults.compression_retain_recent_tokens,
        opt_target(r.image_tool_model) == named_target(
            opt_target(defaults.image_tool_model),
            *models,
        ),
        opt_target(r.pdf_tool_model) == named_target(opt_target(defaults.pdf_tool_model), *models),
        opt_target(r.audio_tool_model) == named_target(
            opt_target(defaults.audio_tool_model),
            *models,
        ),
        opt_target(r.image_generation_tool_model) == named_target(
            opt_target(defaults.image_generation_tool_model),
            *models,
        ),
        opt_target(r.search_tool_model) == named_target(
            opt_target(defaults.search_tool_model),
            *models,
        ),
        r.search_image_tool_model == defaults.search_image_tool_model,
        r.search_video_tool_model == defaults.search_video_tool_model,
        r.search_news_tool_model == defaults.search_news_tool_model,
{
    SessionDefaults {
        compression_threshold_tokens: defaults.compression_threshold_tokens,
        compression_retain_recent_tokens: defaults.compression_retain_recent_tokens,
        image_tool_model: prefer_named_tool_model_target(defaults.image_tool_model, models),
        pdf_tool_model: prefer_named_tool_model_target(defaults.pdf_tool_model, models),
        audio_tool_model: prefer_named_tool_model_target(defaults.audio_tool_model, models),
        image_generation_tool_model: prefer_named_tool_model_target(
            defaults.image_generation_tool_model,
            models,
        ),
        search_tool_model: prefer_named_tool_model_target(defaults.search_tool_model, models),
        search_image_tool_model: defaults.search_image_tool_model,
        search_video_tool_model: defaults.search_video_tool_model,
        search_news_tool_model: defaults.search_news_tool_model,
    }
}

/// Marks a configuration as being of the current version.
pub fn upgrade_version(config: StellaclawConfig) -> (r: StellaclawConfig)
    ensures
        r.version@ == "0.11"@,
        r == (StellaclawConfig { version: r.version, ..config }),
{
    StellaclawConfig { version: "0.11".to_owned(), ..config }
}

/// A configuration of the compact form, upgraded: tool models are named where they can
/// be, and the version is the current one.
pub fn finish_compact_upgrade(config: StellaclawConfig) -> (r: StellaclawConfig)
    ensures
        r.version@ == "0.11"@,
        r == (StellaclawConfig {
            version: r.version,
            session_defaults: r.session_defaults,
            ..config
        }),
        opt_target(r.session_defaults.search_tool_model) == named_target(
            opt_target(config.session_defaults.search_tool_model),
            config.models,
        ),
        opt_target(r.session_defaults.image_tool_model) == named_target(
            opt_target(config.session_defaults.image_tool_model),
            config.models,
        ),
        opt_target(r.session_defaults.pdf_tool_model) == named_target(
            opt_target(config.session_defaults.pdf_tool_model),
            config.models,
        ),
        opt_target(r.session_defaults.audio_tool_model) == named_target(
            opt_target(config.session_defaults.audio_tool_model),
            config.models,
        ),
        opt_target(r.session_defaults.image_generation_tool_model) == named_target(
            opt_target(config.session_defaults.image_generation_tool_model),
            config.models,
        ),
        r.session_defaults.compression_threshold_tokens
            == config.session_defaults.compression_threshold_tokens,
        r.session_defaults.compression_retain_recent_tokens
            == config.session_defaults.compression_retain_recent_tokens,
        r.session_defaults.search_image_tool_model
            == config.session_defaults.search_image_tool_model,
        r.session_defaults.search_video_tool_model
            == config.session_defaults.search_video_tool_model,
        r.session_defaults.search_news_tool_model
            == config.session_defaults.search_news_tool_model,
{
    let defaults: SessionDefaults = prefer_named_tool_model_targets(
        config.session_defaults,
        &config.models,
    );
    StellaclawConfig {
        version: "0.11".to_owned(),
        agent_server: config.agent_server,
        default_profile: config.default_profile,
        models: config.models,
        available_agent_models: config.available_agent_models,
        session_defaults: defaults,
        skill_sync: config.skill_sync,
        sandbox: config.sandbox,
        channels: config.channels,
    }
}

} // verus!

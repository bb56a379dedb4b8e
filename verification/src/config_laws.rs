//! Laws of configurations: which are valid, which models they offer, and which model a name
//! stands for.

use vstd::prelude::*;
use crate::config::{
    available_error, channels_error, chat_models, first_by_model_name, first_name_error,
    first_upstream_error, skill_entry_error, skill_name_error, skill_sync_error, upstream_error,
    ChannelConfig, ModelSelection, SelectionView, SkillSyncConfig, StellaclawConfig, TargetView,
    ToolModelTarget,
};
use crate::model::{ModelCapability, ModelConfig, ModelView};
use crate::text::{
    cut_is_at_the_first, is_ascii_word, is_space, trimmed, trimming_drops_the_space_around, views,
};
use crate::text_map::TextMap;

verus! {

/// Whether a text has no white space at its ends.
pub open spec fn is_tight(t: Seq<char>) -> bool {
    t.len() > 0 && !is_space(t[0]) && !is_space(t.last())
}

proof fn lemma_tight(t: Seq<char>)
    requires
        is_tight(t),
    ensures
        trimmed(t) == t,
{
    let e = Seq::<char>::empty();
    trimming_drops_the_space_around(e, t, e);
    assert(e + t + e =~= t);
}

// ---------------------------------------------------------------------------
// Models by name
// ---------------------------------------------------------------------------
/// A tool's model that is written out stands for itself, a name for the model that is
/// configured under it, and a name that ends in `:self` for the model of the session. A name
/// that no model has is an error.
pub proof fn tool_target_names_its_model(
    target: ToolModelTarget,
    models: TextMap<ModelConfig>,
    session_model: ModelView,
    alias: Seq<char>,
)
    requires
        is_tight(alias),
        !alias.contains(':'),
    ensures
        target@ matches TargetView::Inline(m) ==> target.resolved(models, session_model) == Ok::<
            ModelView,
            Seq<char>,
        >(m),
        target@ == TargetView::Alias(alias) && models@.contains_key(alias) ==> target.resolved(
            models,
            session_model,
        ) == Ok::<ModelView, Seq<char>>(models@[alias]@),
        target@ == TargetView::Alias(alias) && !models@.contains_key(alias) ==> target.resolved(
            models,
            session_model,
        ) is Err,
        target@ == TargetView::Alias(alias + ":self"@) ==> target.resolved(models, session_model)
            == Ok::<ModelView, Seq<char>>(session_model),
{
    let e = Seq::<char>::empty();
    reveal_strlit(":self");
    reveal_strlit("self");
    lemma_tight(alias);
    lemma_tight("self"@);
    let own = alias + ":self"@;
    lemma_tight(own);
    cut_is_at_the_first(alias, ':', "self"@);
    assert(alias + seq![':'] + "self"@ =~= own);
}

/// A selection by name is the model that is configured under the name; one that is written
/// out stands for itself.
pub proof fn selection_names_its_model(s: ModelSelection, models: TextMap<ModelConfig>)
    ensures
        s@ matches SelectionView::Inline(m) ==> s.resolved(models) == Some(m),
        s@ matches SelectionView::Alias(a) ==> models@.contains_key(a) ==> s.resolved(models)
            == Some(models@[a]@),
        s@ matches SelectionView::Alias(a) ==> !models@.contains_key(a) ==> s.resolved(models)
            is None,
{
}

/// A name under which a model is configured stands for that model, before any other that the
/// name could mean.
pub proof fn configured_name_comes_first(config: StellaclawConfig, name: Seq<char>)
    requires
        config.models@.contains_key(name),
    ensures
        config.selection_alias(SelectionView::Alias(name)) == Some(name),
        config.default_profile matches Some(p) && p.main_model@ == SelectionView::Alias(name)
            ==> config.initial_name() == Some(name) && config.initial_model() == Some(
            config.models@[name]@,
        ),
{
}

proof fn lemma_first_named(entries: Seq<(String, ModelConfig)>, name: Seq<char>, i: int) -> (k: int)
    requires
        0 <= i <= entries.len(),
    ensures
        i <= k <= entries.len(),
        forall|j: int| i <= j < k ==> (#[trigger] entries[j]).1.model_name@ != name,
        k < entries.len() ==> entries[k].1.model_name@ == name && first_by_model_name(
            entries,
            name,
            i,
        ) == Some(entries[k].0@),
        k == entries.len() ==> first_by_model_name(entries, name, i) is None,
    decreases entries.len() - i,
{
    if i < entries.len() && entries[i].1.model_name@ != name {
        lemma_first_named(entries, name, i + 1)
    } else {
        i
    }
}

/// A name under which nothing is configured stands for the first model that a service knows
/// by that name.
pub proof fn unknown_name_is_that_of_a_service(config: StellaclawConfig, name: Seq<char>) -> (k: int)
    requires
        !config.models@.contains_key(name),
    ensures
        0 <= k <= config.models.entries@.len(),
        forall|j: int|
            0 <= j < k ==> (#[trigger] config.models.entries@[j]).1.model_name@ != name,
        k < config.models.entries@.len() ==> config.models.entries@[k].1.model_name@ == name
            && config.selection_alias(SelectionView::Alias(name)) == Some(
            config.models.entries@[k].0@,
        ),
        k == config.models.entries@.len() ==> config.selection_alias(SelectionView::Alias(name))
            is None,
{
    lemma_first_named(config.models.entries@, name, 0)
}

// ---------------------------------------------------------------------------
// What is offered
// ---------------------------------------------------------------------------
proof fn lemma_chat_models(entries: Seq<(String, ModelConfig)>, n: int, i: int)
    requires
        0 <= i < n <= entries.len(),
    ensures
        entries[i].1.capabilities@.contains(ModelCapability::Chat) ==> chat_models(
            entries,
            n,
        ).contains((entries[i].0@, entries[i].1@)),
    decreases n,
{
    let r = chat_models(entries, n);
    let x = (entries[i].0@, entries[i].1@);
    if entries[i].1.capabilities@.contains(ModelCapability::Chat) {
        if i == n - 1 {
            assert(r[r.len() - 1] == x);
        } else {
            lemma_chat_models(entries, n - 1, i);
            let rest = chat_models(entries, n - 1);
            let k = choose|k: int| 0 <= k < rest.len() && rest[k] == x;
            assert(r[k] == x);
        }
    }
}

proof fn lemma_chat_models_back(entries: Seq<(String, ModelConfig)>, n: int, k: int)
    requires
        0 <= n <= entries.len(),
        0 <= k < chat_models(entries, n).len(),
    ensures
        exists|i: int|
            0 <= i < n && chat_models(entries, n)[k] == ((#[trigger] entries[i]).0@, entries[i].1@)
                && entries[i].1.capabilities@.contains(ModelCapability::Chat),
    decreases n,
{
    if n > 0 {
        let rest = chat_models(entries, n - 1);
        if k < rest.len() {
            lemma_chat_models_back(entries, n - 1, k);
            let i = choose|i: int|
                0 <= i < n - 1 && rest[k] == ((#[trigger] entries[i]).0@, entries[i].1@)
                    && entries[i].1.capabilities@.contains(ModelCapability::Chat);
            assert(chat_models(entries, n)[k] == (entries[i].0@, entries[i].1@));
        } else {
            assert(chat_models(entries, n)[k] == (entries[n - 1].0@, entries[n - 1].1@));
        }
    }
}

/// Where no models are listed, those that can chat are offered, all of them and no others,
/// each under its own name.
pub proof fn chat_models_are_offered(config: StellaclawConfig, i: int, k: int)
    requires
        config.available_agent_models@.len() == 0,
        0 <= i < config.models.entries@.len(),
        0 <= k < config.available().len(),
    ensures
        config.models.entries@[i].1.capabilities@.contains(ModelCapability::Chat)
            ==> config.available().contains(
            (config.models.entries@[i].0@, config.models.entries@[i].1@),
        ),
        exists|j: int|
            0 <= j < config.models.entries@.len() && config.available()[k] == (
                (#[trigger] config.models.entries@[j]).0@,
                config.models.entries@[j].1@,
            ) && config.models.entries@[j].1.capabilities@.contains(ModelCapability::Chat),
{
    let entries = config.models.entries@;
    lemma_chat_models(entries, entries.len() as int, i);
    lemma_chat_models_back(entries, entries.len() as int, k);
}

// ---------------------------------------------------------------------------
// What is valid
// ---------------------------------------------------------------------------
/// Whether a text is a name for a skill.
pub open spec fn is_skill_name(s: Seq<char>) -> bool {
    s.len() > 0 && forall|i: int|
        0 <= i < s.len() ==> is_ascii_word(#[trigger] s[i]) || s[i] == '_' || s[i] == '-'
}

/// Whether a text is an address without white space.
pub open spec fn is_upstream(s: Seq<char>) -> bool {
    s.len() > 0 && forall|i: int| 0 <= i < s.len() ==> !is_space(#[trigger] s[i])
}

proof fn lemma_trimmed_empty(s: Seq<char>)
    ensures
        s.len() == 0 ==> trimmed(s).len() == 0,
{
    let e = Seq::<char>::empty();
    trimming_drops_the_space_around(e, e, e);
    assert(e + e + e =~= e);
    if s.len() == 0 {
        assert(s =~= e);
    }
}

/// The names of skills are letters, digits, `_` and `-`, and upstreams hold no white space.
pub proof fn skill_names_and_upstreams_are_plain(s: Seq<char>)
    ensures
        skill_name_error(s) is None <==> is_skill_name(s),
        upstream_error(s) is None <==> is_upstream(s),
{
    lemma_trimmed_empty(s);
    if is_skill_name(s) {
        assert(is_ascii_word(s[0]) || s[0] == '_' || s[0] == '-');
        let n = s.len() - 1;
        assert(is_ascii_word(s[n]) || s[n] == '_' || s[n] == '-');
        lemma_tight(s);
    }
    if is_upstream(s) {
        let n = s.len() - 1;
        assert(!is_space(s[0]) && !is_space(s[n]));
        lemma_tight(s);
    }
}

proof fn lemma_names(names: Seq<Seq<char>>, i: int)
    requires
        0 <= i <= names.len(),
    ensures
        first_name_error(names, i) is None <==> forall|k: int|
            i <= k < names.len() ==> is_skill_name(#[trigger] names[k]),
        first_upstream_error(names, i) is None <==> forall|k: int|
            i <= k < names.len() ==> is_upstream(#[trigger] names[k]),
    decreases names.len() - i,
{
    if i < names.len() {
        skill_names_and_upstreams_are_plain(names[i]);
        lemma_names(names, i + 1);
    }
}

/// Whether an entry of the skills is complete.
pub open spec fn is_skill_entry(e: SkillSyncConfig) -> bool {
    &&& e.skill_name@.len() > 0
    &&& e.upstream@.len() > 0
    &&& forall|k: int| 0 <= k < e.skill_name@.len() ==> is_skill_name((#[trigger] e.skill_name@[k])@)
    &&& forall|k: int| 0 <= k < e.upstream@.len() ==> is_upstream((#[trigger] e.upstream@[k])@)
}

proof fn lemma_skill_entry(index: nat, e: SkillSyncConfig)
    ensures
        skill_entry_error(index, e) is None <==> is_skill_entry(e),
{
    let (n, u) = (views(e.skill_name@), views(e.upstream@));
    lemma_names(n, 0);
    lemma_names(u, 0);
    if is_skill_entry(e) {
        assert forall|k: int| 0 <= k < n.len() implies is_skill_name(#[trigger] n[k]) by {
            assert(is_skill_name(e.skill_name@[k]@));
        }
        assert forall|k: int| 0 <= k < u.len() implies is_upstream(#[trigger] u[k]) by {
            assert(is_upstream(e.upstream@[k]@));
        }
    } else if skill_entry_error(index, e) is None {
        assert forall|k: int| 0 <= k < e.skill_name@.len() implies is_skill_name(
            (#[trigger] e.skill_name@[k])@,
        ) by {
            assert(is_skill_name(n[k]));
        }
        assert forall|k: int| 0 <= k < e.upstream@.len() implies is_upstream(
            (#[trigger] e.upstream@[k])@,
        ) by {
            assert(is_upstream(u[k]));
        }
    }
}

proof fn lemma_skills(entries: Seq<SkillSyncConfig>, i: int)
    requires
        0 <= i <= entries.len(),
    ensures
        skill_sync_error(entries, i) is None <==> forall|k: int|
            i <= k < entries.len() ==> is_skill_entry(#[trigger] entries[k]),
    decreases entries.len() - i,
{
    if i < entries.len() {
        lemma_skill_entry(i as nat, entries[i]);
        lemma_skills(entries, i + 1);
    }
}

/// Whether a channel states all that it needs.
pub open spec fn is_complete_channel(c: ChannelConfig) -> bool {
    match c {
        ChannelConfig::Web(w) => trimmed(w.id@).len() > 0 && trimmed(w.bind_addr@).len() > 0
            && trimmed(w.token_env@).len() > 0,
        ChannelConfig::Telegram(_) => true,
    }
}

proof fn lemma_channels(channels: Seq<ChannelConfig>, i: int)
    requires
        0 <= i <= channels.len(),
    ensures
        channels_error(channels, i) is None <==> forall|k: int|
            i <= k < channels.len() ==> is_complete_channel(#[trigger] channels[k]),
    decreases channels.len() - i,
{
    if i < channels.len() {
        lemma_channels(channels, i + 1);
    }
}

/// Whether a listed model is configured and can chat.
pub open spec fn is_chat_model(models: TextMap<ModelConfig>, name: Seq<char>) -> bool {
    models@.contains_key(name) && models@[name].capabilities@.contains(ModelCapability::Chat)
}

proof fn lemma_listed(models: TextMap<ModelConfig>, names: Seq<Seq<char>>, i: int)
    requires
        0 <= i <= names.len(),
    ensures
        available_error(models, names, i) is None <==> forall|k: int|
            i <= k < names.len() ==> is_chat_model(models, #[trigger] names[k]),
    decreases names.len() - i,
{
    if i < names.len() {
        lemma_listed(models, names, i + 1);
    }
}

/// A configuration is valid if and only if it is of the current version, has a channel and a
/// model, lists only models that are configured and can chat and offers at least one, and its
/// sandbox, its channels and its skills are complete.
pub proof fn configuration_is_valid_iff_complete(c: StellaclawConfig)
    ensures
        c.error() is None <==> {
            &&& c.version@ == "0.11"@
            &&& c.channels@.len() > 0
            &&& c.models.entries@.len() > 0
            &&& forall|k: int|
                0 <= k < c.available_agent_models@.len() ==> is_chat_model(
                    c.models,
                    (#[trigger] c.available_agent_models@[k])@,
                )
            &&& c.available().len() > 0
            &&& trimmed(c.sandbox.bubblewrap_binary@).len() > 0
            &&& c.sandbox.software_dir matches Some(d) ==> trimmed(d@).len() > 0
            &&& trimmed(c.sandbox.software_mount_path@).len() > 0 && trimmed(
                c.sandbox.software_mount_path@,
            )[0] == '/'
            &&& forall|k: int|
                0 <= k < c.channels@.len() ==> is_complete_channel(#[trigger] c.channels@[k])
            &&& forall|k: int|
                0 <= k < c.skill_sync@.len() ==> is_skill_entry(#[trigger] c.skill_sync@[k])
        },
{
    let names = views(c.available_agent_models@);
    lemma_listed(c.models, names, 0);
    lemma_channels(c.channels@, 0);
    lemma_skills(c.skill_sync@, 0);
    if forall|k: int|
        0 <= k < c.available_agent_models@.len() ==> is_chat_model(
            c.models,
            (#[trigger] c.available_agent_models@[k])@,
        ) {
        assert forall|k: int| 0 <= k < names.len() implies is_chat_model(
            c.models,
            #[trigger] names[k],
        ) by {
            assert(is_chat_model(c.models, c.available_agent_models@[k]@));
        }
    }
    if available_error(c.models, names, 0) is None {
        assert forall|k: int| 0 <= k < c.available_agent_models@.len() implies is_chat_model(
            c.models,
            (#[trigger] c.available_agent_models@[k])@,
        ) by {
            assert(is_chat_model(c.models, names[k]));
        }
    }
}

} // verus!

//! The configuration: channels, models, sandbox, and what makes it valid.

use vstd::prelude::*;
use crate::model::{ModelCapability, ModelConfig, ModelView};
use crate::number::{decimal, decimal_usize};
use crate::text::{
    cat2, cat3, cat4, cat5, char_is_ascii_word, char_is_space, chars_of, is_ascii_word, is_blank,
    is_space, opt_str_view, opt_view, split_once, split_once_seq, text_eq, trim, trimmed, views,
    ends_with_char,
};
use crate::text_map::TextMap;

verus! {

pub const LEGACY_CONFIG_VERSION: &'static str = "0.1";

pub const CONFIG_VERSION_0_2: &'static str = "0.2";

pub const CONFIG_VERSION_0_3: &'static str = "0.3";

pub const CONFIG_VERSION_0_4: &'static str = "0.4";

pub const CONFIG_VERSION_0_5: &'static str = "0.5";

pub const CONFIG_VERSION_0_6: &'static str = "0.6";

pub const CONFIG_VERSION_0_7: &'static str = "0.7";

pub const CONFIG_VERSION_0_8: &'static str = "0.8";

pub const CONFIG_VERSION_0_9: &'static str = "0.9";

pub const CONFIG_VERSION_0_10: &'static str = "0.10";

pub const LATEST_CONFIG_VERSION: &'static str = "0.11";

/// The whole configuration.
#[derive(Debug)]
pub struct StellaclawConfig {
    pub version: String,
    pub agent_server: AgentServerConfig,
    pub default_profile: Option<SessionProfile>,
    pub models: TextMap<ModelConfig>,
    pub available_agent_models: Vec<String>,
    pub session_defaults: SessionDefaults,
    pub skill_sync: Vec<SkillSyncConfig>,
    pub sandbox: SandboxConfig,
    pub channels: Vec<ChannelConfig>,
}

#[derive(Debug)]
pub struct AgentServerConfig {
    pub path: Option<String>,
}

#[derive(Debug)]
pub struct SkillSyncConfig {
    pub skill_name: Vec<String>,
    pub upstream: Vec<String>,
}

#[derive(Debug)]
pub struct SessionProfile {
    pub main_model: ModelSelection,
}

/// A model by its name in the configuration, or written out.
#[derive(Debug)]
pub enum ModelSelection {
    Alias(String),
    Inline(ModelConfig),
}

#[derive(Debug)]
pub struct SessionDefaults {
    pub compression_threshold_tokens: Option<u64>,
    pub compression_retain_recent_tokens: Option<u64>,
    pub image_tool_model: Option<ToolModelTarget>,
    pub pdf_tool_model: Option<ToolModelTarget>,
    pub audio_tool_model: Option<ToolModelTarget>,
    pub image_generation_tool_model: Option<ToolModelTarget>,
    pub search_tool_model: Option<ToolModelTarget>,
    pub search_image_tool_model: Option<ToolModelTarget>,
    pub search_video_tool_model: Option<ToolModelTarget>,
    pub search_news_tool_model: Option<ToolModelTarget>,
}

/// The model that a tool uses. An alias may end in `:self`, which asks for the model of
/// the session.
#[derive(Debug)]
pub enum ToolModelTarget {
    Alias(String),
    Inline(ModelConfig),
}

#[derive(Clone, Copy, Debug, PartialEq, Eq, Structural)]
pub enum SandboxMode {
    Subprocess,
    Bubblewrap,
}

impl Default for SandboxMode {
    fn default() -> (r: Self)
        ensures
            r == SandboxMode::Subprocess,
    {
        SandboxMode::Subprocess
    }
}

#[derive(Debug)]
pub struct SandboxConfig {
    pub mode: SandboxMode,
    pub bubblewrap_binary: String,
    pub software_dir: Option<String>,
    pub software_mount_path: String,
}

impl Default for SandboxConfig {
    fn default() -> (r: Self)
        ensures
            r.mode == SandboxMode::Subprocess,
            r.bubblewrap_binary@ == "bwrap"@,
            r.software_dir is None,
            r.software_mount_path@ == "/opt"@,
    {
        SandboxConfig {
            mode: SandboxMode::Subprocess,
            bubblewrap_binary: default_bubblewrap_binary(),
            software_dir: None,
            software_mount_path: default_software_mount_path(),
        }
    }
}

#[derive(Debug)]
pub enum ChannelConfig {
    Telegram(TelegramChannelConfig),
    Web(WebChannelConfig),
}

#[derive(Debug)]
pub struct TelegramChannelConfig {
    pub id: String,
    pub bot_token: Option<String>,
    pub bot_token_env: String,
    pub api_base_url: String,
    pub poll_timeout_seconds: u64,
    pub poll_interval_ms: u64,
    pub admin_user_ids: Vec<i64>,
}

#[derive(Debug)]
pub struct WebChannelConfig {
    pub id: String,
    pub bind_addr: String,
    pub token_env: String,
}

// ---------------------------------------------------------------------------
// Models
// ---------------------------------------------------------------------------
pub enum SelectionView {
    Alias(Seq<char>),
    Inline(ModelView),
}

pub open spec fn opt_model(m: Option<ModelConfig>) -> Option<ModelView> {
    match m {
        Some(m) => Some(m@),
        None => None,
    }
}

/// The model of a name.
pub open spec fn lookup(models: TextMap<ModelConfig>, name: Seq<char>) -> Option<ModelView> {
    if models@.contains_key(name) {
        Some(models@[name]@)
    } else {
        None
    }
}

fn lookup_model(models: &TextMap<ModelConfig>, name: &str) -> (r: Option<ModelConfig>)
    requires
        models.wf(),
    ensures
        opt_model(r) == lookup(*models, name@),
{
    match models.get(name) {
        Some(m) => Some(m.copy()),
        None => None,
    }
}

impl ModelSelection {
    pub open spec fn view(self) -> SelectionView {
        match self {
            ModelSelection::Alias(a) => SelectionView::Alias(a@),
            ModelSelection::Inline(m) => SelectionView::Inline(m@),
        }
    }

    pub fn alias(alias: &str) -> (r: Self)
        ensures
            r@ == SelectionView::Alias(alias@),
    {
        ModelSelection::Alias(alias.to_owned())
    }

    pub open spec fn resolved(self, models: TextMap<ModelConfig>) -> Option<ModelView> {
        match self@ {
            SelectionView::Alias(a) => lookup(models, a),
            SelectionView::Inline(m) => Some(m),
        }
    }

    /// The selected model, if there is one of that name.
    pub fn resolve(&self, models: &TextMap<ModelConfig>) -> (r: Option<ModelConfig>)
        requires
            models.wf(),
        ensures
            opt_model(r) == self.resolved(*models),
    {
        match self {
            ModelSelection::Alias(a) => lookup_model(models, a.as_str()),
            ModelSelection::Inline(m) => Some(m.copy()),
        }
    }

    /// The name to show: that of the model, or the alias of an unknown one.
    pub fn display_name(&self, models: &TextMap<ModelConfig>) -> (r: String)
        requires
            models.wf(),
        ensures
            r@ == match self@ {
                SelectionView::Alias(a) => match lookup(*models, a) {
                    Some(m) => m.model_name,
                    None => a,
                },
                SelectionView::Inline(m) => m.model_name,
            },
    {
        match self {
            ModelSelection::Alias(a) => match models.get(a.as_str()) {
                Some(m) => m.model_name.clone(),
                None => a.clone(),
            },
            ModelSelection::Inline(m) => m.model_name.clone(),
        }
    }

    pub fn alias_name(&self) -> (r: Option<&str>)
        ensures
            opt_str_view(r) == match self@ {
                SelectionView::Alias(a) => Some(a),
                SelectionView::Inline(_) => None,
            },
    {
        match self {
            ModelSelection::Alias(a) => Some(a.as_str()),
            ModelSelection::Inline(_) => None,
        }
    }
}

/// What a tool model target says: its alias and whether it asks for the session's
/// model; or why it cannot be read.
pub open spec fn target_parts(raw: Seq<char>) -> Result<(Seq<char>, bool), Seq<char>> {
    if trimmed(raw).len() == 0 {
        Err("tool model target must not be empty"@)
    } else {
        match split_once_seq(raw, ':') {
            Some((alias, suffix)) => if trimmed(suffix) != "self"@ {
                Err(
                    "unsupported tool model target suffix '"@ + trimmed(suffix)
                        + "'; expected ':self'"@,
                )
            } else if trimmed(alias).len() == 0 {
                Err("tool model target alias must not be empty"@)
            } else {
                Ok((trimmed(alias), true))
            },
            None => Ok((trimmed(raw), false)),
        }
    }
}

pub open spec fn result_text<T>(r: Result<T, String>) -> Option<Seq<char>> {
    match r {
        Ok(_) => None,
        Err(e) => Some(e@),
    }
}

pub fn parse_tool_model_target(raw: &str) -> (r: Result<(&str, bool), String>)
    ensures
        match (r, target_parts(raw@)) {
            (Ok(p), Ok(q)) => p.0@ == q.0 && p.1 == q.1,
            (Err(e), Err(f)) => e@ == f,
            _ => false,
        },
{
    if is_blank(raw) {
        return Err("tool model target must not be empty".to_owned());
    }
    match split_once(raw, ':') {
        Some((alias, suffix)) => {
            let suffix: &str = trim(suffix);
            if !text_eq(suffix, "self") {
                return Err(
                    cat3("unsupported tool model target suffix '", suffix, "'; expected ':self'"),
                );
            }
            let alias: &str = trim(alias);
            if alias.is_empty() {
                return Err("tool model target alias must not be empty".to_owned());
            }
            Ok((alias, true))
        },
        None => Ok((trim(raw), false)),
    }
}

pub enum TargetView {
    Alias(Seq<char>),
    Inline(ModelView),
}

impl ToolModelTarget {
    pub open spec fn view(self) -> TargetView {
        match self {
            ToolModelTarget::Alias(a) => TargetView::Alias(a@),
            ToolModelTarget::Inline(m) => TargetView::Inline(m@),
        }
    }

    pub fn inline(model_config: ModelConfig) -> (r: Self)
        ensures
            r@ == TargetView::Inline(model_config@),
    {
        ToolModelTarget::Inline(model_config)
    }

    pub open spec fn resolved(self, models: TextMap<ModelConfig>, session_model: ModelView) -> Result<
        ModelView,
        Seq<char>,
    > {
        match self@ {
            TargetView::Inline(m) => Ok(m),
            TargetView::Alias(raw) => match target_parts(raw) {
                Err(e) => Err(e),
                Ok((alias, prefer_self)) => if prefer_self {
                    Ok(session_model)
                } else {
                    match lookup(models, alias) {
                        Some(m) => Ok(m),
                        None => Err("unknown tool model alias '"@ + alias + "'"@),
                    }
                },
            },
        }
    }

    /// The model that the target stands for in a session.
    pub fn resolve(&self, models: &TextMap<ModelConfig>, session_model: &ModelConfig) -> (r: Result<
        ModelConfig,
        String,
    >)
        requires
            models.wf(),
        ensures
            match (r, self.resolved(*models, session_model@)) {
                (Ok(m), Ok(n)) => m@ == n,
                (Err(e), Err(f)) => e@ == f,
                _ => false,
            },
    {
        match self {
            ToolModelTarget::Inline(m) => Ok(m.copy()),
            ToolModelTarget::Alias(raw) => match parse_tool_model_target(raw.as_str()) {
                Err(e) => Err(e),
                Ok((alias, prefer_self)) => {
                    if prefer_self {
                        return Ok(session_model.copy());
                    }
                    match lookup_model(models, alias) {
                        Some(m) => Ok(m),
                        None => Err(cat3("unknown tool model alias '", alias, "'")),
                    }
                },
            },
        }
    }
}

// ---------------------------------------------------------------------------
// Validity
// ---------------------------------------------------------------------------
/// Why a name of a skill is refused.
pub open spec fn skill_name_error(s: Seq<char>) -> Option<Seq<char>> {
    if trimmed(s).len() == 0 {
        Some("skill name must not be empty"@)
    } else if trimmed(s) != s {
        Some("skill name must not contain leading or trailing whitespace"@)
    } else if exists|i: int|
        0 <= i < s.len() && !(is_ascii_word(#[trigger] s[i]) || s[i] == '_' || s[i] == '-') {
        Some("skill name may only contain ASCII letters, digits, '_' and '-'"@)
    } else {
        None
    }
}

pub fn validate_skill_sync_name(skill_name: &str) -> (r: Result<(), &'static str>)
    ensures
        match r {
            Ok(_) => skill_name_error(skill_name@) is None,
            Err(e) => skill_name_error(skill_name@) == Some(e@),
        },
{
    let name: &str = trim(skill_name);
    if name.is_empty() {
        return Err("skill name must not be empty");
    }
    if !text_eq(name, skill_name) {
        return Err("skill name must not contain leading or trailing whitespace");
    }
    let chars: Vec<char> = chars_of(name);
    let mut i: usize = 0;
    while i < chars.len()
        invariant
            i <= chars@.len(),
            chars@ == skill_name@,
            trimmed(skill_name@) == skill_name@,
            skill_name@.len() > 0,
            forall|j: int|
                0 <= j < i ==> is_ascii_word(#[trigger] chars@[j]) || chars@[j] == '_' || chars@[j]
                    == '-',
        decreases chars@.len() - i,
    {
        if !(char_is_ascii_word(chars[i]) || chars[i] == '_' || chars[i] == '-') {
            assert(!is_ascii_word(skill_name@[i as int]));
            return Err("skill name may only contain ASCII letters, digits, '_' and '-'");
        }
        i += 1;
    }
    Ok(())
}

/// Why the address of an upstream is refused.
pub open spec fn upstream_error(s: Seq<char>) -> Option<Seq<char>> {
    if trimmed(s).len() == 0 {
        Some("upstream must not be empty"@)
    } else if trimmed(s) != s {
        Some("upstream must not contain leading or trailing whitespace"@)
    } else if exists|i: int| 0 <= i < s.len() && is_space(#[trigger] s[i]) {
        Some("upstream must not contain whitespace"@)
    } else {
        None
    }
}

pub fn validate_skill_sync_upstream(upstream: &str) -> (r: Result<(), &'static str>)
    ensures
        match r {
            Ok(_) => upstream_error(upstream@) is None,
            Err(e) => upstream_error(upstream@) == Some(e@),
        },
{
    let name: &str = trim(upstream);
    if name.is_empty() {
        return Err("upstream must not be empty");
    }
    if !text_eq(name, upstream) {
        return Err("upstream must not contain leading or trailing whitespace");
    }
    let chars: Vec<char> = chars_of(name);
    let mut i: usize = 0;
    while i < chars.len()
        invariant
            i <= chars@.len(),
            chars@ == upstream@,
            trimmed(upstream@) == upstream@,
            upstream@.len() > 0,
            forall|j: int| 0 <= j < i ==> !is_space(#[trigger] chars@[j]),
        decreases chars@.len() - i,
    {
        if char_is_space(chars[i]) {
            assert(is_space(upstream@[i as int]));
            return Err("upstream must not contain whitespace");
        }
        i += 1;
    }
    Ok(())
}

/// The first refusal in a list, from index `i` on.
pub open spec fn first_name_error(names: Seq<Seq<char>>, i: int) -> Option<Seq<char>>
    decreases names.len() - i,
{
    if i < 0 || i >= names.len() {
        None
    } else if skill_name_error(names[i]) is Some {
        skill_name_error(names[i])
    } else {
        first_name_error(names, i + 1)
    }
}

pub open spec fn first_upstream_error(names: Seq<Seq<char>>, i: int) -> Option<Seq<char>>
    decreases names.len() - i,
{
    if i < 0 || i >= names.len() {
        None
    } else if upstream_error(names[i]) is Some {
        upstream_error(names[i])
    } else {
        first_upstream_error(names, i + 1)
    }
}

/// Why an entry for synchronised skills is refused.
pub open spec fn skill_entry_error(index: nat, e: SkillSyncConfig) -> Option<Seq<char>> {
    let at = "skill_sync["@ + decimal(index);
    if e.skill_name@.len() == 0 {
        Some(at + "].skill_name must not be empty"@)
    } else if e.upstream@.len() == 0 {
        Some(at + "].upstream must not be empty"@)
    } else {
        match first_name_error(views(e.skill_name@), 0) {
            Some(why) => Some(at + "].skill_name: "@ + why),
            None => match first_upstream_error(views(e.upstream@), 0) {
                Some(why) => Some(at + "].upstream: "@ + why),
                None => None,
            },
        }
    }
}

pub open spec fn skill_sync_error(entries: Seq<SkillSyncConfig>, i: int) -> Option<Seq<char>>
    decreases entries.len() - i,
{
    if i < 0 || i >= entries.len() {
        None
    } else if skill_entry_error(i as nat, entries[i]) is Some {
        skill_entry_error(i as nat, entries[i])
    } else {
        skill_sync_error(entries, i + 1)
    }
}

fn check_names(names: &Vec<String>) -> (r: Option<&'static str>)
    ensures
        opt_str_view(r) == first_name_error(views(names@), 0),
{
    let mut i: usize = 0;
    while i < names.len()
        invariant
            i <= names@.len(),
            first_name_error(views(names@), i as int) == first_name_error(views(names@), 0),
        decreases names@.len() - i,
    {
        assert(views(names@)[i as int] == names@[i as int]@);
        match validate_skill_sync_name(names[i].as_str()) {
            Ok(_) => {},
            Err(e) => {
                return Some(e);
            },
        }
        i += 1;
    }
    None
}

fn check_upstreams(names: &Vec<String>) -> (r: Option<&'static str>)
    ensures
        opt_str_view(r) == first_upstream_error(views(names@), 0),
{
    let mut i: usize = 0;
    while i < names.len()
        invariant
            i <= names@.len(),
            first_upstream_error(views(names@), i as int) == first_upstream_error(
                views(names@),
                0,
            ),
        decreases names@.len() - i,
    {
        assert(views(names@)[i as int] == names@[i as int]@);
        match validate_skill_sync_upstream(names[i].as_str()) {
            Ok(_) => {},
            Err(e) => {
                return Some(e);
            },
        }
        i += 1;
    }
    None
}

fn check_skill_entry(index: usize, entry: &SkillSyncConfig) -> (r: Option<String>)
    ensures
        opt_view(r) == skill_entry_error(index as nat, *entry),
{
    let number: String = decimal_usize(index);
    let at: String = cat2("skill_sync[", number.as_str());
    if entry.skill_name.len() == 0 {
        return Some(cat2(at.as_str(), "].skill_name must not be empty"));
    }
    if entry.upstream.len() == 0 {
        return Some(cat2(at.as_str(), "].upstream must not be empty"));
    }
    match check_names(&entry.skill_name) {
        Some(why) => Some(cat3(at.as_str(), "].skill_name: ", why)),
        None => match check_upstreams(&entry.upstream) {
            Some(why) => Some(cat3(at.as_str(), "].upstream: ", why)),
            None => None,
        },
    }
}

pub fn validate_skill_sync(entries: &Vec<SkillSyncConfig>) -> (r: Result<(), String>)
    ensures
        result_text(r) == skill_sync_error(entries@, 0),
{
    let mut i: usize = 0;
    while i < entries.len()
        invariant
            i <= entries@.len(),
            skill_sync_error(entries@, i as int) == skill_sync_error(entries@, 0),
        decreases entries@.len() - i,
    {
        match check_skill_entry(i, &entries[i]) {
            Some(e) => {
                return Err(e);
            },
            None => {},
        }
        i += 1;
    }
    Ok(())
}

/// Whether a path starts at the root.
pub open spec fn is_absolute(path: Seq<char>) -> bool {
    path.len() > 0 && path[0] == '/'
}

pub fn path_is_absolute(path: &str) -> (b: bool)
    ensures
        b == is_absolute(path@),
{
    !path.is_empty() && path.get_char(0) == '/'
}

/// A path below a directory; an absolute path stands for itself.
pub open spec fn joined(base: Seq<char>, path: Seq<char>) -> Seq<char> {
    if is_absolute(path) || base.len() == 0 {
        path
    } else if base.last() == '/' {
        base + path
    } else {
        base + "/"@ + path
    }
}

pub fn join_path(base: &str, path: &str) -> (r: String)
    ensures
        r@ == joined(base@, path@),
{
    if path_is_absolute(path) || base.is_empty() {
        path.to_owned()
    } else if ends_with_char(base, '/') {
        cat2(base, path)
    } else {
        cat3(base, "/", path)
    }
}

impl SandboxConfig {
    /// Why the sandbox settings are refused.
    pub open spec fn error(self) -> Option<Seq<char>> {
        if trimmed(self.bubblewrap_binary@).len() == 0 {
            Some("sandbox.bubblewrap_binary must not be empty"@)
        } else if opt_view(self.software_dir) matches Some(dir) && trimmed(dir).len() == 0 {
            Some("sandbox.software_dir must not be empty when set"@)
        } else if trimmed(self.software_mount_path@).len() == 0 {
            Some("sandbox.software_mount_path must not be empty"@)
        } else if !is_absolute(trimmed(self.software_mount_path@)) {
            Some("sandbox.software_mount_path must be an absolute path"@)
        } else {
            None
        }
    }

    pub fn validate(&self) -> (r: Result<(), String>)
        ensures
            result_text(r) == self.error(),
    {
        if is_blank(self.bubblewrap_binary.as_str()) {
            return Err("sandbox.bubblewrap_binary must not be empty".to_owned());
        }
        match &self.software_dir {
            Some(dir) => {
                if is_blank(dir.as_str()) {
                    return Err("sandbox.software_dir must not be empty when set".to_owned());
                }
            },
            None => {},
        }
        let mount_path: &str = trim(self.software_mount_path.as_str());
        if mount_path.is_empty() {
            return Err("sandbox.software_mount_path must not be empty".to_owned());
        }
        if !path_is_absolute(mount_path) {
            return Err("sandbox.software_mount_path must be an absolute path".to_owned());
        }
        Ok(())
    }
}

impl WebChannelConfig {
    /// Why a web channel is refused.
    pub open spec fn error(self) -> Option<Seq<char>> {
        if trimmed(self.id@).len() == 0 {
            Some("web channel id must not be empty"@)
        } else if trimmed(self.bind_addr@).len() == 0 {
            Some("web channel "@ + self.id@ + " bind_addr must not be empty"@)
        } else if trimmed(self.token_env@).len() == 0 {
            Some("web channel "@ + self.id@ + " token_env must not be empty"@)
        } else {
            None
        }
    }

    pub fn validate(&self) -> (r: Result<(), String>)
        ensures
            result_text(r) == self.error(),
    {
        if is_blank(self.id.as_str()) {
            return Err("web channel id must not be empty".to_owned());
        }
        if is_blank(self.bind_addr.as_str()) {
            return Err(cat3("web channel ", self.id.as_str(), " bind_addr must not be empty"));
        }
        if is_blank(self.token_env.as_str()) {
            return Err(cat3("web channel ", self.id.as_str(), " token_env must not be empty"));
        }
        Ok(())
    }

    /// The token of the channel, given the value of its environment variable.
    pub fn resolve_token(&self, env_value: Option<&str>) -> (r: Result<String, String>)
        ensures
            match (r, env_value) {
                (Ok(token), Some(value)) => token@ == value@,
                (Err(e), None) => e@ == "web channel "@ + self.id@ + " requires env "@
                    + self.token_env@ + " for Authorization token"@,
                _ => false,
            },
    {
        match env_value {
            Some(value) => Ok(value.to_owned()),
            None => Err(
                cat5(
                    "web channel ",
                    self.id.as_str(),
                    " requires env ",
                    self.token_env.as_str(),
                    " for Authorization token",
                ),
            ),
        }
    }
}

impl TelegramChannelConfig {
    /// The token of the bot: the configured one, else the value of its environment
    /// variable.
    pub fn resolve_bot_token(&self, env_value: Option<&str>) -> (r: Result<String, String>)
        ensures
            match (r, opt_view(self.bot_token)) {
                (Ok(token), Some(own)) => if trimmed(own).len() > 0 {
                    token@ == own
                } else {
                    opt_str_view(env_value) == Some(token@)
                },
                (Ok(token), None) => opt_str_view(env_value) == Some(token@),
                (Err(e), own) => env_value is None && (own matches Some(t) ==> trimmed(t).len()
                    == 0) && e@ == "telegram channel "@ + self.id@ + " requires bot_token or env "@
                    + self.bot_token_env@,
            },
    {
        match &self.bot_token {
            Some(token) => {
                if !is_blank(token.as_str()) {
                    return Ok(token.clone());
                }
            },
            None => {},
        }
        match env_value {
            Some(value) => Ok(value.to_owned()),
            None => Err(
                cat4(
                    "telegram channel ",
                    self.id.as_str(),
                    " requires bot_token or env ",
                    self.bot_token_env.as_str(),
                ),
            ),
        }
    }
}

pub open spec fn channel_error(c: ChannelConfig) -> Option<Seq<char>> {
    match c {
        ChannelConfig::Web(w) => w.error(),
        ChannelConfig::Telegram(_) => None,
    }
}

pub open spec fn channels_error(channels: Seq<ChannelConfig>, i: int) -> Option<Seq<char>>
    decreases channels.len() - i,
{
    if i < 0 || i >= channels.len() {
        None
    } else if channel_error(channels[i]) is Some {
        channel_error(channels[i])
    } else {
        channels_error(channels, i + 1)
    }
}

pub open spec fn can_chat(m: ModelView) -> bool {
    m.capabilities.contains(ModelCapability::Chat)
}

/// Why the list of available models is refused, from index `i` on.
pub open spec fn available_error(
    models: TextMap<ModelConfig>,
    names: Seq<Seq<char>>,
    i: int,
) -> Option<Seq<char>>
    decreases names.len() - i,
{
    if i < 0 || i >= names.len() {
        None
    } else {
        match lookup(models, names[i]) {
            None => Some("available_agent_models references unknown model "@ + names[i]),
            Some(m) => if !can_chat(m) {
                Some("available_agent_models entry "@ + names[i] + " is not chat-capable"@)
            } else {
                available_error(models, names, i + 1)
            },
        }
    }
}

/// The models in order of their names, up to index `n`, that can chat.
pub open spec fn chat_models(entries: Seq<(String, ModelConfig)>, n: int) -> Seq<
    (Seq<char>, ModelView),
>
    decreases n,
{
    if n <= 0 || n > entries.len() {
        Seq::empty()
    } else {
        let rest = chat_models(entries, n - 1);
        if can_chat(entries[n - 1].1@) {
            rest.push((entries[n - 1].0@, entries[n - 1].1@))
        } else {
            rest
        }
    }
}

/// The first `n` of the named models that are known and can chat.
pub open spec fn named_chat_models(
    models: TextMap<ModelConfig>,
    names: Seq<Seq<char>>,
    n: int,
) -> Seq<(Seq<char>, ModelView)>
    decreases n,
{
    if n <= 0 || n > names.len() {
        Seq::empty()
    } else {
        let rest = named_chat_models(models, names, n - 1);
        match lookup(models, names[n - 1]) {
            Some(m) => if can_chat(m) {
                rest.push((names[n - 1], m))
            } else {
                rest
            },
            None => rest,
        }
    }
}

pub open spec fn model_pairs(s: Seq<(&String, &ModelConfig)>) -> Seq<(Seq<char>, ModelView)> {
    s.map_values(|p: (&String, &ModelConfig)| (p.0@, p.1@))
}

/// The first name whose model has the given model name.
pub open spec fn first_by_model_name(
    entries: Seq<(String, ModelConfig)>,
    name: Seq<char>,
    i: int,
) -> Option<Seq<char>>
    decreases entries.len() - i,
{
    if i < 0 || i >= entries.len() {
        None
    } else if entries[i].1@.model_name == name {
        Some(entries[i].0@)
    } else {
        first_by_model_name(entries, name, i + 1)
    }
}

/// The first name of a model that is configured alike.
pub open spec fn first_same_model(
    entries: Seq<(String, ModelConfig)>,
    model: ModelView,
    i: int,
) -> Option<Seq<char>>
    decreases entries.len() - i,
{
    if i < 0 || i >= entries.len() {
        None
    } else if entries[i].1@ == model {
        Some(entries[i].0@)
    } else {
        first_same_model(entries, model, i + 1)
    }
}

pub fn find_by_model_name(models: &TextMap<ModelConfig>, name: &str) -> (r: Option<String>)
    ensures
        opt_view(r) == first_by_model_name(models.entries@, name@, 0),
{
    let mut i: usize = 0;
    while i < models.entries.len()
        invariant
            i <= models.entries@.len(),
            first_by_model_name(models.entries@, name@, i as int) == first_by_model_name(
                models.entries@,
                name@,
                0,
            ),
        decreases models.entries@.len() - i,
    {
        if text_eq(models.entries[i].1.model_name.as_str(), name) {
            return Some(models.entries[i].0.clone());
        }
        i += 1;
    }
    None
}

pub fn find_same_model(models: &TextMap<ModelConfig>, model: &ModelConfig) -> (r: Option<String>)
    ensures
        opt_view(r) == first_same_model(models.entries@, model@, 0),
{
    let mut i: usize = 0;
    while i < models.entries.len()
        invariant
            i <= models.entries@.len(),
            first_same_model(models.entries@, model@, i as int) == first_same_model(
                models.entries@,
                model@,
                0,
            ),
        decreases models.entries@.len() - i,
    {
        if models.entries[i].1.same(model) {
            return Some(models.entries[i].0.clone());
        }
        i += 1;
    }
    None
}

impl StellaclawConfig {
    /// The names of the models are kept in order.
    pub open spec fn wf(self) -> bool {
        self.models.wf()
    }

    /// The models that an agent can use, by name: those listed, or all when none is
    /// listed; in either case only those that can chat.
    pub open spec fn available(self) -> Seq<(Seq<char>, ModelView)> {
        if self.available_agent_models@.len() == 0 {
            chat_models(self.models.entries@, self.models.entries@.len() as int)
        } else {
            named_chat_models(
                self.models,
                views(self.available_agent_models@),
                self.available_agent_models@.len() as int,
            )
        }
    }

    /// Why the configuration is refused; the first reason counts.
    pub open spec fn error(self) -> Option<Seq<char>> {
        if self.version@ != "0.11"@ {
            Some("unsupported config version "@ + self.version@ + "; expected "@ + "0.11"@)
        } else if self.channels@.len() == 0 {
            Some("config must include at least one channel"@)
        } else if self.models.entries@.len() == 0 {
            Some("config must include at least one model"@)
        } else if available_error(self.models, views(self.available_agent_models@), 0) is Some {
            available_error(self.models, views(self.available_agent_models@), 0)
        } else if self.available().len() == 0 {
            Some("config must include at least one chat-capable model"@)
        } else if self.sandbox.error() is Some {
            self.sandbox.error()
        } else if channels_error(self.channels@, 0) is Some {
            channels_error(self.channels@, 0)
        } else {
            skill_sync_error(self.skill_sync@, 0)
        }
    }

    pub fn validate(&self) -> (r: Result<(), String>)
        requires
            self.wf(),
        ensures
            result_text(r) == self.error(),
    {
        if !text_eq(self.version.as_str(), "0.11") {
            return Err(
                cat4("unsupported config version ", self.version.as_str(), "; expected ", "0.11"),
            );
        }
        if self.channels.len() == 0 {
            return Err("config must include at least one channel".to_owned());
        }
        if self.models.len() == 0 {
            return Err("config must include at least one model".to_owned());
        }
        match self.validate_available_agent_models() {
            Ok(_) => {},
            Err(e) => {
                return Err(e);
            },
        }
        if self.available_agent_models().len() == 0 {
            return Err("config must include at least one chat-capable model".to_owned());
        }
        match self.sandbox.validate() {
            Ok(_) => {},
            Err(e) => {
                return Err(e);
            },
        }
        let mut i: usize = 0;
        while i < self.channels.len()
            invariant
                i <= self.channels@.len(),
                channels_error(self.channels@, i as int) == channels_error(self.channels@, 0),
                channels_error(self.channels@, 0) is Some ==> self.error() == channels_error(
                    self.channels@,
                    0,
                ),
            decreases self.channels@.len() - i,
        {
            match &self.channels[i] {
                ChannelConfig::Web(channel) => match channel.validate() {
                    Ok(_) => {},
                    Err(e) => {
                        return Err(e);
                    },
                },
                ChannelConfig::Telegram(_) => {},
            }
            i += 1;
        }
        validate_skill_sync(&self.skill_sync)
    }

    fn validate_available_agent_models(&self) -> (r: Result<(), String>)
        requires
            self.wf(),
        ensures
            result_text(r) == available_error(
                self.models,
                views(self.available_agent_models@),
                0,
            ),
    {
        let ghost names = views(self.available_agent_models@);
        let mut i: usize = 0;
        while i < self.available_agent_models.len()
            invariant
                i <= self.available_agent_models@.len(),
                self.wf(),
                names == views(self.available_agent_models@),
                available_error(self.models, names, i as int) == available_error(
                    self.models,
                    names,
                    0,
                ),
            decreases self.available_agent_models@.len() - i,
        {
            let alias: &str = self.available_agent_models[i].as_str();
            assert(names[i as int] == alias@);
            match self.models.get(alias) {
                None => {
                    return Err(cat2("available_agent_models references unknown model ", alias));
                },
                Some(model) => {
                    if !model.supports(ModelCapability::Chat) {
                        return Err(
                            cat3("available_agent_models entry ", alias, " is not chat-capable"),
                        );
                    }
                },
            }
            i += 1;
        }
        Ok(())
    }

    /// Where the agent server is: the configured path, taken from the directory of the
    /// configuration file; else the path that the environment names; else beside the
    /// running program.
    pub fn resolve_agent_server_path(
        &self,
        config_parent: Option<&str>,
        env_path: Option<&str>,
        exe_dir: Option<&str>,
        executable_name: &str,
    ) -> (r: String)
        ensures
            r@ == match opt_view(self.agent_server.path) {
                Some(path) => joined(
                    match opt_str_view(config_parent) {
                        Some(dir) => dir,
                        None => "."@,
                    },
                    path,
                ),
                None => match (opt_str_view(env_path), opt_str_view(exe_dir)) {
                    (Some(path), _) => path,
                    (None, Some(dir)) => joined(dir, executable_name@),
                    (None, None) => executable_name@,
                },
            },
    {
        match &self.agent_server.path {
            Some(path) => {
                let dir: &str = match config_parent {
                    Some(dir) => dir,
                    None => ".",
                };
                join_path(dir, path.as_str())
            },
            None => match env_path {
                Some(path) => path.to_owned(),
                None => match exe_dir {
                    Some(dir) => join_path(dir, executable_name),
                    None => executable_name.to_owned(),
                },
            },
        }
    }

    pub fn resolve_named_model(&self, name: &str) -> (r: Option<ModelConfig>)
        requires
            self.wf(),
        ensures
            opt_model(r) == lookup(self.models, name@),
    {
        lookup_model(&self.models, name)
    }

    pub fn is_available_agent_model(&self, name: &str) -> (b: bool)
        requires
            self.wf(),
        ensures
            b == exists|i: int|
                0 <= i < self.available().len() && (#[trigger] self.available()[i]).0 == name@,
    {
        let list: Vec<(&String, &ModelConfig)> = self.available_agent_models();
        let mut i: usize = 0;
        while i < list.len()
            invariant
                i <= list@.len(),
                model_pairs(list@) == self.available(),
                forall|j: int|
                    0 <= j < i ==> (#[trigger] self.available()[j]).0 != name@,
            decreases list@.len() - i,
        {
            assert(self.available()[i as int] == model_pairs(list@)[i as int]);
            if text_eq(list[i].0.as_str(), name) {
                return true;
            }
            i += 1;
        }
        false
    }

    pub fn available_agent_models(&self) -> (r: Vec<(&String, &ModelConfig)>)
        requires
            self.wf(),
        ensures
            model_pairs(r@) == self.available(),
    {
        let mut r: Vec<(&String, &ModelConfig)> = Vec::new();
        let mut i: usize = 0;
        if self.available_agent_models.len() == 0 {
            let ghost entries = self.models.entries@;
            assert(model_pairs(r@) =~= chat_models(entries, 0));
            while i < self.models.entries.len()
                invariant
                    i <= self.models.entries@.len(),
                    entries == self.models.entries@,
                    model_pairs(r@) == chat_models(entries, i as int),
                decreases self.models.entries@.len() - i,
            {
                let e: &(String, ModelConfig) = &self.models.entries[i];
                let ghost before = r@;
                if e.1.supports(ModelCapability::Chat) {
                    r.push((&e.0, &e.1));
                    assert(model_pairs(r@) =~= model_pairs(before).push((e.0@, e.1@)));
                }
                i += 1;
            }
            return r;
        }
        let ghost names = views(self.available_agent_models@);
        assert(model_pairs(r@) =~= named_chat_models(self.models, names, 0));
        while i < self.available_agent_models.len()
            invariant
                i <= self.available_agent_models@.len(),
                self.wf(),
                names == views(self.available_agent_models@),
                model_pairs(r@) == named_chat_models(self.models, names, i as int),
            decreases self.available_agent_models@.len() - i,
        {
            let alias: &str = self.available_agent_models[i].as_str();
            assert(names[i as int] == alias@);
            let (k, found) = self.models.locate(alias);
            let ghost before = r@;
            if found {
                proof {
                    self.models.lemma_entry(k as int);
                }
                let e: &(String, ModelConfig) = &self.models.entries[k];
                if e.1.supports(ModelCapability::Chat) {
                    r.push((&e.0, &e.1));
                    assert(model_pairs(r@) =~= model_pairs(before).push((e.0@, e.1@)));
                }
            }
            i += 1;
        }
        r
    }

    pub fn resolve_session_model(&self, profile: &SessionProfile) -> (r: Option<ModelConfig>)
        requires
            self.wf(),
        ensures
            opt_model(r) == profile.main_model.resolved(self.models),
    {
        profile.main_model.resolve(&self.models)
    }

    /// The name under which a selected model is configured.
    pub open spec fn selection_alias(self, selection: SelectionView) -> Option<Seq<char>> {
        match selection {
            SelectionView::Alias(a) => if self.models@.contains_key(a) {
                Some(a)
            } else {
                first_by_model_name(self.models.entries@, a, 0)
            },
            SelectionView::Inline(m) => match first_same_model(self.models.entries@, m, 0) {
                Some(name) => Some(name),
                None => first_by_model_name(self.models.entries@, m.model_name, 0),
            },
        }
    }

    fn model_selection_alias(&self, selection: &ModelSelection) -> (r: Option<String>)
        requires
            self.wf(),
        ensures
            opt_view(r) == self.selection_alias(selection@),
    {
        match selection {
            ModelSelection::Alias(a) => {
                if self.models.contains_key(a.as_str()) {
                    Some(a.clone())
                } else {
                    find_by_model_name(&self.models, a.as_str())
                }
            },
            ModelSelection::Inline(m) => match find_same_model(&self.models, m) {
                Some(name) => Some(name),
                None => find_by_model_name(&self.models, m.model_name.as_str()),
            },
        }
    }

    /// The name of the model that a new session starts with.
    pub open spec fn initial_name(self) -> Option<Seq<char>> {
        let own = match self.default_profile {
            Some(p) => self.selection_alias(p.main_model@),
            None => None,
        };
        match own {
            Some(name) => Some(name),
            None => if self.available().len() > 0 {
                Some(self.available()[0].0)
            } else {
                None
            },
        }
    }

    pub fn initial_main_model_name(&self) -> (r: Option<String>)
        requires
            self.wf(),
        ensures
            opt_view(r) == self.initial_name(),
    {
        let own: Option<String> = match &self.default_profile {
            Some(p) => self.model_selection_alias(&p.main_model),
            None => None,
        };
        match own {
            Some(name) => Some(name),
            None => {
                let list: Vec<(&String, &ModelConfig)> = self.available_agent_models();
                assert(model_pairs(list@).len() == list@.len());
                if list.len() > 0 {
                    assert(model_pairs(list@)[0].0 == list@[0].0@);
                    Some(list[0].0.clone())
                } else {
                    None
                }
            },
        }
    }

    pub fn initial_session_profile(&self) -> (r: Result<SessionProfile, String>)
        requires
            self.wf(),
        ensures
            match (r, self.initial_name()) {
                (Ok(p), Some(name)) => p.main_model@ == SelectionView::Alias(name),
                (Err(e), None) => e@ == "config must include at least one chat-capable model"@,
                _ => false,
            },
    {
        match self.initial_main_model_name() {
            Some(name) => Ok(SessionProfile { main_model: ModelSelection::alias(name.as_str()) }),
            None => Err("config must include at least one chat-capable model".to_owned()),
        }
    }

    /// The model that a new session starts with.
    pub open spec fn initial_model(self) -> Option<ModelView> {
        let own = match self.default_profile {
            Some(p) => p.main_model.resolved(self.models),
            None => None,
        };
        match own {
            Some(m) => Some(m),
            None => if self.available().len() > 0 {
                Some(self.available()[0].1)
            } else {
                None
            },
        }
    }

    pub fn initial_main_model(&self) -> (r: Option<ModelConfig>)
        requires
            self.wf(),
        ensures
            opt_model(r) == self.initial_model(),
    {
        let own: Option<ModelConfig> = match &self.default_profile {
            Some(p) => self.resolve_session_model(p),
            None => None,
        };
        match own {
            Some(m) => Some(m),
            None => {
                let list: Vec<(&String, &ModelConfig)> = self.available_agent_models();
                assert(model_pairs(list@).len() == list@.len());
                if list.len() > 0 {
                    assert(model_pairs(list@)[0].1 == list@[0].1@);
                    Some(list[0].1.copy())
                } else {
                    None
                }
            },
        }
    }
}

// ---------------------------------------------------------------------------
// Defaults
// ---------------------------------------------------------------------------
pub fn default_version() -> (r: String)
    ensures
        r@ == "0.11"@,
{
    "0.11".to_owned()
}

pub fn default_telegram_bot_token_env() -> (r: String)
    ensures
        r@ == "TELEGRAM_BOT_TOKEN"@,
{
    "TELEGRAM_BOT_TOKEN".to_owned()
}

pub fn default_telegram_api_base_url() -> (r: String)
    ensures
        r@ == "https://api.telegram.org"@,
{
    "https://api.telegram.org".to_owned()
}

pub fn default_poll_timeout_seconds() -> (r: u64)
    ensures
        r == 30,
{
    30
}

pub fn default_poll_interval_ms() -> (r: u64)
    ensures
        r == 250,
{
    250
}

pub fn default_web_bind_addr() -> (r: String)
    ensures
        r@ == "127.0.0.1:3111"@,
{
    "127.0.0.1:3111".to_owned()
}

pub fn default_web_token_env() -> (r: String)
    ensures
        r@ == "STELLACLAW_WEB_TOKEN"@,
{
    "STELLACLAW_WEB_TOKEN".to_owned()
}

pub fn default_bubblewrap_binary() -> (r: String)
    ensures
        r@ == "bwrap"@,
{
    "bwrap".to_owned()
}

pub fn default_software_mount_path() -> (r: String)
    ensures
        r@ == "/opt"@,
{
    "/opt".to_owned()
}

pub fn is_default_software_mount_path(value: &str) -> (b: bool)
    ensures
        b == (value@ == "/opt"@),
{
    text_eq(value, "/opt")
}

// ---------------------------------------------------------------------------
// Laws
// ---------------------------------------------------------------------------
proof fn lemma_named_chat_models(models: TextMap<ModelConfig>, names: Seq<Seq<char>>, n: int)
    requires
        0 <= n <= names.len(),
        forall|i: int|
            0 <= i < names.len() ==> (lookup(models, #[trigger] names[i]) matches Some(m)
                && can_chat(m)),
    ensures
        named_chat_models(models, names, n).len() == n,
        forall|i: int|
            0 <= i < n ==> (#[trigger] named_chat_models(models, names, n)[i]).0 == names[i],
    decreases n,
{
    if n > 0 {
        lemma_named_chat_models(models, names, n - 1);
        assert(lookup(models, names[n - 1]) matches Some(m) && can_chat(m));
    }
}

proof fn lemma_available_clean(models: TextMap<ModelConfig>, names: Seq<Seq<char>>, i: int)
    requires
        0 <= i <= names.len(),
        available_error(models, names, i) is None,
    ensures
        forall|k: int|
            i <= k < names.len() ==> (lookup(models, #[trigger] names[k]) matches Some(m)
                && can_chat(m)),
    decreases names.len() - i,
{
    if i < names.len() {
        lemma_available_clean(models, names, i + 1);
    }
}

/// In a valid configuration every listed model is available, in the listed order, and a
/// new session has a model to start with.
pub proof fn valid_config_offers_its_models(config: StellaclawConfig)
    requires
        config.error() is None,
    ensures
        config.available().len() > 0,
        config.initial_name() is Some,
        config.initial_model() is Some,
        config.available_agent_models@.len() > 0 ==> config.available().len()
            == config.available_agent_models@.len() && forall|i: int|
            0 <= i < config.available().len() ==> (#[trigger] config.available()[i]).0
                == config.available_agent_models@[i]@,
{
    let names = views(config.available_agent_models@);
    lemma_available_clean(config.models, names, 0);
    lemma_named_chat_models(config.models, names, names.len() as int);
}

} // verus!

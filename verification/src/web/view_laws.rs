//! Laws of what is shown of conversations and files: settings by their names, windows within
//! their bounds, and answers with their heads.

use vstd::prelude::*;
use crate::chat::TokenUsage;
use crate::config::{SandboxMode, StellaclawConfig};
use crate::encoding::base64_read;
use crate::number::{decimal, decimal_then_parse};
use crate::text::{is_space, trimming_drops_the_space_around};
use crate::text_map::TextMap;
use crate::web_terminal::RemoteView;
use super::control::web_control;
use super::conversations::{asked_window, written_text};
use super::files::some_text;
use super::history::WebTokenUsage;
use super::http::{reason, response_head_of, status_reason_of};
use super::ids::{storage_id, ConversationMetadata};
use super::protocol::{shown_state, AgentSessionState, HomeForegroundSessionState};
use super::single_session::sent_control;
use super::summary::{
    default_session, is_listed, model_label, own_sandbox, reasoning_label, remote_name,
    sandbox_name, session_name, shown_model, shown_name, ConversationRuntimeConfig,
};
use super::url::text_values;
use super::workspace::{
    archive_bytes, is_image_path, shown_bytes, size_parameter, value_of, WorkspaceFileEncoding,
};

verus! {

// ---------------------------------------------------------------------------
// Settings
// ---------------------------------------------------------------------------
/// The model of a conversation is that of its own settings, else the default one; it is shown
/// by the name that its service knows, where it is configured.
pub proof fn own_model_is_shown_first(
    runtime: ConversationRuntimeConfig,
    config: StellaclawConfig,
    alias: Seq<char>,
)
    ensures
        runtime.session_profile matches Some(p) ==> model_label(Some(runtime), config)
            == shown_model(p.main_model@, config),
        runtime.session_profile is None ==> model_label(Some(runtime), config) == model_label(
            None,
            config,
        ),
        config.default_profile matches Some(p) ==> model_label(None, config) == shown_model(
            p.main_model@,
            config,
        ),
        config.models@.contains_key(alias) ==> shown_model(
            crate::config::SelectionView::Alias(alias),
            config,
        ) == config.models@[alias].model_name@,
        !config.models@.contains_key(alias) ==> shown_model(
            crate::config::SelectionView::Alias(alias),
            config,
        ) == alias,
{
}

/// Effort, sandbox and place of work are shown as they are set.
pub proof fn settings_are_shown(
    runtime: ConversationRuntimeConfig,
    host: Seq<char>,
    cwd: Seq<char>,
)
    ensures
        runtime.reasoning_effort matches Some(e) ==> reasoning_label(Some(runtime)) == e@,
        runtime.reasoning_effort is None ==> reasoning_label(Some(runtime)) == "model default"@,
        runtime.sandbox matches Some(s) ==> own_sandbox(Some(runtime)) == Some(s.mode),
        runtime.sandbox is None ==> own_sandbox(Some(runtime)) is None,
        sandbox_name(SandboxMode::Bubblewrap) == "bubblewrap"@,
        sandbox_name(SandboxMode::Subprocess) == "subprocess"@,
        remote_name(RemoteView::Selectable) == "selectable"@,
        remote_name(RemoteView::FixedSsh { host, cwd: Some(cwd) }) == "fixed ssh `"@ + host
            + "` `"@ + cwd + "`"@,
{
}

/// A session is called by its nickname; the main one, where it has none, by that of the
/// conversation, and another by its id.
pub proof fn session_is_called_by_its_nickname(m: ConversationMetadata, session: Seq<char>)
    ensures
        m.session_nicknames@.contains_key(storage_id(session)) ==> session_name(m, session)
            == m.session_nicknames@[storage_id(session)]@,
        !m.session_nicknames@.contains_key(storage_id(session)) && session == "main"@
            ==> session_name(m, session) == shown_name(m),
        !m.session_nicknames@.contains_key(storage_id(session)) && session != "main"@
            ==> session_name(m, session) == session,
        is_listed(m, default_session(m)),
{
}

/// A running session is shown as running, also while it stops; one that crashed as failed.
pub proof fn session_states_are_shown()
    ensures
        shown_state(AgentSessionState::Running) == HomeForegroundSessionState::Running,
        shown_state(AgentSessionState::Stopping) == HomeForegroundSessionState::Running,
        shown_state(AgentSessionState::Crashed) == HomeForegroundSessionState::Failed,
        shown_state(AgentSessionState::Idle) == HomeForegroundSessionState::Idle,
        shown_state(AgentSessionState::Stopped) == HomeForegroundSessionState::Idle,
        HomeForegroundSessionState::Idle.name_view() == "idle"@,
        HomeForegroundSessionState::Queued.name_view() == "queued"@,
        HomeForegroundSessionState::Running.name_view() == "running"@,
        HomeForegroundSessionState::Failed.name_view() == "failed"@,
{
}

/// The use of tokens is told part by part, and the total is their sum.
pub proof fn total_use_is_the_sum(w: WebTokenUsage, u: TokenUsage)
    requires
        w.is_for(u),
        u.cache_read + u.cache_write + u.uncache_input + u.output <= u64::MAX,
    ensures
        w.total == u.cache_read + u.cache_write + u.uncache_input + u.output,
        w.cache_read == u.cache_read,
        w.cache_write == u.cache_write,
        w.input == u.uncache_input,
        w.output == u.output,
{
}

// ---------------------------------------------------------------------------
// Windows
// ---------------------------------------------------------------------------
/// The parameters of a page count as they are written; without them a page begins at the
/// first entry and has the usual length, and none has more than two hundred entries.
pub proof fn page_parameters_count(
    query: TextMap<String>,
    offset: nat,
    limit: nat,
    usual: nat,
)
    requires
        offset <= usize::MAX,
        limit <= usize::MAX,
        usual <= 200,
    ensures
        value_of(query, "offset"@) == Some(decimal(offset)) && value_of(query, "limit"@) == Some(
            decimal(limit),
        ) ==> asked_window(query, usual) == (
            offset,
            if limit <= 200 {
                limit
            } else {
                200
            },
        ),
        value_of(query, "offset"@) is None && value_of(query, "limit"@) is None ==> asked_window(
            query,
            usual,
        ) == (0nat, usual),
{
    decimal_then_parse(offset, usize::MAX as nat);
    decimal_then_parse(limit, usize::MAX as nat);
    lemma_parameter(query, "offset"@);
    lemma_parameter(query, "limit"@);
}

proof fn lemma_parameter(query: TextMap<String>, name: Seq<char>)
    ensures
        value_of(query, name) is None ==> size_parameter(query, name) is None,
        value_of(query, name) matches Some(v) ==> size_parameter(query, name)
            == crate::number::parse_seq(v, usize::MAX as nat),
{
    let m = text_values(query@);
    assert(m.contains_key(name) == query@.contains_key(name));
    if query@.contains_key(name) {
        assert(m[name] == query@[name]@);
    }
}

/// As much of a file is shown as is asked for, between one byte and twenty-five mebibytes;
/// where nothing is asked for, one mebibyte. An image is shown whole on demand.
pub proof fn files_are_shown_within_bounds(query: TextMap<String>, path: Seq<char>, n: nat)
    requires
        n <= usize::MAX,
    ensures
        value_of(query, "full"@) is None && value_of(query, "limit_bytes"@) == Some(decimal(n))
            && 1 <= n <= 25 * 1024 * 1024 ==> shown_bytes(query, path) == Some(n),
        value_of(query, "full"@) is None && value_of(query, "limit_bytes"@) == Some(decimal(n)) && n
            > 25 * 1024 * 1024 ==> shown_bytes(query, path) == Some(25nat * 1024 * 1024),
        value_of(query, "full"@) is None && value_of(query, "limit_bytes"@) == Some(decimal(n)) && n
            == 0 ==> shown_bytes(query, path) == Some(1nat),
        value_of(query, "full"@) is None && value_of(query, "limit_bytes"@) is None ==> shown_bytes(
            query,
            path,
        ) == Some(1024nat * 1024),
        value_of(query, "full"@) == Some("true"@) && is_image_path(path) ==> shown_bytes(query, path)
            is None,
        !is_image_path(path) ==> shown_bytes(query, path) is Some,
{
    decimal_then_parse(n, usize::MAX as nat);
    lemma_parameter(query, "limit_bytes"@);
}

/// An archive that was asked for is read by its encoding.
pub proof fn archive_is_read_by_its_encoding(data: Seq<char>)
    ensures
        archive_bytes(WorkspaceFileEncoding::Base64, data) == base64_read(data),
        archive_bytes(WorkspaceFileEncoding::Utf8, data) == Ok::<Seq<u8>, Seq<char>>(
            vstd::utf8::encode_utf8(data),
        ),
{
}

// ---------------------------------------------------------------------------
// Texts and answers
// ---------------------------------------------------------------------------
/// A text that starts with a slash is read as a command, without the white space around it;
/// another text is none. A text that is not blank is kept as it was written.
pub proof fn sent_text_is_command_or_text(a: Seq<char>, t: Seq<char>, b: Seq<char>)
    requires
        forall|i: int| 0 <= i < a.len() ==> is_space(#[trigger] a[i]),
        forall|i: int| 0 <= i < b.len() ==> is_space(#[trigger] b[i]),
        t.len() > 0 && !is_space(t[0]) && !is_space(t.last()),
    ensures
        t[0] == '/' ==> sent_control(a + t + b) == web_control(t),
        t[0] != '/' ==> sent_control(a + t + b) is None,
        written_text(Some(a + t + b)) == Some(a + t + b),
        written_text(Some(a)) is None,
        some_text(Some(a + t + b)) == Some(t),
        some_text(Some(a)) is None,
{
    reveal_strlit("/");
    let e = Seq::<char>::empty();
    trimming_drops_the_space_around(a, t, b);
    trimming_drops_the_space_around(a, e, e);
    assert(a + e + e =~= a);
    if t[0] == '/' {
        assert(t.subrange(0, 1) =~= "/"@);
    } else if "/"@.is_prefix_of(t) {
        assert(t.subrange(0, 1)[0] == '/');
    }
}

/// An answer is headed by its status with the reason, its type and the length of its body.
pub proof fn answer_is_headed_by_its_status(
    status: u16,
    why: Seq<char>,
    content_type: Seq<char>,
    length: nat,
)
    ensures
        ("HTTP/1.1 "@ + decimal(status as nat) + " "@ + why + "\r\nContent-Type: "@ + content_type
            + "\r\nContent-Length: "@ + decimal(length)).is_prefix_of(
            response_head_of(status, why, content_type, length),
        ),
        reason(200) == "OK"@,
        reason(201) == "Created"@,
        reason(204) == "No Content"@,
        reason(400) == "Bad Request"@,
        reason(401) == "Unauthorized"@,
        reason(404) == "Not Found"@,
        reason(426) == "Upgrade Required"@,
        reason(500) == "Internal Server Error"@,
        status_reason_of(200) == "OK"@,
        status_reason_of(202) == "Accepted"@,
        status_reason_of(400) == "Bad Request"@,
        status_reason_of(401) == "Unauthorized"@,
        status_reason_of(404) == "Not Found"@,
        status_reason_of(500) == "Internal Server Error"@,
        status_reason_of(503) == "Service Unavailable"@,
{
    let p = "HTTP/1.1 "@ + decimal(status as nat) + " "@ + why + "\r\nContent-Type: "@
        + content_type + "\r\nContent-Length: "@ + decimal(length);
    let r = response_head_of(status, why, content_type, length);
    assert(r.subrange(0, p.len() as int) =~= p);
}

} // verus!

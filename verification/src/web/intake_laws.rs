//! Laws of what comes in: requests as they are read, files and messages as they are taken
//! over, and the names by which events are told.

use vstd::prelude::*;
use crate::channels::ControlView;
use crate::chat::ChatMessage;
use crate::config::{joined, StellaclawConfig};
use crate::encoding::base64_read;
use crate::json::JsonView;
use crate::model::ProviderType;
use crate::text::{
    cut_is_at_the_first, is_space, opt_view, trimmed, trimming_drops_the_space_around,
};
use crate::words::{is_one_word, join_seq, split_seq, words_stand_between_spaces};
use super::chat_copy::readable_item;
use super::control::{ingress_of, IngressView};
use super::conversations::{
    accepted, last_id, posted_control, posted_items, seen_value, session_head, PostMessageRequest,
};
use super::files::{
    data_file_name, file_view, incoming_dir, is_incoming, some_text, FileView, IncomingFile,
    WebFileItem,
};
use super::history::{is_skeleton_of, MessageSkeleton};
use super::http::{announced_length, head_ends_at, headers_of, request_is, HttpRequest};
use super::ids::ConversationMetadata;
use super::input_laws::data_url_is_type_and_payload;
use super::messages::{rendered_message, MessageFacts};
use super::protocol::{ChatEvent, ChatToolResultState, HomeEvent};
use super::request_laws::lines_stand_between_breaks;
use super::routes::is_api_path;
use super::selection::{says_nothing, ItemView, SelectionView};
use super::single_session::{chosen_model, is_of_chat, is_on_channel};
use super::state::result_index;
use super::summary::{model_payload, provider_label};
use super::url::{interface_segments, query_of, segments, text_values, without_api};

verus! {

// ---------------------------------------------------------------------------
// Requests
// ---------------------------------------------------------------------------
/// A request has the method, the path, the parameters and the headers that its head states,
/// and as much of its body as its head announces.
pub proof fn request_is_read_from_its_head(
    r: HttpRequest,
    method: Seq<char>,
    path: Seq<char>,
    query: Seq<char>,
    version: Seq<char>,
    headers: Seq<Seq<char>>,
    body: Seq<u8>,
)
    requires
        is_one_word(method) && is_one_word(path) && is_one_word(version),
        !path.contains('?'),
        forall|i: int| 0 <= i < query.len() ==> !is_space(#[trigger] query[i]),
        forall|i: int| 0 <= i < headers.len() ==> !(#[trigger] headers[i]).contains('\r'),
        request_is(
            r,
            join_seq(
                seq![method + " "@ + path + "?"@ + query + " "@ + version] + headers,
                "\r\n"@,
            ),
            body,
        ),
    ensures
        r.method@ == method,
        r.path@ == path,
        text_values(r.query@) == query_of(split_seq(query, '&')),
        text_values(r.headers@) == headers_of(headers),
        announced_length(headers_of(headers)) <= body.len() ==> r.body@ == body.take(
            announced_length(headers_of(headers)) as int,
        ),
        announced_length(headers_of(headers)) >= body.len() ==> r.body@ == body,
{
    reveal_strlit(" ");
    reveal_strlit("?");
    let target = path + "?"@ + query;
    let line = method + " "@ + path + "?"@ + query + " "@ + version;
    let parts = seq![method, target, version];
    let lines = seq![line] + headers;
    let none = Seq::<char>::empty();
    assert("?"@ =~= seq!['?']);
    assert(is_one_word(target)) by {
        assert forall|i: int| 0 <= i < target.len() implies !is_space(#[trigger] target[i]) by {
            if i < path.len() {
                assert(target[i] == path[i]);
            } else if i > path.len() {
                assert(target[i] == query[i - path.len() - 1]);
            }
        }
    }
    assert forall|i: int| 0 <= i < parts.len() implies is_one_word(#[trigger] parts[i]) by {
        assert(i == 0 || i == 1 || i == 2);
    }
    words_stand_between_spaces(parts, none);
    assert(none + join_seq(parts, " "@) =~= line) by {
        reveal_with_fuel(join_seq, 4);
        assert(parts.drop_first() =~= seq![target, version]);
        assert(parts.drop_first().drop_first() =~= seq![version]);
    }
    cut_is_at_the_first(path, '?', query);
    assert(path + seq!['?'] + query =~= target);
    assert forall|i: int| 0 <= i < lines.len() implies !(#[trigger] lines[i]).contains('\r') by {
        if i == 0 {
            lemma_no_break(method);
            lemma_no_break(target);
            lemma_no_break(version);
            assert(line =~= method + " "@ + target + " "@ + version);
        } else {
            assert(lines[i] == headers[i - 1]);
        }
    }
    lines_stand_between_breaks(lines);
    assert(lines.skip(1) =~= headers);
    assert(body.take(body.len() as int) =~= body);
}

proof fn lemma_no_break(t: Seq<char>)
    requires
        is_one_word(t),
    ensures
        !t.contains('\r'),
{
    if t.contains('\r') {
        let i = choose|i: int| 0 <= i < t.len() && t[i] == '\r';
        assert(!is_space(t[i]));
    }
}

/// A head ends where two line breaks follow each other.
pub proof fn head_ends_with_an_empty_line(head: Seq<u8>, body: Seq<u8>)
    ensures
        head_ends_at(head + seq![13u8, 10u8, 13u8, 10u8] + body, head.len() as int),
        !head_ends_at(head + seq![13u8, 10u8, 13u8], head.len() as int),
{
}

/// The interface is everything below its prefix; what stands behind the prefix tells what is
/// asked for.
pub proof fn interface_lies_below_its_prefix(path: Seq<char>)
    ensures
        is_api_path("/api/"@ + path),
        is_api_path("/api"@),
        path.len() > 0 && path[0] != '/' ==> !is_api_path("/api"@ + path) && !is_api_path(path),
        path.len() > 1 && path[0] == '/' && path[1] != 'a' ==> interface_segments("/api"@ + path)
            == segments(path) && interface_segments(path) == segments(path),
{
    reveal_strlit("/api");
    reveal_strlit("/api/");
    let p = "/api/"@ + path;
    assert(p.subrange(0, 5) =~= "/api/"@);
    let q = "/api"@ + path;
    if path.len() > 0 && path[0] != '/' {
        assert(q[4] == path[0]);
        if "/api/"@.is_prefix_of(q) {
            assert(q.subrange(0, 5)[4] == '/');
        }
        if "/api/"@.is_prefix_of(path) {
            assert(path.subrange(0, 5)[0] == '/');
        }
        assert("/api"@[0] == '/');
    }
    assert(q.skip(4) =~= path);
    reveal_with_fuel(without_api, 2);
}

// ---------------------------------------------------------------------------
// Files
// ---------------------------------------------------------------------------
/// A file that came as text is kept with the bytes of its payload, below the conversation,
/// and the message tells its place, its name and its type. A stated type comes before the
/// type in the address.
pub proof fn data_file_keeps_its_bytes(
    r: IncomingFile,
    root: Seq<char>,
    message_id: Seq<char>,
    index: nat,
    file: WebFileItem,
    media_type: Seq<char>,
    payload: Seq<char>,
    bytes: Seq<u8>,
)
    requires
        media_type.len() > 0 && !is_space(media_type[0]) && !is_space(media_type.last()),
        !media_type.contains(',') && !media_type.contains(';'),
        media_type != "base64"@,
        file.uri@ == "data:"@ + media_type + ";base64,"@ + payload,
        base64_read(payload) == Ok::<Seq<u8>, Seq<char>>(bytes),
        is_incoming(r, root, message_id, index, file),
    ensures
        match r {
            IncomingFile::ToStore(d) => {
                let t = match some_text(opt_view(file.media_type)) {
                    Some(stated) => stated,
                    None => media_type,
                };
                let own = data_file_name(message_id, index, opt_view(file.name), Some(t));
                &&& d.bytes@ == bytes
                &&& d.path@ == joined(incoming_dir(root), own)
                &&& file_view(d.item).uri == "file://"@ + d.path@
                &&& file_view(d.item).name == Some(own)
                &&& file_view(d.item).media_type == Some(t)
            },
            IncomingFile::Kept(_) => false,
        },
{
    reveal_strlit("data:");
    assert(file.uri@.subrange(0, 5) =~= "data:"@);
    data_url_is_type_and_payload(media_type, payload);
}

/// A file that did not come as text is left where it is, with its name.
pub proof fn other_file_is_left_in_its_place(
    r: IncomingFile,
    root: Seq<char>,
    message_id: Seq<char>,
    index: nat,
    file: WebFileItem,
)
    requires
        !"data:"@.is_prefix_of(file.uri@),
        is_incoming(r, root, message_id, index, file),
    ensures
        match r {
            IncomingFile::Kept(f) => {
                &&& file_view(f).uri == file.uri@
                &&& file_view(f).name == opt_view(file.name)
                &&& some_text(opt_view(file.media_type)) is Some ==> file_view(f).media_type
                    == some_text(opt_view(file.media_type))
            },
            IncomingFile::ToStore(_) => false,
        },
{
}

// ---------------------------------------------------------------------------
// Messages
// ---------------------------------------------------------------------------
/// A posted message holds its text, its selections and its files. Only a text that stands
/// alone can be a command.
pub proof fn posted_message_holds_its_parts(
    config: StellaclawConfig,
    request: PostMessageRequest,
    session: Seq<char>,
    a: Seq<char>,
    t: Seq<char>,
)
    requires
        t.len() > 0 && !is_space(t[0]) && !is_space(t.last()),
        forall|i: int| 0 <= i < a.len() ==> is_space(#[trigger] a[i]),
        opt_view(request.text) == Some(a + t),
    ensures
        posted_items(request).len() == 1 + request.selection_references@.len()
            + request.files@.len(),
        posted_items(request)[0] == ItemView::Text(a + t),
        request.files@.len() > 0 || request.selection_references@.len() > 0 ==> posted_control(
            config,
            request,
            session,
        ) == Ok::<Option<IngressView>, Seq<char>>(None),
{
    let e = Seq::<char>::empty();
    trimming_drops_the_space_around(a, t, e);
    assert(a + t + e =~= a + t);
}

/// A message says nothing if its text is blank and it has no selections and no files.
pub proof fn empty_message_says_nothing(
    text: Seq<char>,
    space: Seq<char>,
    selections: Seq<SelectionView>,
    files: Seq<FileView>,
)
    requires
        forall|i: int| 0 <= i < space.len() ==> is_space(#[trigger] space[i]),
        text.len() > 0 && !is_space(text[0]) && !is_space(text.last()),
    ensures
        says_nothing(space, Seq::empty(), Seq::empty()),
        !says_nothing(space + text, Seq::empty(), Seq::empty()),
        selections.len() > 0 ==> !says_nothing(space, selections, Seq::empty()),
        files.len() > 0 ==> !says_nothing(space, Seq::empty(), files),
{
    let e = Seq::<char>::empty();
    trimming_drops_the_space_around(space, e, e);
    assert(space + e + e =~= space);
    trimming_drops_the_space_around(space, text, e);
    assert(space + text + e =~= space + text);
}

/// The entry of a message in a list tells its id, its number, who wrote it and when, what it
/// shows, and the use of tokens.
pub proof fn entry_tells_the_message(
    s: MessageSkeleton,
    index: usize,
    m: ChatMessage,
    conversation_id: Seq<char>,
    facts: MessageFacts,
)
    requires
        is_skeleton_of(s, index, m, conversation_id, facts),
    ensures
        s.id@ == m.message_id@,
        s.index == index,
        s.role == m.role,
        s.user_name is Some <==> m.user_name is Some,
        s.user_name is Some ==> s.user_name->0@ == m.user_name->0@,
        s.message_time is Some <==> m.message_time is Some,
        s.message_time is Some ==> s.message_time->0@ == m.message_time->0@,
        s.text@ == join_seq(rendered_message(m, conversation_id, facts).parts, "\n\n"@),
        s.text_with_attachment_markers@ == join_seq(
            rendered_message(m, conversation_id, facts).marked,
            "\n\n"@,
        ),
        s.preview@ == trimmed(s.text@),
        s.attachments@.len() == s.attachment_count,
        s.data@.len() == m.data@.len(),
        s.has_token_usage <==> m.token_usage is Some,
        m.token_usage is Some ==> s.token_usage is Some && s.token_usage->0.input
            == m.token_usage->0.uncache_input && s.token_usage->0.output
            == m.token_usage->0.output,
{
    let v = rendered_message(m, conversation_id, facts);
    assert(super::messages::attachment_views(s.attachments@).len() == s.attachments@.len());
    assert(super::selection::item_views(s.data@).len() == s.data@.len());
    assert(super::selection::item_views(m.data@).len() == m.data@.len());
}

/// What only its model can read is left out of a thought; everything else is shown.
pub proof fn only_sealed_thoughts_are_left_out(v: ItemView)
    ensures
        match v {
            ItemView::Reasoning { text, summary, encrypted } => readable_item(v)
                == (ItemView::Reasoning { text, summary, encrypted: None }),
            _ => readable_item(v) == v,
        },
{
}

/// The result of a call is kept at its first place.
pub proof fn first_result_of_a_call_is_found(
    results: Seq<ChatToolResultState>,
    id: Seq<char>,
    from: int,
    i: int,
)
    requires
        0 <= from <= i < results.len(),
        results[i].tool_result.tool_call_id@ == id,
        forall|k: int| from <= k < i ==> (#[trigger] results[k]).tool_result.tool_call_id@ != id,
    ensures
        result_index(results, id, from) == i,
    decreases i - from,
{
    if from < i {
        assert(results[from].tool_result.tool_call_id@ != id);
        first_result_of_a_call_is_found(results, id, from + 1, i);
    }
}

// ---------------------------------------------------------------------------
// Answers
// ---------------------------------------------------------------------------
/// An answer names the conversation and the session, and what was seen last.
pub proof fn answers_name_their_session(
    conversation_id: Seq<char>,
    session: Seq<char>,
    seen: (Seq<char>, Seq<char>),
    messages: Seq<JsonView>,
)
    ensures
        ({
            let head = session_head(conversation_id, session);
            &&& head.text_field("conversation_id"@) == Some(conversation_id)
            &&& head.text_field("foreground_session_id"@) == Some(session)
            &&& accepted(head).field("accepted"@) == Some(JsonView::Bool(true))
            &&& accepted(head).text_field("conversation_id"@) == Some(conversation_id)
            &&& accepted(head).text_field("foreground_session_id"@) == Some(session)
        }),
        seen_value(seen).text_field("last_seen_message_id"@) == Some(seen.0),
        seen_value(seen).text_field("updated_at"@) == Some(seen.1),
        last_id(Seq::empty()) is None,
        messages.len() > 0 && messages.last().field("message_id"@) is None ==> last_id(messages)
            == messages.last().text_field("id"@),
        messages.len() > 0 && messages.last().text_field("message_id"@) is Some ==> last_id(messages)
            == messages.last().text_field("message_id"@),
{
    reveal_strlit("conversation_id");
    reveal_strlit("foreground_session_id");
    reveal_strlit("accepted");
    reveal_strlit("last_seen_message_id");
    reveal_strlit("updated_at");
    assert("conversation_id"@.len() != "foreground_session_id"@.len());
    assert("accepted"@.len() != "foreground_session_id"@.len());
    assert("accepted"@.len() != "conversation_id"@.len());
    assert("last_seen_message_id"@.len() != "updated_at"@.len());
}

/// A model is offered under its name, with the service that it comes from.
pub proof fn model_is_told_with_its_service(alias: Seq<char>, provider: ProviderType)
    ensures
        model_payload(alias, provider).text_field("alias"@) == Some(alias),
        model_payload(alias, provider).text_field("name"@) == Some(alias),
        model_payload(alias, provider).text_field("display_name"@) == Some(alias),
        model_payload(alias, provider).text_field("provider"@) == Some(provider_label(provider)),
        provider_label(ProviderType::OpenRouterCompletion) == "OpenRouterCompletion"@,
        provider_label(ProviderType::OpenRouterResponses) == "OpenRouterResponses"@,
        provider_label(ProviderType::CodexSubscription) == "CodexSubscription"@,
        provider_label(ProviderType::ClaudeCode) == "ClaudeCode"@,
        provider_label(ProviderType::BraveSearch) == "BraveSearch"@,
{
    reveal_strlit("alias");
    reveal_strlit("name");
    reveal_strlit("display_name");
    reveal_strlit("provider");
    assert("alias"@.len() != "name"@.len());
    assert("alias"@.len() != "display_name"@.len());
    assert("alias"@.len() != "provider"@.len());
    assert("name"@.len() != "display_name"@.len());
    assert("name"@.len() != "provider"@.len());
    assert("provider"@.len() != "display_name"@.len());
}

/// A conversation belongs to its own channel and its own chat only; a model is switched to
/// only where one is chosen.
pub proof fn conversation_is_that_of_its_chat(
    m: ConversationMetadata,
    channel: Seq<char>,
    chat: Seq<char>,
    config: StellaclawConfig,
    name: Seq<char>,
)
    ensures
        is_of_chat(m, m.channel_id@, m.platform_chat_id@),
        is_on_channel(m, m.channel_id@),
        channel != m.channel_id@ ==> !is_on_channel(m, channel) && !is_of_chat(m, channel, chat),
        chat != m.platform_chat_id@ ==> !is_of_chat(m, channel, chat),
        chosen_model(config, None) == Ok::<Option<IngressView>, Seq<char>>(None),
        ingress_of(config, ControlView::SwitchModel { model_name: name }) is Ok <==> chosen_model(
            config,
            Some(name),
        ) is Ok,
        ingress_of(config, ControlView::SwitchModel { model_name: name }) is Ok ==> chosen_model(
            config,
            Some(name),
        ) == Ok::<Option<IngressView>, Seq<char>>(
            Some(ingress_of(config, ControlView::SwitchModel { model_name: name })->Ok_0),
        ),
{
}

/// Every event is told under its own name.
pub proof fn events_are_told_by_name(home: HomeEvent, chat: ChatEvent)
    ensures
        home is ConversationUpserted ==> home.type_view() == "home.conversation_upserted"@,
        home is ConversationUpdated ==> home.type_view() == "home.conversation_updated"@,
        home is ConversationDeleted ==> home.type_view() == "home.conversation_deleted"@,
        home is ForegroundSessionUpserted ==> home.type_view() == "home.foreground_session_upserted"@,
        home is ForegroundSessionUpdated ==> home.type_view() == "home.foreground_session_updated"@,
        home is ForegroundSessionDeleted ==> home.type_view() == "home.foreground_session_deleted"@,
        home is ForegroundSessionStateUpdated ==> home.type_view() == "home.foreground_session_state_updated"@,
        home is ForegroundSessionSeenStateUpdated ==> home.type_view() == "home.foreground_session_seen_state_updated"@,
        home is Heartbeat ==> home.type_view() == "home.heartbeat"@,
        home is Error ==> home.type_view() == "home.error"@,
        chat is UserMessageQueued ==> chat.type_view() == "chat.user_message_queued"@,
        chat is UserMessageStarted ==> chat.type_view() == "chat.user_message_started"@,
        chat is UserMessageCommitted ==> chat.type_view() == "chat.user_message_committed"@,
        chat is MessageAppended ==> chat.type_view() == "chat.message_appended"@,
        chat is StreamToolResultDone ==> chat.type_view() == "chat.stream_tool_result_done"@,
        chat is StreamTurnStart ==> chat.type_view() == "chat.stream_turn_start"@,
        chat is StreamAssistantMessageDelta ==> chat.type_view() == "chat.stream_assistant_message_delta"@,
        chat is StreamToolCallDelta ==> chat.type_view() == "chat.stream_tool_call_delta"@,
        chat is StreamReasoningSummaryPartAdded ==> chat.type_view() == "chat.stream_reasoning_summary_part_added"@,
        chat is StreamReasoningSummaryDelta ==> chat.type_view() == "chat.stream_reasoning_summary_delta"@,
        chat is StreamError ==> chat.type_view() == "chat.stream_error"@,
        chat is StreamTurnDone ==> chat.type_view() == "chat.stream_turn_done"@,
        chat is PlanUpdated ==> chat.type_view() == "chat.plan_updated"@,
        chat is Heartbeat ==> chat.type_view() == "chat.heartbeat"@,
{
}

} // verus!

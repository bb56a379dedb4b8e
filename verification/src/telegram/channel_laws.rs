//! Laws of the Telegram channel: what commands ask for, what messages carry, and what is
//! sent.

use vstd::prelude::*;
use crate::channels::{
    kind_name, opt_control, reasoning_control, ControlView, IncomingConversationMessage,
    OutgoingAttachmentKind, OutgoingOption, OutgoingOptions,
};
use crate::chat::FileItem;
use crate::clock::rfc3339_of;
use crate::config::SandboxMode;
use crate::json::JsonView;
use crate::number::{decimal, signed_decimal};
use crate::text::{
    is_char, is_space, lemma_position_is, mark, opt_view, trimmed, trimming_drops_the_space_around,
};
use crate::words::{join_seq, lower_seq};
use super::command::{command_control, first_word, message_control, remote_control, sandbox_control};
use super::flow::{is_incoming, notes_chat, time_of, welcome};
use super::message::{
    document_kind, extension_for, media_type_of_extension, media_attachment, message_attachments,
    message_text, photo_attachment, stored_name, upload_form, user_name, AttachmentView,
    TelegramMedia, TelegramMessage, TelegramPhotoSize, TelegramUser,
};
use super::payload::{
    delivery_text, edit_text_request, entity_json, keyboard_rows, send_text_request, status_text,
    usage_line, usage_text, usage_total, CostTexts, OutgoingStatus, UsageCosts, UsageCounts,
    UsageSummary,
};
use super::render_model::{EntityView, Rendered};
use super::security::{
    admin_command, approval_request, chat_line, chat_report, heard, AdminView, AuthorizationState,
    ChatAuthorization, ChatView, SecurityState,
};

verus! {

// ---------------------------------------------------------------------------
// Commands
// ---------------------------------------------------------------------------
/// Whether a text has no white space at its ends.
pub open spec fn is_tight(t: Seq<char>) -> bool {
    t.len() > 0 && !is_space(t[0]) && !is_space(t.last())
}

/// Whether a text is one word.
pub open spec fn is_word(t: Seq<char>) -> bool {
    t.len() > 0 && forall|i: int| 0 <= i < t.len() ==> !is_space(#[trigger] t[i])
}

pub open spec fn all_space(t: Seq<char>) -> bool {
    forall|i: int| 0 <= i < t.len() ==> is_space(#[trigger] t[i])
}

proof fn lemma_tight(t: Seq<char>)
    requires
        is_tight(t),
    ensures
        trimmed(t) == t,
{
    let e = Seq::<char>::empty();
    trimming_drops_the_space_around(e, t, e);
    assert(e + t + e =~= t);
}

proof fn lemma_first_word(w: Seq<char>, space: char, rest: Seq<char>)
    requires
        is_word(w),
        is_space(space),
    ensures
        first_word(w + seq![space] + rest) == (w, rest),
        first_word(w) == (w, Seq::<char>::empty()),
{
    let s = w + seq![space] + rest;
    let p = |x: char| is_space(x);
    lemma_position_is(s, p, w.len() as int);
    assert(s.take(w.len() as int) =~= w);
    assert(s.skip(w.len() as int + 1) =~= rest);
    lemma_position_is(w, p, w.len() as int);
}

/// A command may be addressed to a bot by its name, and white space around it and before its
/// argument does not matter.
pub proof fn command_and_argument_are_read(
    before: Seq<char>,
    command: Seq<char>,
    bot: Seq<char>,
    space: char,
    more: Seq<char>,
    argument: Seq<char>,
    after: Seq<char>,
)
    requires
        all_space(before),
        all_space(more),
        all_space(after),
        is_space(space),
        is_word(command),
        is_word(bot),
        !command.contains('@'),
        is_tight(argument),
    ensures
        message_control(before + command + after) == command_control(command, Seq::empty()),
        message_control(before + (command + seq!['@'] + bot) + after) == command_control(
            command,
            Seq::empty(),
        ),
        message_control(before + (command + seq![space] + (more + argument)) + after)
            == command_control(command, argument),
        message_control(
            before + (command + seq!['@'] + bot + seq![space] + (more + argument)) + after,
        ) == command_control(command, argument),
        message_control(before + after) is None,
{
    let e = Seq::<char>::empty();
    let named = command + seq!['@'] + bot;
    assert(is_word(named)) by {
        assert forall|i: int| 0 <= i < named.len() implies !is_space(#[trigger] named[i]) by {
            if i < command.len() {
                assert(named[i] == command[i]);
            } else if i > command.len() {
                assert(named[i] == bot[i - command.len() - 1]);
            }
        }
    }
    assert(command[0] == command[0] && !is_space(command[0]) && !is_space(
        command[command.len() - 1],
    ));
    assert(!is_space(named[0]) && !is_space(named[named.len() - 1]));
    let rest = more + argument;
    let a = command + seq![space] + rest;
    let b = named + seq![space] + rest;
    trimming_drops_the_space_around(before, command, after);
    trimming_drops_the_space_around(before, named, after);
    trimming_drops_the_space_around(before, a, after);
    trimming_drops_the_space_around(before, b, after);
    trimming_drops_the_space_around(before, e, after);
    assert(before + e + after =~= before + after);
    trimming_drops_the_space_around(more, argument, e);
    assert(more + argument + e =~= rest);
    trimming_drops_the_space_around(e, e, e);
    assert(e + e + e =~= e);
    lemma_first_word(command, space, rest);
    lemma_first_word(named, space, rest);
    lemma_position_is(command, is_char('@'), command.len() as int);
    assert(command.take(command.len() as int) =~= command);
    lemma_position_is(named, is_char('@'), command.len() as int);
    assert(named.take(command.len() as int) =~= command);
}

proof fn lemma_commands()
    ensures
        mark("/continue"@) == 122465225,
        mark("/cancel"@) == 116231111,
        mark("/compact"@) == 118393800,
        mark("/status"@) == 102656967,
        mark("/model"@) == 105745350,
        mark("/reasoning"@) == 117238730,
        mark("/remote"@) == 115125191,
        mark("/sandbox"@) == 105843656,
{
    reveal_strlit("/continue");
    reveal_strlit("/cancel");
    reveal_strlit("/compact");
    reveal_strlit("/status");
    reveal_strlit("/model");
    reveal_strlit("/reasoning");
    reveal_strlit("/remote");
    reveal_strlit("/sandbox");
}

/// Each command asks for what its name says. Those that take no argument are plain text with
/// one, and a text that is no command asks for nothing.
pub proof fn commands_ask_for_what_they_name(argument: Seq<char>, other: Seq<char>)
    requires
        argument.len() > 0,
        other != "/continue"@ && other != "/cancel"@ && other != "/compact"@ && other != "/status"@
            && other != "/model"@ && other != "/reasoning"@ && other != "/remote"@ && other
            != "/sandbox"@,
    ensures
        ({
            let none = Seq::<char>::empty();
            &&& command_control("/continue"@, none) == Some(ControlView::Continue)
            &&& command_control("/cancel"@, none) == Some(ControlView::Cancel)
            &&& command_control("/compact"@, none) == Some(ControlView::Compact)
            &&& command_control("/status"@, none) == Some(ControlView::ShowStatus)
            &&& command_control("/model"@, none) == Some(ControlView::ShowModel)
            &&& command_control("/remote"@, none) == Some(ControlView::ShowRemote)
            &&& command_control("/sandbox"@, none) == Some(ControlView::ShowSandbox)
            &&& command_control("/reasoning"@, none) == Some(ControlView::ShowReasoning)
            &&& command_control("/continue"@, argument) is None
            &&& command_control("/cancel"@, argument) is None
            &&& command_control("/compact"@, argument) is None
            &&& command_control("/status"@, argument) is None
            &&& command_control("/model"@, argument) == Some(
                ControlView::SwitchModel { model_name: argument },
            )
            &&& command_control("/remote"@, "off"@) == Some(ControlView::DisableRemote)
            &&& command_control(other, none) is None
            &&& command_control(other, argument) is None
        }),
{
    lemma_commands();
    let e = Seq::<char>::empty();
    trimming_drops_the_space_around(e, e, e);
    assert(e + e + e =~= e);
    reveal_strlit("off");
    assert(lower_seq("off"@) =~= "off"@);
}

/// A remote is a host and a path behind it; one without the other is refused.
pub proof fn remote_is_host_and_path(host: Seq<char>, space: char, path: Seq<char>)
    requires
        is_word(host),
        is_space(space),
        is_tight(path),
    ensures
        remote_control(host + seq![space] + path) == (ControlView::SetRemote { host, path }),
        remote_control(host) is InvalidRemote,
        remote_control(Seq::empty()) is InvalidRemote,
{
    let e = Seq::<char>::empty();
    let s = host + seq![space] + path;
    assert(!is_space(host[0]) && !is_space(host[host.len() - 1]));
    assert(s.last() == path.last());
    lemma_tight(s);
    lemma_tight(host);
    lemma_tight(path);
    lemma_first_word(host, space, path);
    trimming_drops_the_space_around(e, e, e);
    assert(e + e + e =~= e);
    lemma_position_is(e, |x: char| is_space(x), 0);
}

proof fn lemma_sandbox_words()
    ensures
        mark("default"@) == 102668551,
        mark("global"@) == 103651782,
        mark("subprocess"@) == 117341386,
        mark("off"@) == 107797443,
        mark("none"@) == 116177796,
        mark("disabled"@) == 103586056,
        mark("bubblewrap"@) == 106829962,
        mark("bwrap"@) == 120461445,
{
    reveal_strlit("default");
    reveal_strlit("global");
    reveal_strlit("subprocess");
    reveal_strlit("off");
    reveal_strlit("none");
    reveal_strlit("disabled");
    reveal_strlit("bubblewrap");
    reveal_strlit("bwrap");
}

/// The words for the sandbox name its modes; another word is refused, and the message names
/// it.
pub proof fn sandbox_words_name_modes()
    ensures
        sandbox_control("default"@) == (ControlView::SetSandbox { mode: None }),
        sandbox_control("global"@) == (ControlView::SetSandbox { mode: None }),
        sandbox_control("subprocess"@) == (ControlView::SetSandbox {
            mode: Some(SandboxMode::Subprocess),
        }),
        sandbox_control("off"@) == (ControlView::SetSandbox {
            mode: Some(SandboxMode::Subprocess),
        }),
        sandbox_control("none"@) == (ControlView::SetSandbox {
            mode: Some(SandboxMode::Subprocess),
        }),
        sandbox_control("disabled"@) == (ControlView::SetSandbox {
            mode: Some(SandboxMode::Subprocess),
        }),
        sandbox_control("bubblewrap"@) == (ControlView::SetSandbox {
            mode: Some(SandboxMode::Bubblewrap),
        }),
        sandbox_control("bwrap"@) == (ControlView::SetSandbox {
            mode: Some(SandboxMode::Bubblewrap),
        }),
        forall|w: Seq<char>|
            is_tight(w) && lower_seq(w) != "default"@ && lower_seq(w) != "global"@ && lower_seq(w)
                != "subprocess"@ && lower_seq(w) != "off"@ && lower_seq(w) != "none"@ && lower_seq(
                w,
            ) != "disabled"@ && lower_seq(w) != "bubblewrap"@ && lower_seq(w) != "bwrap"@
                ==> #[trigger] sandbox_control(w) is InvalidSandbox,
{
    lemma_sandbox_words();
    reveal_strlit("default");
    lemma_tight("default"@);
    assert(lower_seq("default"@) =~= "default"@);
    reveal_strlit("global");
    lemma_tight("global"@);
    assert(lower_seq("global"@) =~= "global"@);
    reveal_strlit("subprocess");
    lemma_tight("subprocess"@);
    assert(lower_seq("subprocess"@) =~= "subprocess"@);
    reveal_strlit("off");
    lemma_tight("off"@);
    assert(lower_seq("off"@) =~= "off"@);
    reveal_strlit("none");
    lemma_tight("none"@);
    assert(lower_seq("none"@) =~= "none"@);
    reveal_strlit("disabled");
    lemma_tight("disabled"@);
    assert(lower_seq("disabled"@) =~= "disabled"@);
    reveal_strlit("bubblewrap");
    lemma_tight("bubblewrap"@);
    assert(lower_seq("bubblewrap"@) =~= "bubblewrap"@);
    reveal_strlit("bwrap");
    lemma_tight("bwrap"@);
    assert(lower_seq("bwrap"@) =~= "bwrap"@);
    assert forall|w: Seq<char>|
        is_tight(w) && lower_seq(w) != "default"@ && lower_seq(w) != "global"@ && lower_seq(w)
            != "subprocess"@ && lower_seq(w) != "off"@ && lower_seq(w) != "none"@ && lower_seq(w)
            != "disabled"@ && lower_seq(w) != "bubblewrap"@ && lower_seq(w) != "bwrap"@ implies
        #[trigger] sandbox_control(w) is InvalidSandbox by {
        lemma_tight(w);
    }
}

/// The effort of the reasoning is set to one of its levels, in whatever case it is written,
/// or back to that of the model; another word is refused.
pub proof fn effort_is_one_of_the_levels(w: Seq<char>)
    requires
        is_tight(w),
    ensures
        ({
            let l = lower_seq(w);
            let level = l == "minimal"@ || l == "low"@ || l == "medium"@ || l == "high"@ || l
                == "xhigh"@;
            let own = l == "default"@ || l == "model"@ || l == "model_default"@ || l
                == "model-default"@ || l == "global"@;
            &&& own ==> reasoning_control(w) == (ControlView::SetReasoning { effort: None })
            &&& !own && level ==> reasoning_control(w) == (ControlView::SetReasoning {
                effort: Some(l),
            })
            &&& !own && !level ==> reasoning_control(w) is InvalidReasoning
        }),
        reasoning_control(Seq::empty()) == ControlView::ShowReasoning,
{
    lemma_tight(w);
    let e = Seq::<char>::empty();
    trimming_drops_the_space_around(e, e, e);
    assert(e + e + e =~= e);
}

/// The commands of administrators name the chat that they decide on.
pub proof fn admin_commands_name_their_chat(id: Seq<char>, more: Seq<char>, after: Seq<char>)
    requires
        is_tight(id),
        all_space(more),
        all_space(after),
    ensures
        admin_command("/admin_chat_list"@) == Some(AdminView::List),
        admin_command("/admin_chat_approve "@ + more + id + after) == Some(
            AdminView::Approve { chat_id: id },
        ),
        admin_command("/admin_chat_reject "@ + more + id + after) == Some(
            AdminView::Reject { chat_id: id },
        ),
        admin_command(id) matches Some(AdminView::List) ==> id == "/admin_chat_list"@,
        id[0] != '/' ==> admin_command(id) is None,
{
    let e = Seq::<char>::empty();
    reveal_strlit("/admin_chat_list");
    reveal_strlit("/admin_chat_approve ");
    reveal_strlit("/admin_chat_reject ");
    lemma_tight("/admin_chat_list"@);
    lemma_tight(id);
    let a = "/admin_chat_approve "@ + more + id;
    let r = "/admin_chat_reject "@ + more + id;
    assert(a.last() == id.last() && r.last() == id.last());
    trimming_drops_the_space_around(e, a, after);
    trimming_drops_the_space_around(e, r, after);
    assert(e + a + after =~= "/admin_chat_approve "@ + more + id + after);
    assert(e + r + after =~= "/admin_chat_reject "@ + more + id + after);
    assert(a.subrange(0, 20) =~= "/admin_chat_approve "@);
    assert(r.subrange(0, 19) =~= "/admin_chat_reject "@);
    assert(a.skip(20) =~= more + id + e);
    assert(r.skip(19) =~= more + id + e);
    trimming_drops_the_space_around(more, id, e);
    assert(a[12] == 'a' && r[12] == 'r' && "/admin_chat_list"@[12] == 'l');
    assert(r.subrange(0, 20)[12] != "/admin_chat_approve "@[12]);
    if id[0] != '/' {
        if "/admin_chat_approve "@.is_prefix_of(id) {
            assert(id.subrange(0, 20)[0] == id[0]);
        }
        if "/admin_chat_reject "@.is_prefix_of(id) {
            assert(id.subrange(0, 19)[0] == id[0]);
        }
    }
}

/// The report on chats has a head and one line for each chat, in order, with its id and its
/// state.
pub proof fn report_lists_every_chat(
    channel_id: Seq<char>,
    entries: Seq<(String, ChatAuthorization)>,
) -> (lines: Seq<Seq<char>>)
    ensures
        chat_report(channel_id, entries) == join_seq(lines, "\n"@),
        lines.len() == entries.len() + 1,
        forall|i: int|
            0 <= i < entries.len() ==> ("- "@ + (#[trigger] entries[i]).0@ + ": "@ + (
            match entries[i].1.state {
                AuthorizationState::Pending => "Pending"@,
                AuthorizationState::Approved => "Approved"@,
                AuthorizationState::Rejected => "Rejected"@,
            })).is_prefix_of(lines[i + 1]),
{
    let f = |e: (String, ChatAuthorization)| super::security::chat_line(e.0@, e.1@);
    let lines = seq!["channel `"@ + channel_id + "` 当前 chat 审批状态:"@] + entries.map_values(f);
    assert forall|i: int| 0 <= i < entries.len() implies ("- "@ + (#[trigger] entries[i]).0@ + ": "@
        + (match entries[i].1.state {
        AuthorizationState::Pending => "Pending"@,
        AuthorizationState::Approved => "Approved"@,
        AuthorizationState::Rejected => "Rejected"@,
    })).is_prefix_of(lines[i + 1]) by {
        let p = "- "@ + entries[i].0@ + ": "@ + super::security::state_name(entries[i].1.state);
        assert(lines[i + 1].subrange(0, p.len() as int) =~= p);
    }
    lines
}

// ---------------------------------------------------------------------------
// Messages
// ---------------------------------------------------------------------------
/// A user is called by the name that they chose, else by first and last name.
pub proof fn user_is_called_by_name(user: TelegramUser)
    ensures
        user.username is Some ==> user_name(user) == user.username->0@,
        user.username is None && user.last_name is None && is_tight(user.first_name@) ==> user_name(
            user,
        ) == user.first_name@,
        user.username is None && user.last_name is Some && is_tight(user.first_name@) && is_tight(
            user.last_name->0@,
        ) ==> user_name(user) == user.first_name@ + " "@ + user.last_name->0@,
{
    reveal_strlit(" ");
    let e = Seq::<char>::empty();
    let first = user.first_name@;
    if user.username is None && is_tight(first) {
        if user.last_name is None {
            trimming_drops_the_space_around(e, first, " "@);
            assert(e + first + " "@ =~= first + " "@ + e);
        } else {
            let both = first + " "@ + user.last_name->0@;
            if is_tight(user.last_name->0@) {
                lemma_tight(both);
            }
        }
    }
}

/// A message carries the largest size of its photo, which is the last, and each of its other
/// files, with its own id, its name and its type.
pub proof fn message_carries_its_files(m: TelegramMessage)
    ensures
        ({
            let all = message_attachments(m);
            &&& m.photo matches Some(p) ==> p@.len() > 0 ==> all.len() > 0 && all[0].file_id
                == p@[p@.len() - 1].file_id@ && all[0].kind == OutgoingAttachmentKind::Image
            &&& m.document matches Some(d) ==> exists|i: int|
                0 <= i < all.len() && (#[trigger] all[i]).file_id == d.file_id@ && all[i].file_name
                    == opt_view(d.file_name) && all[i].media_type == opt_view(d.mime_type)
            &&& m.audio matches Some(d) ==> exists|i: int|
                0 <= i < all.len() && (#[trigger] all[i]).file_id == d.file_id@ && all[i].kind
                    == OutgoingAttachmentKind::Audio
            &&& m.voice matches Some(d) ==> exists|i: int|
                0 <= i < all.len() && (#[trigger] all[i]).file_id == d.file_id@ && all[i].kind
                    == OutgoingAttachmentKind::Voice
            &&& m.video matches Some(d) ==> exists|i: int|
                0 <= i < all.len() && (#[trigger] all[i]).file_id == d.file_id@ && all[i].kind
                    == OutgoingAttachmentKind::Video
            &&& m.animation matches Some(d) ==> exists|i: int|
                0 <= i < all.len() && (#[trigger] all[i]).file_id == d.file_id@ && all[i].kind
                    == OutgoingAttachmentKind::Animation
        }),
{
    use_media(m);
}

proof fn use_media(m: TelegramMessage)
    ensures
        ({
            let all = message_attachments(m);
            let p = super::message::photo_attachment(m.photo).len() as int;
            let d = p + (if m.document is Some { 1int } else { 0 });
            let a = d + (if m.audio is Some { 1int } else { 0 });
            let v = a + (if m.voice is Some { 1int } else { 0 });
            let w = v + (if m.video is Some { 1int } else { 0 });
            let n = w + (if m.animation is Some { 1int } else { 0 });
            &&& all.len() == n
            &&& p > 0 ==> all[0] == super::message::photo_attachment(m.photo)[0]
            &&& m.document is Some ==> all[p] == super::message::media_attachment(
                m.document,
                document_kind(opt_view(m.document->0.mime_type)),
            )[0]
            &&& m.audio is Some ==> all[d] == super::message::media_attachment(
                m.audio,
                OutgoingAttachmentKind::Audio,
            )[0]
            &&& m.voice is Some ==> all[a] == super::message::media_attachment(
                m.voice,
                OutgoingAttachmentKind::Voice,
            )[0]
            &&& m.video is Some ==> all[v] == super::message::media_attachment(
                m.video,
                OutgoingAttachmentKind::Video,
            )[0]
            &&& m.animation is Some ==> all[w] == super::message::media_attachment(
                m.animation,
                OutgoingAttachmentKind::Animation,
            )[0]
        }),
{
}

/// A document is of the kind that its media type names, whatever the type is of that kind.
pub proof fn document_is_of_its_kind(rest: Seq<char>)
    ensures
        document_kind(Some("image/"@ + rest)) == OutgoingAttachmentKind::Image,
        document_kind(Some("audio/"@ + rest)) == OutgoingAttachmentKind::Audio,
        document_kind(Some("video/"@ + rest)) == OutgoingAttachmentKind::Video,
        document_kind(Some("text/"@ + rest)) == OutgoingAttachmentKind::Document,
        document_kind(None) == OutgoingAttachmentKind::Document,
{
    reveal_strlit("image/");
    reveal_strlit("audio/");
    reveal_strlit("video/");
    reveal_strlit("text/");
    let (i, a, v, t) = ("image/"@ + rest, "audio/"@ + rest, "video/"@ + rest, "text/"@ + rest);
    assert(i.subrange(0, 6) =~= "image/"@);
    assert(a.subrange(0, 6) =~= "audio/"@);
    assert(v.subrange(0, 6) =~= "video/"@);
    assert(a[0] == 'a' && v[0] == 'v' && t[0] == 't');
    if "image/"@.is_prefix_of(a) {
        assert(a.subrange(0, 6)[0] == 'a');
    }
    if "image/"@.is_prefix_of(v) || "audio/"@.is_prefix_of(v) {
        assert(v.subrange(0, 6)[0] == 'v');
    }
    if "image/"@.is_prefix_of(t) || "audio/"@.is_prefix_of(t) || "video/"@.is_prefix_of(t) {
        assert(t.subrange(0, 6)[0] == 't');
    }
}

/// A file keeps its name but for the characters that no file name can hold; one without a
/// name gets one from its kind, its id and its type.
pub proof fn file_keeps_its_name(a: AttachmentView, i: int)
    ensures
        a.file_name matches Some(name) ==> trimmed(name).len() > 0 ==> {
            &&& stored_name(a).len() == name.len()
            &&& 0 <= i < name.len() && name[i] != '/' && name[i] != '\\' && name[i] != ':' && name[i]
                != '*' && name[i] != '?' && name[i] != '"' && name[i] != '<' && name[i] != '>'
                && name[i] != '|' ==> stored_name(a)[i] == name[i]
            &&& 0 <= i < name.len() && (name[i] == '/' || name[i] == '\\' || name[i] == ':' || name[i]
                == '*' || name[i] == '?' || name[i] == '"' || name[i] == '<' || name[i] == '>'
                || name[i] == '|') ==> stored_name(a)[i] == '_'
        },
        a.file_name is None ==> stored_name(a) == "telegram-"@ + kind_name(a.kind) + "-"@
            + a.file_unique_id + "."@ + extension_for(a.media_type, a.kind),
{
    if let Some(name) = a.file_name {
        if name.len() == 0 {
            let e = Seq::<char>::empty();
            trimming_drops_the_space_around(e, e, e);
            assert(e + e + e =~= e);
            assert(name =~= e);
        }
    }
}

proof fn lemma_types()
    ensures
        mark("image/png"@) == 106756681,
        mark("image/webp"@) == 50207306,
        mark("image/gif"@) == 106748489,
        mark("audio/mpeg"@) == 50133066,
        mark("audio/ogg"@) == 117241929,
        mark("audio/wav"@) == 117364809,
        mark("video/mp4"@) == 116825481,
        mark("application/pdf"@) == 122476623,
        mark("image/jpeg"@) == 50133578,
{
    reveal_strlit("image/png");
    reveal_strlit("image/webp");
    reveal_strlit("image/gif");
    reveal_strlit("audio/mpeg");
    reveal_strlit("audio/ogg");
    reveal_strlit("audio/wav");
    reveal_strlit("video/mp4");
    reveal_strlit("application/pdf");
    reveal_strlit("image/jpeg");
}

proof fn lemma_media_extensions()
    ensures
        mark("png"@) == 116194307,
        mark("jpg"@) == 118291075,
        mark("jpeg"@) == 106756740,
        mark("webp"@) == 103685572,
        mark("gif"@) == 110942659,
        mark("pdf"@) == 105700355,
        mark("mp3"@) == 117865283,
        mark("ogg"@) == 108854211,
        mark("wav"@) == 102686147,
        mark("mp4"@) == 117873475,
{
    reveal_strlit("png");
    reveal_strlit("jpg");
    reveal_strlit("jpeg");
    reveal_strlit("webp");
    reveal_strlit("gif");
    reveal_strlit("pdf");
    reveal_strlit("mp3");
    reveal_strlit("ogg");
    reveal_strlit("wav");
    reveal_strlit("mp4");
}

/// The extension of a file and its media type name each other.
pub proof fn extensions_and_types_name_each_other(kind: OutgoingAttachmentKind)
    ensures
        extension_for(Some("image/png"@), kind) == "png"@,
        media_type_of_extension("png"@) == Some("image/png"@),
        extension_for(Some("image/webp"@), kind) == "webp"@,
        media_type_of_extension("webp"@) == Some("image/webp"@),
        extension_for(Some("image/gif"@), kind) == "gif"@,
        media_type_of_extension("gif"@) == Some("image/gif"@),
        extension_for(Some("audio/mpeg"@), kind) == "mp3"@,
        media_type_of_extension("mp3"@) == Some("audio/mpeg"@),
        extension_for(Some("audio/ogg"@), kind) == "ogg"@,
        media_type_of_extension("ogg"@) == Some("audio/ogg"@),
        extension_for(Some("audio/wav"@), kind) == "wav"@,
        media_type_of_extension("wav"@) == Some("audio/wav"@),
        extension_for(Some("video/mp4"@), kind) == "mp4"@,
        media_type_of_extension("mp4"@) == Some("video/mp4"@),
        extension_for(Some("application/pdf"@), kind) == "pdf"@,
        media_type_of_extension("pdf"@) == Some("application/pdf"@),
        media_type_of_extension("jpg"@) == Some("image/jpeg"@),
        media_type_of_extension("jpeg"@) == Some("image/jpeg"@),
{
    lemma_types();
    lemma_media_extensions();
    reveal_strlit("png");
    assert(lower_seq("png"@) =~= "png"@);
    reveal_strlit("jpg");
    assert(lower_seq("jpg"@) =~= "jpg"@);
    reveal_strlit("jpeg");
    assert(lower_seq("jpeg"@) =~= "jpeg"@);
    reveal_strlit("webp");
    assert(lower_seq("webp"@) =~= "webp"@);
    reveal_strlit("gif");
    assert(lower_seq("gif"@) =~= "gif"@);
    reveal_strlit("pdf");
    assert(lower_seq("pdf"@) =~= "pdf"@);
    reveal_strlit("mp3");
    assert(lower_seq("mp3"@) =~= "mp3"@);
    reveal_strlit("ogg");
    assert(lower_seq("ogg"@) =~= "ogg"@);
    reveal_strlit("wav");
    assert(lower_seq("wav"@) =~= "wav"@);
    reveal_strlit("mp4");
    assert(lower_seq("mp4"@) =~= "mp4"@);
}

/// Each kind of file is sent by its own method, under its own name.
pub proof fn files_are_sent_by_their_kind(kind: OutgoingAttachmentKind)
    ensures
        upload_form(kind) == match kind {
            OutgoingAttachmentKind::Image => ("photo"@, "sendPhoto"@),
            OutgoingAttachmentKind::Audio => ("audio"@, "sendAudio"@),
            OutgoingAttachmentKind::Voice => ("voice"@, "sendVoice"@),
            OutgoingAttachmentKind::Video => ("video"@, "sendVideo"@),
            OutgoingAttachmentKind::Animation => ("animation"@, "sendAnimation"@),
            OutgoingAttachmentKind::Document => ("document"@, "sendDocument"@),
        },
{
}

// ---------------------------------------------------------------------------
// What is sent
// ---------------------------------------------------------------------------
proof fn lemma_keys()
    ensures
        mark("chat_id"@) == 122460359,
        mark("text"@) == 126786820,
        mark("disable_web_page_preview"@) == 118421784,
        mark("entities"@) == 122583368,
        mark("reply_markup"@) == 115219596,
        mark("message_id"@) == 108829514,
{
    reveal_strlit("chat_id");
    reveal_strlit("text");
    reveal_strlit("disable_web_page_preview");
    reveal_strlit("entities");
    reveal_strlit("reply_markup");
    reveal_strlit("message_id");
}

proof fn lemma_entity_keys()
    ensures
        mark("type"@) == 118275332,
        mark("offset"@) == 121543622,
        mark("length"@) == 108862214,
        mark("url"@) == 120429891,
        mark("language"@) == 123517704,
{
    reveal_strlit("type");
    reveal_strlit("offset");
    reveal_strlit("length");
    reveal_strlit("url");
    reveal_strlit("language");
}

/// A request carries the chat, the whole text, its entities in order and, where there are
/// options, their buttons; nothing that is empty is sent.
pub proof fn request_carries_the_message(
    chat_id: Seq<char>,
    message_id: i64,
    r: Rendered,
    options: Option<OutgoingOptions>,
)
    ensures
        ({
            let v = send_text_request(chat_id, r, options);
            let w = edit_text_request(chat_id, message_id, r);
            &&& v.text_field("chat_id"@) == Some(chat_id)
            &&& v.text_field("text"@) == Some(r.text)
            &&& v.bool_field("disable_web_page_preview"@) == Some(true)
            &&& w.text_field("chat_id"@) == Some(chat_id)
            &&& w.field("message_id"@) == Some(JsonView::signed(message_id))
            &&& w.text_field("text"@) == Some(r.text)
            &&& r.entities.len() == 0 ==> v.field("entities"@) is None && w.field("entities"@) is None
            &&& r.entities.len() > 0 ==> v.field("entities"@) == Some(
                JsonView::Array(r.entities.map_values(|e: EntityView| entity_json(e))),
            ) && w.field("entities"@) == v.field("entities"@)
            &&& options is None ==> v.field("reply_markup"@) is None
            &&& options matches Some(o) ==> {
                &&& o.options@.len() == 0 ==> v.field("reply_markup"@) is None
                &&& o.options@.len() > 0 ==> (v.field("reply_markup"@) matches Some(m) && m.field(
                    "inline_keyboard"@,
                ) == Some(JsonView::Array(keyboard_rows(o.options@))))
            }
        }),
{
    lemma_keys();
}

/// An entity is sent with its kind, its place, and its address or language where it has one.
pub proof fn entity_is_sent_whole(e: EntityView)
    requires
        e.offset <= u64::MAX,
        e.length <= u64::MAX,
    ensures
        entity_json(e).text_field("type"@) == Some(e.kind),
        entity_json(e).unsigned_field("offset"@) == Some(e.offset as u64),
        entity_json(e).unsigned_field("length"@) == Some(e.length as u64),
        entity_json(e).text_field("url"@) == e.url,
        entity_json(e).text_field("language"@) == e.language,
{
    lemma_entity_keys();
}

/// The buttons stand two in a row, in order: the option with number `i` is in row `i / 2`,
/// with its label and what it answers.
pub proof fn buttons_stand_in_order(options: Seq<OutgoingOption>, i: int)
    requires
        0 <= i < options.len(),
    ensures
        keyboard_rows(options).len() == (options.len() + 1) / 2,
        keyboard_rows(options)[i / 2] matches JsonView::Array(row) && i % 2 < row.len()
            && row.len() <= 2 && row[i % 2].text_field("text"@) == Some(options[i].label@)
            && row[i % 2].text_field("callback_data"@) == Some(options[i].value@),
    decreases options.len(),
{
    reveal_strlit("text");
    reveal_strlit("callback_data");
    assert("text"@.len() != "callback_data"@.len());
    if options.len() > 2 {
        let rest = options.skip(2);
        if i >= 2 {
            buttons_stand_in_order(rest, i - 2);
            assert(rest[i - 2] == options[i]);
            assert(i / 2 == (i - 2) / 2 + 1);
            assert(i % 2 == (i - 2) % 2);
        } else {
            buttons_stand_in_order(rest, 0);
        }
    } else if options.len() == 2 {
        let rest = options.skip(2);
        assert(rest =~= Seq::empty());
        assert(keyboard_rows(rest).len() == 0);
    }
}

/// A delivery shows its own text, else that of its message, else the question it asks.
pub proof fn delivery_shows_the_first_text(
    own: Seq<char>,
    message: Seq<char>,
    prompt: Seq<char>,
    blank: Seq<char>,
)
    requires
        is_tight(own),
        is_tight(message),
        all_space(blank),
    ensures
        delivery_text(own, Some(message), Some(prompt)) == own,
        delivery_text(blank, Some(message), Some(prompt)) == message,
        delivery_text(blank, Some(blank), Some(prompt)) == prompt,
        delivery_text(blank, None, Some(prompt)) == prompt,
        delivery_text(blank, None, None).len() == 0,
{
    let e = Seq::<char>::empty();
    lemma_tight(own);
    lemma_tight(message);
    trimming_drops_the_space_around(blank, e, e);
    assert(blank + e + e =~= blank);
    reveal_strlit("");
}

/// Whether a text holds another.
pub open spec fn shows(text: Seq<char>, part: Seq<char>) -> bool {
    exists|a: Seq<char>, b: Seq<char>| text == #[trigger] (a + part + b)
}

proof fn lemma_shows(text: Seq<char>, a: Seq<char>, part: Seq<char>, b: Seq<char>)
    requires
        text =~= a + part + b,
    ensures
        shows(text, part),
{
    assert(text == a + part + b);
}

/// The status shows each setting behind its own name, one after another, and then the use.
pub proof fn status_shows_every_setting(s: OutgoingStatus, usage: Seq<char>)
    ensures
        ({
            let head = "当前状态\nconversation: `"@ + s.conversation_id@ + ("`\nmodel: `"@ + s.model@)
                + ("`\nreasoning: `"@ + s.reasoning@);
            let place = "`\nsandbox: `"@ + s.sandbox@ + ("` ("@ + s.sandbox_source@) + (
            ")\nremote: "@ + s.remote@) + ("\nworkspace: `"@ + s.workspace@);
            let work = "`\nbackground: "@ + decimal(s.running_background as nat) + " running / "@
                + decimal(s.total_background as nat) + (" total\nsubagents: "@ + decimal(
                s.running_subagents as nat,
            ) + " running / "@ + decimal(s.total_subagents as nat));
            status_text(s, usage) == head + place + work + " total\n\n"@ + usage
        }),
{
    let head = "当前状态\nconversation: `"@ + s.conversation_id@ + ("`\nmodel: `"@ + s.model@) + (
    "`\nreasoning: `"@ + s.reasoning@);
    let place = "`\nsandbox: `"@ + s.sandbox@ + ("` ("@ + s.sandbox_source@) + (")\nremote: "@
        + s.remote@) + ("\nworkspace: `"@ + s.workspace@);
    let h = "当前状态\nconversation: `"@ + s.conversation_id@ + "`\nmodel: `"@ + s.model@
        + "`\nreasoning: `"@ + s.reasoning@;
    assert(h =~= head);
    let p = h + "`\nsandbox: `"@ + s.sandbox@ + "` ("@ + s.sandbox_source@ + ")\nremote: "@
        + s.remote@ + "\nworkspace: `"@ + s.workspace@;
    assert(p =~= head + place);
    let running = decimal(s.running_background as nat);
    let total = decimal(s.total_background as nat);
    let sub = " total\nsubagents: "@ + decimal(s.running_subagents as nat) + " running / "@
        + decimal(s.total_subagents as nat);
    let work = "`\nbackground: "@ + running + " running / "@ + total + sub;
    assert(p + "`\nbackground: "@ + running + " running / "@ + total + " total\nsubagents: "@
        + decimal(s.running_subagents as nat) + " running / "@ + decimal(
        s.total_subagents as nat,
    ) =~= p + work);
}

/// The total use is the sum of the four kinds of use, unless it is too large.
pub proof fn total_use_is_the_sum(s: UsageSummary)
    requires
        s.foreground.output + s.background.output + s.subagents.output + s.media_tools.output
            <= u64::MAX,
        s.foreground.cache_read + s.background.cache_read + s.subagents.cache_read
            + s.media_tools.cache_read <= u64::MAX,
        s.foreground.cache_write + s.background.cache_write + s.subagents.cache_write
            + s.media_tools.cache_write <= u64::MAX,
        s.foreground.uncache_input + s.background.uncache_input + s.subagents.uncache_input
            + s.media_tools.uncache_input <= u64::MAX,
    ensures
        usage_total(s).output == s.foreground.output + s.background.output + s.subagents.output
            + s.media_tools.output,
        usage_total(s).cache_read == s.foreground.cache_read + s.background.cache_read
            + s.subagents.cache_read + s.media_tools.cache_read,
        usage_total(s).cache_write == s.foreground.cache_write + s.background.cache_write
            + s.subagents.cache_write + s.media_tools.cache_write,
        usage_total(s).uncache_input == s.foreground.uncache_input + s.background.uncache_input
            + s.subagents.uncache_input + s.media_tools.uncache_input,
{
}

/// A line of the use shows each number behind its name, with its cost.
pub proof fn usage_line_shows_every_number(label: Seq<char>, n: UsageCounts, c: CostTexts)
    ensures
        ({
            let t = usage_line(label, n, c);
            &&& ("- "@ + label + ": read "@ + decimal(n.cache_read as nat) + " ($"@
                + c.cache_read@).is_prefix_of(t)
            &&& shows(t, "), write "@ + decimal(n.cache_write as nat) + " ($"@ + c.cache_write@)
            &&& shows(t, "), input "@ + decimal(n.uncache_input as nat) + " ($"@ + c.uncache_input@)
            &&& shows(t, "), output "@ + decimal(n.output as nat) + " ($"@ + c.output@)
            &&& ("), total $"@ + c.total@).is_suffix_of(t)
        }),
{
    let t = usage_line(label, n, c);
    let p0 = "- "@ + label + ": read "@ + decimal(n.cache_read as nat) + " ($"@ + c.cache_read@;
    let p1 = "), write "@ + decimal(n.cache_write as nat) + " ($"@ + c.cache_write@;
    let p2 = "), input "@ + decimal(n.uncache_input as nat) + " ($"@ + c.uncache_input@;
    let p3 = "), output "@ + decimal(n.output as nat) + " ($"@ + c.output@;
    let p4 = "), total $"@ + c.total@;
    assert(t =~= p0 + p1 + p2 + p3 + p4);
    assert(t.subrange(0, p0.len() as int) =~= p0);
    lemma_shows(t, p0, p1, p2 + p3 + p4);
    lemma_shows(t, p0 + p1, p2, p3 + p4);
    lemma_shows(t, p0 + p1 + p2, p3, p4);
    assert(t.subrange(t.len() - p4.len(), t.len() as int) =~= p4);
}

/// The use is told in total first, then by who used it.
pub proof fn use_is_told_line_by_line(s: UsageSummary, c: UsageCosts)
    ensures
        usage_text(s, c) == join_seq(
            seq![
                "token usage"@,
                usage_line("total"@, usage_total(s), c.total),
                usage_line("foreground"@, s.foreground, c.foreground),
                usage_line("background"@, s.background, c.background),
                usage_line("subagents"@, s.subagents, c.subagents),
                usage_line("media tools"@, s.media_tools, c.media_tools),
            ],
            "\n"@,
        ),
{
    let l1 = usage_line("total"@, usage_total(s), c.total);
    let l2 = usage_line("foreground"@, s.foreground, c.foreground);
    let l3 = usage_line("background"@, s.background, c.background);
    let l4 = usage_line("subagents"@, s.subagents, c.subagents);
    let l5 = usage_line("media tools"@, s.media_tools, c.media_tools);
    lemma_join_first(l4, seq![l5]);
    lemma_join_first(l3, seq![l4, l5]);
    lemma_join_first(l2, seq![l3, l4, l5]);
    lemma_join_first(l1, seq![l2, l3, l4, l5]);
    lemma_join_first("token usage"@, seq![l1, l2, l3, l4, l5]);
    lemma_told(l1, l2, l3, l4, l5);
}

proof fn lemma_join_first(a: Seq<char>, rest: Seq<Seq<char>>)
    requires
        rest.len() > 0,
    ensures
        join_seq(seq![a] + rest, "\n"@) == a + "\n"@ + join_seq(rest, "\n"@),
        rest.len() == 1 ==> join_seq(rest, "\n"@) == rest[0],
{
    let all = seq![a] + rest;
    assert(all.drop_first() =~= rest);
}

proof fn lemma_told(
    l1: Seq<char>,
    l2: Seq<char>,
    l3: Seq<char>,
    l4: Seq<char>,
    l5: Seq<char>,
)
    ensures
        "token usage\n"@ + l1 + "\n"@ + l2 + "\n"@ + l3 + "\n"@ + l4 + "\n"@ + l5
            == "token usage"@ + "\n"@ + (l1 + "\n"@ + (l2 + "\n"@ + (l3 + "\n"@ + (l4 + "\n"@
            + l5)))),
        seq![l4] + seq![l5] == seq![l4, l5],
        seq![l3] + seq![l4, l5] == seq![l3, l4, l5],
        seq![l2] + seq![l3, l4, l5] == seq![l2, l3, l4, l5],
        seq![l1] + seq![l2, l3, l4, l5] == seq![l1, l2, l3, l4, l5],
        seq!["token usage"@] + seq![l1, l2, l3, l4, l5] == seq!["token usage"@, l1, l2, l3, l4, l5],
{
    reveal_strlit("token usage\n");
    reveal_strlit("token usage");
    reveal_strlit("\n");
    assert("token usage\n"@ =~= "token usage"@ + "\n"@);
}

// ---------------------------------------------------------------------------
// Messages that come in
// ---------------------------------------------------------------------------
/// A message says its text; one without a text says what is written below its picture.
pub proof fn message_says_its_text_or_its_caption(m: TelegramMessage)
    ensures
        m.text matches Some(t) ==> message_text(m) == t@,
        m.text is None && m.caption is Some ==> message_text(m) == m.caption->0@,
        m.text is None && m.caption is None ==> message_text(m).len() == 0,
        m.date matches Some(d) ==> time_of(m) == rfc3339_of(d),
        m.date is None ==> time_of(m) is None,
{
}

/// A message reaches its conversation with its id, its sender, its time and its files, and
/// with its text as it was written; a command reaches it as what it asks for, without the
/// text. A message that holds nothing does not reach it.
pub proof fn message_reaches_its_conversation(
    r: Option<IncomingConversationMessage>,
    id: Seq<char>,
    name: Option<Seq<char>>,
    time: Option<Seq<char>>,
    space: Seq<char>,
    text: Seq<char>,
    files: Vec<FileItem>,
)
    requires
        forall|i: int| 0 <= i < space.len() ==> is_space(#[trigger] space[i]),
        text.len() == 0 || (!is_space(text[0]) && !is_space(text.last())),
        is_incoming(r, id, name, time, space + text, files),
    ensures
        r is Some <==> text.len() > 0 || files@.len() > 0 || message_control(space + text) is Some,
        r matches Some(m) ==> {
            &&& m.remote_message_id@ == id
            &&& opt_view(m.user_name) == name
            &&& opt_view(m.message_time) == time
            &&& m.files@ == files@
            &&& m.selection_references@.len() == 0
            &&& opt_control(m.control) == message_control(space + text)
            &&& message_control(space + text) is Some ==> m.text is None
            &&& message_control(space + text) is None && text.len() > 0 ==> opt_view(m.text)
                == Some(space + text)
            &&& text.len() == 0 ==> m.text is None
        },
{
    let e = Seq::<char>::empty();
    trimming_drops_the_space_around(space, text, e);
    assert(space + text + e =~= space + text);
}

/// The first administrator is told so in their own chat. A message enters its chat unless an
/// administrator wrote it, who decides on chats instead; asking for the list decides nothing.
pub proof fn administrators_decide_on_chats(
    security: SecurityState,
    m: TelegramMessage,
    from: i64,
    text: Seq<char>,
)
    ensures
        welcome(from).0 == Some(signed_decimal(from as int)),
        !security.from_admin(m, from) ==> notes_chat(security, m, from, text),
        security.from_admin(m, from) && admin_command(text) is None ==> !notes_chat(
            security,
            m,
            from,
            text,
        ),
        security.from_admin(m, from) && admin_command(text) == Some(AdminView::List) ==> !notes_chat(
            security,
            m,
            from,
            text,
        ),
{
}

/// A file of a message keeps both of its ids, its name and its type; a photo has no name.
pub proof fn file_keeps_its_ids(m: TelegramMedia, sizes: Vec<TelegramPhotoSize>, kind: OutgoingAttachmentKind)
    requires
        sizes@.len() > 0,
    ensures
        media_attachment(Some(m), kind).len() == 1,
        media_attachment(Some(m), kind)[0].kind == kind,
        media_attachment(Some(m), kind)[0].file_id == m.file_id@,
        media_attachment(Some(m), kind)[0].file_unique_id == m.file_unique_id@,
        media_attachment(Some(m), kind)[0].file_name == opt_view(m.file_name),
        media_attachment(Some(m), kind)[0].media_type == opt_view(m.mime_type),
        photo_attachment(Some(sizes)).len() == 1,
        photo_attachment(Some(sizes))[0].file_id == sizes@[sizes@.len() - 1].file_id@,
        photo_attachment(Some(sizes))[0].file_unique_id == sizes@[sizes@.len()
            - 1].file_unique_id@,
        photo_attachment(Some(sizes))[0].file_name is None,
        photo_attachment(Some(sizes))[0].media_type == Some("image/jpeg"@),
{
}

/// Of a chat that was heard of, its title and the name of who wrote last are noted.
pub proof fn heard_chat_is_noted(state: AuthorizationState, m: TelegramMessage)
    ensures
        heard(state, m).state == state,
        heard(state, m).last_title is Some <==> m.chat.title is Some,
        m.chat.title matches Some(t) ==> heard(state, m).last_title == Some(t@),
        m.from matches Some(user) ==> heard(state, m).last_user == Some(user_name(user)),
        m.from is None ==> heard(state, m).last_user is None,
{
}

/// The line of a chat ends in its title and the name of who wrote last.
pub proof fn line_of_a_chat_ends_in_its_names(id: Seq<char>, c: ChatView, t: Seq<char>, u: Seq<char>)
    requires
        c.last_title == Some(t),
        c.last_user == Some(u),
    ensures
        (" "@ + t + " "@ + u).is_suffix_of(chat_line(id, c)),
{
    let s = chat_line(id, c);
    let end = " "@ + t + " "@ + u;
    assert(s.subrange(s.len() - end.len(), s.len() as int) =~= end);
}

/// Administrators are asked about a chat by its id, its title, who wrote and what they wrote.
pub proof fn administrators_are_asked_about_the_chat(
    m: TelegramMessage,
    text: Seq<char>,
    title: Seq<char>,
    user: TelegramUser,
)
    requires
        opt_view(m.chat.title) == Some(title),
        m.from == Some(user),
    ensures
        approval_request(m, text) == "待审批 chat: "@ + signed_decimal(m.chat.id as int)
            + "\n标题: "@ + title + "\n用户: "@ + user_name(user) + "\n最近消息: "@ + text,
{
}

/// An administrator is heard as one only in their own private chat. The first user who writes
/// in private becomes one, as long as there is none. A chat that nobody decided on waits.
pub proof fn administrators_are_heard_in_private(
    security: SecurityState,
    m: TelegramMessage,
    user: i64,
    key: Seq<char>,
)
    ensures
        security.from_admin(m, user) <==> m.chat.chat_type@ == "private"@ && m.chat.id == user
            && security.admin_user_ids@.contains(user),
        security.bootstraps(m, user) <==> user != 0 && m.chat.chat_type@ == "private"@ && m.chat.id
            == user && security.admin_user_ids@.len() == 0,
        !security.chats@.contains_key(key) ==> security.state_of(key)
            == AuthorizationState::Pending,
        security.chats@.contains_key(key) ==> security.state_of(key) == security.chats@[key].state,
{
}

} // verus!

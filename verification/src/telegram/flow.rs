//! From an update to a message for a conversation, and from a text to the requests that
//! send it.

use vstd::prelude::*;
use crate::channels::{opt_control, ConversationControl, IncomingConversationMessage, OutgoingOptions};
use crate::chat::{FileItem, FileState};
use crate::clock::{render_message_time, rfc3339_of};
use crate::json::{array_view, group_json, Json, JsonView};
use crate::number::{signed_decimal, signed_text};
use crate::paths::{extension_of_path, file_name, path_extension, path_file_name};
use crate::telegram::command::{message_control, parse_conversation_control};
use crate::telegram::message::{
    dispatched_text, infer_media_type, is_empty_message, media_type_of_extension, render_sender,
    render_user, sender_name, user_name, TelegramCallbackQuery, TelegramMessage,
};
use crate::telegram::payload::{
    build_edit_text_payload, build_send_text_payload, edit_text_request, send_text_request,
    MAX_CAPTION_CHARS, MAX_MESSAGE_CHARS,
};
use crate::telegram::render::TelegramRenderedText;
use crate::telegram::render_model::{render_document, Rendered};
use crate::telegram::rich::BlockView;
use crate::telegram::security::{
    admin_command, approval_request, chat_key, chat_report, chat_views, heard, judged, AdminCommand, AdminView,
    Admission, AuthorizationState, ChatView, SecurityState,
};
use crate::telegram::split::{render_markdown_chunks_to_telegram_entities, rendered_views};
use crate::telegram::split_model::message_documents;
use crate::text::{cat2, cat4, is_blank, opt_copy, opt_view, trimmed};
use crate::web::files::{file_view, FileView};

verus! {

broadcast use group_json;

// ---------------------------------------------------------------------------
// Asking for updates
// ---------------------------------------------------------------------------
/// The request for the updates from an offset on.
pub fn poll_payload(offset: i64, timeout_seconds: u64) -> (r: Json)
    ensures
        r@ == JsonView::empty_object().with("offset"@, JsonView::signed(offset)).with(
            "timeout"@,
            JsonView::number(timeout_seconds as nat),
        ).with(
            "allowed_updates"@,
            JsonView::Array(
                seq![JsonView::Text("message"@), JsonView::Text("callback_query"@)],
            ),
        ),
{
    let mut kinds: Vec<Json> = Vec::new();
    kinds.push(Json::text("message"));
    kinds.push(Json::text("callback_query"));
    assert(array_view(kinds@) =~= seq![
        JsonView::Text("message"@),
        JsonView::Text("callback_query"@),
    ]);
    let mut p: Json = Json::object();
    p.put("offset", Json::signed(offset));
    p.put("timeout", Json::number(timeout_seconds));
    p.put("allowed_updates", Json::Array(kinds));
    p
}

/// How long a request may take: longer than the updates are waited for.
pub fn request_timeout_secs(poll_timeout_seconds: u64) -> (r: u64)
    ensures
        r == (if poll_timeout_seconds + 15 > u64::MAX {
            u64::MAX as int
        } else if poll_timeout_seconds + 15 < 30 {
            30
        } else {
            poll_timeout_seconds + 15
        }),
{
    let n: u64 = poll_timeout_seconds.saturating_add(15);
    if n < 30 {
        30
    } else {
        n
    }
}

/// How long to wait before updates are asked for again after a failure.
pub fn retry_pause_ms(poll_interval_ms: u64) -> (r: u64)
    ensures
        r == (if poll_interval_ms < 1000 {
            1000
        } else {
            poll_interval_ms
        }),
{
    if poll_interval_ms < 1000 {
        1000
    } else {
        poll_interval_ms
    }
}

/// What tells that a request failed.
pub fn api_failure(method: &str, description: &Option<String>) -> (r: String)
    ensures
        r@ == "telegram API "@ + method@ + " failed: "@ + match *description {
            Some(d) => d@,
            None => "unknown"@,
        },
{
    match description {
        Some(d) => cat4("telegram API ", method, " failed: ", d.as_str()),
        None => cat4("telegram API ", method, " failed: ", "unknown"),
    }
}

// ---------------------------------------------------------------------------
// Letting a message in
// ---------------------------------------------------------------------------
/// A text for a chat, or for all administrators where no chat is named.
#[derive(Debug)]
pub struct Notice {
    pub chat_id: Option<String>,
    pub text: String,
}

pub open spec fn notice_view(n: Notice) -> (Option<Seq<char>>, Seq<char>) {
    (opt_view(n.chat_id), n.text@)
}

pub open spec fn notice_views(s: Seq<Notice>) -> Seq<(Option<Seq<char>>, Seq<char>)> {
    s.map_values(|n: Notice| notice_view(n))
}

/// What becomes of a message that came in.
#[derive(Debug)]
pub struct Receipt {
    /// Whether the message is handed on.
    pub allowed: bool,
    /// Whether what is known of the chats is stored before anything is sent.
    pub save: bool,
    /// What is sent because of it, in order.
    pub notices: Vec<Notice>,
}

fn add_notice(notices: &mut Vec<Notice>, chat_id: Option<String>, text: String)
    ensures
        notice_views(final(notices)@) == notice_views(old(notices)@).push(
            (opt_view(chat_id), text@),
        ),
{
    let ghost before = notices@;
    notices.push(Notice { chat_id, text });
    assert(notice_views(notices@) =~= notice_views(before).push((opt_view(chat_id), text@)));
}

/// What the first administrator is told.
pub open spec fn welcome(user_id: i64) -> (Option<Seq<char>>, Seq<char>) {
    (Some(signed_decimal(user_id as int)), "已将你注册为此 Telegram channel 的管理员。"@)
}

/// What is sent about a chat that is not an administrator's.
pub open spec fn chat_notices(
    state: AuthorizationState,
    message: TelegramMessage,
    text: Seq<char>,
) -> Seq<(Option<Seq<char>>, Seq<char>)> {
    match state {
        AuthorizationState::Approved => Seq::empty(),
        AuthorizationState::Rejected => seq![
            (Some(chat_key(message)), "当前 chat 未获批准，无法使用。"@),
        ],
        AuthorizationState::Pending => seq![
            (Some(chat_key(message)), "当前 chat 正在等待管理员批准，请联系管理员处理。"@),
            (None, approval_request(message, text)),
        ],
    }
}

/// Whether a message is handed on: what an administrator writes in private unless it is
/// a command, and what comes from a chat that was approved.
pub open spec fn admits(
    security: SecurityState,
    message: TelegramMessage,
    from_user_id: i64,
    text: Seq<char>,
) -> bool {
    if security.from_admin(message, from_user_id) {
        admin_command(text) is None
    } else {
        security.state_of(chat_key(message)) == AuthorizationState::Approved
    }
}

/// Whether a message enters a chat or decides on one.
pub open spec fn notes_chat(
    security: SecurityState,
    message: TelegramMessage,
    from_user_id: i64,
    text: Seq<char>,
) -> bool {
    security.from_admin(message, from_user_id) ==> (admin_command(text) matches Some(c)
        && !(c is List))
}

/// The chats once a message was received: an administrator's commands decide on chats,
/// and a chat that is not an administrator's is entered with what was last known of it.
pub open spec fn chats_after(
    security: SecurityState,
    message: TelegramMessage,
    from_user_id: i64,
    text: Seq<char>,
) -> Map<Seq<char>, ChatView> {
    let chats = chat_views(security.chats@);
    if security.from_admin(message, from_user_id) {
        match admin_command(text) {
            Some(AdminView::Approve { chat_id }) => judged(
                chats,
                chat_id,
                AuthorizationState::Approved,
            ),
            Some(AdminView::Reject { chat_id }) => judged(
                chats,
                chat_id,
                AuthorizationState::Rejected,
            ),
            _ => chats,
        }
    } else {
        chats.insert(chat_key(message), heard(security.state_of(chat_key(message)), message))
    }
}

/// The first user who writes in private becomes the administrator, and is told so. This
/// comes before anything else that is done for a message.
pub fn bootstrap_first_private_admin(
    security: &mut SecurityState,
    message: &TelegramMessage,
    from_user_id: i64,
) -> (r: Option<Notice>)
    requires
        old(security).wf(),
    ensures
        final(security).wf(),
        match r {
            Some(n) => {
                &&& old(security).bootstraps(*message, from_user_id)
                &&& notice_view(n) == welcome(from_user_id)
                &&& final(security).admin_user_ids@ == seq![from_user_id]
                &&& chat_views(final(security).chats@) == chat_views(old(security).chats@).insert(
                    chat_key(*message),
                    heard(AuthorizationState::Approved, *message),
                )
            },
            None => !old(security).bootstraps(*message, from_user_id) && *final(security) == *old(
                security,
            ),
        },
{
    if security.bootstrap_first_private_admin_in_memory(message, from_user_id) {
        Some(
            Notice {
                chat_id: Some(signed_text(from_user_id)),
                text: "已将你注册为此 Telegram channel 的管理员。".to_owned(),
            },
        )
    } else {
        None
    }
}

/// Decides whether a message is handed on. Commands of administrators are carried out; other
/// chats have to be approved.
pub fn receive_message(
    security: &mut SecurityState,
    channel_id: &str,
    message: &TelegramMessage,
    from_user_id: i64,
    text: &str,
) -> (r: Receipt)
    requires
        old(security).wf(),
    ensures
        final(security).wf(),
        r.allowed == admits(*old(security), *message, from_user_id, text@),
        r.save == notes_chat(*old(security), *message, from_user_id, text@),
        ({
            if old(security).from_admin(*message, from_user_id) {
                match admin_command(text@) {
                    None => r.notices@.len() == 0,
                    Some(AdminView::List) => notice_views(r.notices@) == seq![
                        (
                            None::<Seq<char>>,
                            chat_report(channel_id@, final(security).chats.entries@),
                        ),
                    ],
                    Some(AdminView::Approve { chat_id }) => notice_views(r.notices@) == seq![
                        (Some(chat_id), "此 chat 已批准，可以开始使用。"@),
                        (None, "已批准 chat "@ + chat_id),
                    ],
                    Some(AdminView::Reject { chat_id }) => notice_views(r.notices@) == seq![
                        (Some(chat_id), "此 chat 已被拒绝。"@),
                        (None, "已拒绝 chat "@ + chat_id),
                    ],
                }
            } else {
                let state = old(security).state_of(chat_key(*message));
                notice_views(r.notices@) == chat_notices(state, *message, text@)
            }
        }),
        final(security).admin_user_ids@ == old(security).admin_user_ids@,
        chat_views(final(security).chats@) == chats_after(
            *old(security),
            *message,
            from_user_id,
            text@,
        ),
{
    let mut notices: Vec<Notice> = Vec::new();
    assert(notice_views(notices@) =~= Seq::empty());
    let admin: bool = security.is_admin_private_chat(message, from_user_id);
    if admin {
        match security.handle_admin_command(channel_id, text) {
            Some(AdminCommand::List { report }) => {
                add_notice(&mut notices, None, report);
                assert(notice_views(notices@) =~= seq![(None::<Seq<char>>, report@)]);
                return Receipt { allowed: false, save: false, notices };
            },
            Some(AdminCommand::Approve { chat_id, notice, report }) => {
                let ghost id = chat_id@;
                add_notice(&mut notices, Some(chat_id), notice);
                add_notice(&mut notices, None, report);
                assert(notice_views(notices@) =~= seq![
                    (Some(id), notice@),
                    (None, report@),
                ]);
                return Receipt { allowed: false, save: true, notices };
            },
            Some(AdminCommand::Reject { chat_id, notice, report }) => {
                let ghost id = chat_id@;
                add_notice(&mut notices, Some(chat_id), notice);
                add_notice(&mut notices, None, report);
                assert(notice_views(notices@) =~= seq![
                    (Some(id), notice@),
                    (None, report@),
                ]);
                return Receipt { allowed: false, save: true, notices };
            },
            None => {},
        }
    }
    let key: String = signed_text(message.chat.id);
    let ghost known = security.from_admin(*message, from_user_id);
    let admission: Admission = security.authorize_chat(message, from_user_id, text);
    proof {
        if !known {
            assert(chat_views(security.chats@).contains_key(chat_key(*message)));
        }
    }
    match admission {
        Admission::Allowed => {
            Receipt { allowed: true, save: !admin, notices }
        },
        Admission::Rejected { notice } => {
            add_notice(&mut notices, Some(key), notice);
            assert(notice_views(notices@) =~= seq![(Some(chat_key(*message)), notice@)]);
            Receipt { allowed: false, save: true, notices }
        },
        Admission::Pending { notice, request } => {
            add_notice(&mut notices, Some(key), notice);
            add_notice(&mut notices, None, request);
            assert(notice_views(notices@) =~= seq![
                (Some(chat_key(*message)), notice@),
                (None, request@),
            ]);
            Receipt { allowed: false, save: true, notices }
        },
    }
}

/// What an administrator decided on a chat holds for all it sends from then on: an approved
/// chat gets through, a rejected one does not.
pub proof fn decisions_on_chats_hold(
    before: SecurityState,
    after: SecurityState,
    decision: TelegramMessage,
    admin: i64,
    command: Seq<char>,
    message: TelegramMessage,
    from_user_id: i64,
    text: Seq<char>,
)
    requires
        before.from_admin(decision, admin),
        after.admin_user_ids@ == before.admin_user_ids@,
        chat_views(after.chats@) == chats_after(before, decision, admin, command),
        !after.from_admin(message, from_user_id),
    ensures
        admin_command(command) == Some(AdminView::Approve { chat_id: chat_key(message) })
            ==> admits(after, message, from_user_id, text),
        admin_command(command) == Some(AdminView::Reject { chat_id: chat_key(message) })
            ==> !admits(after, message, from_user_id, text),
{
    let key = chat_key(message);
    if admin_command(command) == Some(AdminView::Approve { chat_id: key }) || admin_command(command)
        == Some(AdminView::Reject { chat_id: key }) {
        assert(chat_views(after.chats@).contains_key(key));
    }
}

/// A chat that nobody approved gets nothing through, whatever it sends: not in a group,
/// whoever writes there, and not in private but for administrators.
pub proof fn unapproved_chats_are_kept_out(
    security: SecurityState,
    message: TelegramMessage,
    from_user_id: i64,
    text: Seq<char>,
)
    requires
        security.state_of(chat_key(message)) != AuthorizationState::Approved,
        message.chat.chat_type@ != "private"@ || !security.is_admin(from_user_id),
    ensures
        !admits(security, message, from_user_id, text),
{
}

// ---------------------------------------------------------------------------
// Messages for a conversation
// ---------------------------------------------------------------------------
/// The time of a message as text, where it has one.
pub open spec fn time_of(message: TelegramMessage) -> Option<Seq<char>> {
    match message.date {
        Some(d) => rfc3339_of(d),
        None => None,
    }
}

/// The message for a conversation that was made of an update; one that holds nothing is
/// dropped.
pub open spec fn is_incoming(
    r: Option<IncomingConversationMessage>,
    remote_message_id: Seq<char>,
    name: Option<Seq<char>>,
    time: Option<Seq<char>>,
    text: Seq<char>,
    files: Vec<FileItem>,
) -> bool {
    let control = message_control(text);
    if control is None && trimmed(text).len() == 0 && files@.len() == 0 {
        r is None
    } else {
        &&& r matches Some(m)
        &&& m.remote_message_id@ == remote_message_id
        &&& opt_view(m.user_name) == name
        &&& opt_view(m.message_time) == time
        &&& opt_view(m.text) == (if control is Some || trimmed(text).len() == 0 {
            None
        } else {
            Some(text)
        })
        &&& m.selection_references@.len() == 0
        &&& m.files == files
        &&& opt_control(m.control) == control
    }
}

/// Puts a message together whose time has been written as text.
pub fn incoming_with_time(
    remote_message_id: String,
    user_name: Option<String>,
    message_time: Option<String>,
    text: String,
    files: Vec<FileItem>,
) -> (r: Option<IncomingConversationMessage>)
    ensures
        is_incoming(
            r,
            remote_message_id@,
            opt_view(user_name),
            opt_view(message_time),
            text@,
            files,
        ),
{
    let control: Option<ConversationControl> = parse_conversation_control(text.as_str());
    if is_empty_message(control.is_some(), text.as_str(), files.len()) {
        return None;
    }
    let text: Option<String> = dispatched_text(control.is_some(), text);
    Some(
        IncomingConversationMessage {
            remote_message_id,
            user_name,
            message_time,
            text,
            selection_references: Vec::new(),
            files,
            control,
        },
    )
}

fn written_time(message: &TelegramMessage) -> (r: Option<String>)
    ensures
        opt_view(r) == time_of(*message),
{
    match message.date {
        Some(d) => render_message_time(d),
        None => None,
    }
}

/// Makes a message for a conversation of a message of a chat.
pub fn incoming_from_message(message: &TelegramMessage, text: String, files: Vec<FileItem>) -> (r:
    Option<IncomingConversationMessage>)
    ensures
        is_incoming(
            r,
            signed_decimal(message.message_id as int),
            sender_name(*message),
            time_of(*message),
            text@,
            files,
        ),
{
    incoming_with_time(
        signed_text(message.message_id),
        render_sender(message),
        written_time(message),
        text,
        files,
    )
}

/// Makes a message for a conversation of a button that was pressed below a message.
pub fn incoming_from_callback(
    query: &TelegramCallbackQuery,
    message: &TelegramMessage,
    text: String,
    files: Vec<FileItem>,
) -> (r: Option<IncomingConversationMessage>)
    ensures
        is_incoming(
            r,
            "callback:"@ + query.id@,
            Some(user_name(query.from)),
            time_of(*message),
            text@,
            files,
        ),
{
    incoming_with_time(
        cat2("callback:", query.id.as_str()),
        Some(render_user(&query.from)),
        written_time(message),
        text,
        files,
    )
}

// ---------------------------------------------------------------------------
// Files
// ---------------------------------------------------------------------------
/// A file that was stored at a path.
pub fn stored_file(path: &str, media_type: &Option<String>) -> (r: FileItem)
    ensures
        file_view(r) == (FileView {
            uri: "file://"@ + path@,
            name: file_name(path@),
            media_type: match *media_type {
                Some(t) => Some(t@),
                None => match path_extension(path@) {
                    Some(e) => media_type_of_extension(e),
                    None => None,
                },
            },
            width: None,
            height: None,
            crashed: None,
        }),
{
    let media_type: Option<String> = match media_type {
        Some(t) => Some(t.clone()),
        None => {
            let extension: Option<String> = extension_of_path(path);
            let inferred: Option<&'static str> = match &extension {
                Some(e) => infer_media_type(Some(e.as_str())),
                None => infer_media_type(None),
            };
            match inferred {
                Some(t) => Some(t.to_owned()),
                None => None,
            }
        },
    };
    FileItem {
        uri: cat2("file://", path),
        name: path_file_name(path),
        media_type,
        width: None,
        height: None,
        state: None,
    }
}

/// A file that could not be stored, and why.
pub fn missing_file(path: &str, media_type: &Option<String>, reason: String) -> (r: FileItem)
    ensures
        file_view(r) == (FileView {
            uri: "file://"@ + path@,
            name: file_name(path@),
            media_type: opt_view(*media_type),
            width: None,
            height: None,
            crashed: Some(reason@),
        }),
{
    FileItem {
        uri: cat2("file://", path),
        name: path_file_name(path),
        media_type: opt_copy(media_type),
        width: None,
        height: None,
        state: Some(FileState::Crashed { reason }),
    }
}

// ---------------------------------------------------------------------------
// Texts
// ---------------------------------------------------------------------------
/// The pieces of a text as they are sent.
pub open spec fn text_pieces(text: Seq<char>, max: nat) -> Seq<Rendered> {
    message_documents(text, max).map_values(|d: Seq<BlockView>| render_document(d))
}

/// The requests that send pieces; the last one carries the options.
pub open spec fn send_requests(
    chat_id: Seq<char>,
    pieces: Seq<Rendered>,
    options: Option<OutgoingOptions>,
) -> Seq<JsonView> {
    Seq::new(
        pieces.len(),
        |i: int|
            send_text_request(
                chat_id,
                pieces[i],
                if i == pieces.len() - 1 {
                    options
                } else {
                    None
                },
            ),
    )
}

/// Makes the requests that send pieces.
pub fn send_pieces(
    chat_id: &str,
    pieces: &Vec<TelegramRenderedText>,
    options: Option<&OutgoingOptions>,
) -> (r: Vec<Json>)
    ensures
        array_view(r@) == send_requests(
            chat_id@,
            rendered_views(pieces@),
            match options {
                Some(o) => Some(*o),
                None => None,
            },
        ),
{
    let ghost all = send_requests(
        chat_id@,
        rendered_views(pieces@),
        match options {
            Some(o) => Some(*o),
            None => None,
        },
    );
    let n: usize = pieces.len();
    let mut r: Vec<Json> = Vec::new();
    let mut i: usize = 0;
    while i < n
        invariant
            i <= n,
            n == pieces@.len(),
            all == send_requests(
                chat_id@,
                rendered_views(pieces@),
                match options {
                    Some(o) => Some(*o),
                    None => None,
                },
            ),
            array_view(r@) =~= all.take(i as int),
        decreases n - i,
    {
        let own: Option<&OutgoingOptions> = if i == n - 1 {
            options
        } else {
            None
        };
        let p: Json = build_send_text_payload(chat_id, &pieces[i], own);
        assert(all[i as int] == p@);
        r.push(p);
        i += 1;
    }
    assert(all.take(n as int) =~= all);
    r
}

/// The requests that send a text.
pub fn send_text_payloads(chat_id: &str, text: &str, options: Option<&OutgoingOptions>) -> (r: Vec<
    Json,
>)
    ensures
        array_view(r@) == send_requests(
            chat_id@,
            text_pieces(text@, MAX_MESSAGE_CHARS as nat),
            match options {
                Some(o) => Some(*o),
                None => None,
            },
        ),
{
    let pieces: Vec<TelegramRenderedText> = render_markdown_chunks_to_telegram_entities(
        text,
        MAX_MESSAGE_CHARS,
    );
    send_pieces(chat_id, &pieces, options)
}

/// The first of the pieces, or the text itself where there is none.
pub open spec fn first_piece(pieces: Seq<Rendered>, text: Seq<char>) -> Rendered {
    if pieces.len() > 0 {
        pieces[0]
    } else {
        Rendered { text, entities: Seq::empty() }
    }
}

fn take_first(pieces: Vec<TelegramRenderedText>, text: &str) -> (r: TelegramRenderedText)
    ensures
        r@ == first_piece(rendered_views(pieces@), text@),
{
    let mut pieces: Vec<TelegramRenderedText> = pieces;
    assert(rendered_views(pieces@).len() == pieces@.len());
    if pieces.len() > 0 {
        pieces.remove(0)
    } else {
        let r: TelegramRenderedText = TelegramRenderedText {
            text: text.to_owned(),
            entities: Vec::new(),
        };
        assert(r@.entities =~= Seq::empty());
        r
    }
}

/// The request that sends a message about progress.
pub fn progress_send_payload(chat_id: &str, text: &str) -> (r: Json)
    ensures
        r@ == send_text_request(
            chat_id@,
            first_piece(text_pieces(text@, MAX_MESSAGE_CHARS as nat), text@),
            None,
        ),
{
    let pieces: Vec<TelegramRenderedText> = render_markdown_chunks_to_telegram_entities(
        text,
        MAX_MESSAGE_CHARS,
    );
    let first: TelegramRenderedText = take_first(pieces, text);
    build_send_text_payload(chat_id, &first, None)
}

/// The request that changes a message about progress.
pub fn progress_edit_payload(chat_id: &str, message_id: i64, text: &str) -> (r: Json)
    ensures
        r@ == edit_text_request(
            chat_id@,
            message_id,
            first_piece(text_pieces(text@, MAX_MESSAGE_CHARS as nat), text@),
        ),
{
    let pieces: Vec<TelegramRenderedText> = render_markdown_chunks_to_telegram_entities(
        text,
        MAX_MESSAGE_CHARS,
    );
    let first: TelegramRenderedText = take_first(pieces, text);
    build_edit_text_payload(chat_id, message_id, &first)
}

/// The text below a file, and the requests that send what does not fit there.
#[derive(Debug)]
pub struct CaptionPlan {
    pub caption: Option<TelegramRenderedText>,
    pub rest: Vec<Json>,
}

/// What is made of the pieces of a caption.
pub fn plan_caption_pieces(chat_id: &str, pieces: Vec<TelegramRenderedText>) -> (r: CaptionPlan)
    ensures
        r.caption matches Some(c) && c@ == first_piece(rendered_views(pieces@), ""@),
        array_view(r.rest@) == send_requests(
            chat_id@,
            if pieces@.len() > 0 {
                rendered_views(pieces@).skip(1)
            } else {
                Seq::empty()
            },
            None,
        ),
{
    let ghost all = rendered_views(pieces@);
    assert(all.len() == pieces@.len());
    let mut pieces: Vec<TelegramRenderedText> = pieces;
    if pieces.len() == 0 {
        let caption: TelegramRenderedText = take_first(pieces, "");
        let rest: Vec<Json> = Vec::new();
        assert(array_view(rest@) =~= send_requests(chat_id@, Seq::empty(), None));
        return CaptionPlan { caption: Some(caption), rest };
    }
    let caption: TelegramRenderedText = pieces.remove(0);
    assert(rendered_views(pieces@) =~= all.skip(1));
    CaptionPlan { caption: Some(caption), rest: send_pieces(chat_id, &pieces, None) }
}

/// Decides what is sent with a file; a blank caption is none.
pub fn plan_caption(chat_id: &str, caption: Option<&str>) -> (r: CaptionPlan)
    ensures
        match caption {
            Some(t) => if trimmed(t@).len() == 0 {
                r.caption is None && r.rest@.len() == 0
            } else {
                let all = text_pieces(t@, MAX_CAPTION_CHARS as nat);
                &&& r.caption matches Some(c)
                &&& c@ == first_piece(all, ""@)
                &&& array_view(r.rest@) == send_requests(
                    chat_id@,
                    if all.len() > 0 {
                        all.skip(1)
                    } else {
                        Seq::empty()
                    },
                    None,
                )
            },
            None => r.caption is None && r.rest@.len() == 0,
        },
{
    if let Some(t) = caption {
        if !is_blank(t) {
            let pieces: Vec<TelegramRenderedText> = render_markdown_chunks_to_telegram_entities(
                t,
                MAX_CAPTION_CHARS,
            );
            assert(rendered_views(pieces@).len() == pieces@.len());
            return plan_caption_pieces(chat_id, pieces);
        }
    }
    CaptionPlan { caption: None, rest: Vec::new() }
}

} // verus!

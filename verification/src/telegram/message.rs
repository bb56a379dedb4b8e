//! Messages as Telegram delivers them, and the files that they carry.

use vstd::prelude::*;
use crate::channels::{kind_label, kind_name, OutgoingAttachmentKind};
use crate::text::{
    cat3, cat5, chars_of, is_blank, opt_copy, opt_str_view, opt_view, starts_with, text_eq, trim,
    trimmed,
};
use crate::words::{lower_seq, to_lower};

verus! {

#[derive(Debug)]
pub struct TelegramUpdate {
    pub update_id: i64,
    pub message: Option<TelegramMessage>,
    pub callback_query: Option<TelegramCallbackQuery>,
}

#[derive(Debug)]
pub struct TelegramCallbackQuery {
    pub id: String,
    pub from: TelegramUser,
    pub message: Option<TelegramMessage>,
    pub data: Option<String>,
}

#[derive(Debug)]
pub struct TelegramMessage {
    pub message_id: i64,
    pub date: Option<i64>,
    pub chat: TelegramChat,
    pub from: Option<TelegramUser>,
    pub text: Option<String>,
    pub caption: Option<String>,
    pub photo: Option<Vec<TelegramPhotoSize>>,
    pub document: Option<TelegramMedia>,
    pub audio: Option<TelegramMedia>,
    pub voice: Option<TelegramMedia>,
    pub video: Option<TelegramMedia>,
    pub animation: Option<TelegramMedia>,
}

#[derive(Debug)]
pub struct TelegramChat {
    pub id: i64,
    pub chat_type: String,
    pub title: Option<String>,
}

#[derive(Debug)]
pub struct TelegramUser {
    pub id: i64,
    pub first_name: String,
    pub last_name: Option<String>,
    pub username: Option<String>,
}

#[derive(Debug)]
pub struct TelegramPhotoSize {
    pub file_id: String,
    pub file_unique_id: String,
}

#[derive(Debug)]
pub struct TelegramMedia {
    pub file_id: String,
    pub file_unique_id: String,
    pub file_name: Option<String>,
    pub mime_type: Option<String>,
}

// ---------------------------------------------------------------------------
// Users and text
// ---------------------------------------------------------------------------
/// The name of a user: the user name, else the first and last name.
pub open spec fn user_name(user: TelegramUser) -> Seq<char> {
    match user.username {
        Some(name) => name@,
        None => trimmed(
            user.first_name@ + " "@ + match user.last_name {
                Some(last) => last@,
                None => Seq::empty(),
            },
        ),
    }
}

pub fn render_user(user: &TelegramUser) -> (r: String)
    ensures
        r@ == user_name(*user),
{
    match &user.username {
        Some(name) => name.clone(),
        None => {
            let last: String = match &user.last_name {
                Some(last) => last.clone(),
                None => String::new(),
            };
            let full: String = cat3(user.first_name.as_str(), " ", last.as_str());
            trim(full.as_str()).to_owned()
        },
    }
}

pub open spec fn sender_name(message: TelegramMessage) -> Option<Seq<char>> {
    match message.from {
        Some(user) => Some(user_name(user)),
        None => None,
    }
}

pub fn render_sender(message: &TelegramMessage) -> (r: Option<String>)
    ensures
        opt_view(r) == sender_name(*message),
{
    match &message.from {
        Some(user) => Some(render_user(user)),
        None => None,
    }
}

/// The text of a message: its own, else its caption.
pub open spec fn message_text(message: TelegramMessage) -> Seq<char> {
    match message.text {
        Some(t) => t@,
        None => match message.caption {
            Some(t) => t@,
            None => Seq::empty(),
        },
    }
}

pub fn text_of_message(message: &TelegramMessage) -> (r: String)
    ensures
        r@ == message_text(*message),
{
    match &message.text {
        Some(t) => t.clone(),
        None => match &message.caption {
            Some(t) => t.clone(),
            None => String::new(),
        },
    }
}

/// The text of a pressed button: its data, trimmed.
pub fn text_of_callback(query: &TelegramCallbackQuery) -> (r: String)
    ensures
        r@ == match query.data {
            Some(data) => trimmed(data@),
            None => Seq::empty(),
        },
{
    match &query.data {
        Some(data) => trim(data.as_str()).to_owned(),
        None => String::new(),
    }
}

/// The position in the stream of updates behind an update.
pub fn next_offset(update_id: i64) -> (r: i64)
    ensures
        r == if update_id == i64::MAX {
            i64::MAX as int
        } else {
            update_id + 1
        },
{
    if update_id == i64::MAX {
        update_id
    } else {
        update_id + 1
    }
}

/// Whether a message has nothing to hand on: no command, no text and no file.
pub fn is_empty_message(has_control: bool, text: &str, file_count: usize) -> (b: bool)
    ensures
        b == (!has_control && trimmed(text@).len() == 0 && file_count == 0),
{
    !has_control && is_blank(text) && file_count == 0
}

/// The text that is handed on with a message: none for a command or blank text.
pub fn dispatched_text(has_control: bool, text: String) -> (r: Option<String>)
    ensures
        r == if has_control || trimmed(text@).len() == 0 {
            None
        } else {
            Some(text)
        },
{
    if has_control || is_blank(text.as_str()) {
        None
    } else {
        Some(text)
    }
}

// ---------------------------------------------------------------------------
// Attachments
// ---------------------------------------------------------------------------
#[derive(Debug)]
pub struct TelegramAttachment {
    pub kind: OutgoingAttachmentKind,
    pub file_id: String,
    pub file_unique_id: String,
    pub file_name: Option<String>,
    pub media_type: Option<String>,
}

pub struct AttachmentView {
    pub kind: OutgoingAttachmentKind,
    pub file_id: Seq<char>,
    pub file_unique_id: Seq<char>,
    pub file_name: Option<Seq<char>>,
    pub media_type: Option<Seq<char>>,
}

impl TelegramAttachment {
    pub open spec fn view(self) -> AttachmentView {
        AttachmentView {
            kind: self.kind,
            file_id: self.file_id@,
            file_unique_id: self.file_unique_id@,
            file_name: opt_view(self.file_name),
            media_type: opt_view(self.media_type),
        }
    }
}

pub open spec fn attachments_view(s: Seq<TelegramAttachment>) -> Seq<AttachmentView> {
    s.map_values(|a: TelegramAttachment| a@)
}

pub open spec fn document_kind(mime_type: Option<Seq<char>>) -> OutgoingAttachmentKind {
    match mime_type {
        Some(m) => if "image/"@.is_prefix_of(m) {
            OutgoingAttachmentKind::Image
        } else if "audio/"@.is_prefix_of(m) {
            OutgoingAttachmentKind::Audio
        } else if "video/"@.is_prefix_of(m) {
            OutgoingAttachmentKind::Video
        } else {
            OutgoingAttachmentKind::Document
        },
        None => OutgoingAttachmentKind::Document,
    }
}

pub fn classify_document_kind(document: &TelegramMedia) -> (r: OutgoingAttachmentKind)
    ensures
        r == document_kind(opt_view(document.mime_type)),
{
    match &document.mime_type {
        Some(m) => {
            if starts_with(m.as_str(), "image/") {
                OutgoingAttachmentKind::Image
            } else if starts_with(m.as_str(), "audio/") {
                OutgoingAttachmentKind::Audio
            } else if starts_with(m.as_str(), "video/") {
                OutgoingAttachmentKind::Video
            } else {
                OutgoingAttachmentKind::Document
            }
        },
        None => OutgoingAttachmentKind::Document,
    }
}

pub open spec fn media_attachment(
    media: Option<TelegramMedia>,
    kind: OutgoingAttachmentKind,
) -> Seq<AttachmentView> {
    match media {
        Some(m) => seq![
            AttachmentView {
                kind,
                file_id: m.file_id@,
                file_unique_id: m.file_unique_id@,
                file_name: opt_view(m.file_name),
                media_type: opt_view(m.mime_type),
            },
        ],
        None => Seq::empty(),
    }
}

/// Of the sizes of a photo the last one is taken.
pub open spec fn photo_attachment(photo: Option<Vec<TelegramPhotoSize>>) -> Seq<AttachmentView> {
    match photo {
        Some(sizes) => if sizes@.len() > 0 {
            seq![
                AttachmentView {
                    kind: OutgoingAttachmentKind::Image,
                    file_id: sizes@.last().file_id@,
                    file_unique_id: sizes@.last().file_unique_id@,
                    file_name: None,
                    media_type: Some("image/jpeg"@),
                },
            ]
        } else {
            Seq::empty()
        },
        None => Seq::empty(),
    }
}

/// The files of a message: photo, document, audio, voice, video, animation.
pub open spec fn message_attachments(m: TelegramMessage) -> Seq<AttachmentView> {
    photo_attachment(m.photo) + media_attachment(
        m.document,
        match m.document {
            Some(d) => document_kind(opt_view(d.mime_type)),
            None => OutgoingAttachmentKind::Document,
        },
    ) + media_attachment(m.audio, OutgoingAttachmentKind::Audio) + media_attachment(
        m.voice,
        OutgoingAttachmentKind::Voice,
    ) + media_attachment(m.video, OutgoingAttachmentKind::Video) + media_attachment(
        m.animation,
        OutgoingAttachmentKind::Animation,
    )
}

fn push_media(
    list: &mut Vec<TelegramAttachment>,
    media: &Option<TelegramMedia>,
    kind: OutgoingAttachmentKind,
)
    ensures
        attachments_view(final(list)@) == attachments_view(old(list)@) + media_attachment(
            *media,
            kind,
        ),
{
    match media {
        Some(m) => {
            let a = TelegramAttachment {
                kind,
                file_id: m.file_id.clone(),
                file_unique_id: m.file_unique_id.clone(),
                file_name: opt_copy(&m.file_name),
                media_type: opt_copy(&m.mime_type),
            };
            list.push(a);
            assert(attachments_view(list@) =~= attachments_view(old(list)@) + seq![a@]);
        },
        None => {
            assert(attachments_view(list@) + Seq::<AttachmentView>::empty() =~= attachments_view(
                list@,
            ));
        },
    }
}

pub fn collect_attachment_descriptors(message: &TelegramMessage) -> (r: Vec<TelegramAttachment>)
    ensures
        attachments_view(r@) == message_attachments(*message),
{
    let mut list: Vec<TelegramAttachment> = Vec::new();
    match &message.photo {
        Some(sizes) => {
            let n: usize = sizes.len();
            if n > 0 {
                let photo: &TelegramPhotoSize = &sizes[n - 1];
                list.push(
                    TelegramAttachment {
                        kind: OutgoingAttachmentKind::Image,
                        file_id: photo.file_id.clone(),
                        file_unique_id: photo.file_unique_id.clone(),
                        file_name: None,
                        media_type: Some("image/jpeg".to_owned()),
                    },
                );
            }
        },
        None => {},
    }
    assert(attachments_view(list@) =~= photo_attachment(message.photo));
    let kind: OutgoingAttachmentKind = match &message.document {
        Some(d) => classify_document_kind(d),
        None => OutgoingAttachmentKind::Document,
    };
    push_media(&mut list, &message.document, kind);
    push_media(&mut list, &message.audio, OutgoingAttachmentKind::Audio);
    push_media(&mut list, &message.voice, OutgoingAttachmentKind::Voice);
    push_media(&mut list, &message.video, OutgoingAttachmentKind::Video);
    push_media(&mut list, &message.animation, OutgoingAttachmentKind::Animation);
    list
}

pub open spec fn forbidden_in_file_name(c: char) -> bool {
    c == '/' || c == '\\' || c == ':' || c == '*' || c == '?' || c == '"' || c == '<' || c == '>'
        || c == '|'
}

/// A file name with the characters that file systems refuse replaced.
pub open spec fn safe_file_name(name: Seq<char>) -> Seq<char> {
    if name.len() == 0 {
        "attachment.bin"@
    } else {
        name.map_values(
            |c: char|
                if forbidden_in_file_name(c) {
                    '_'
                } else {
                    c
                },
        )
    }
}

pub fn sanitize_file_name(name: &str) -> (r: String)
    ensures
        r@ == safe_file_name(name@),
{
    let chars: Vec<char> = chars_of(name);
    if chars.len() == 0 {
        return "attachment.bin".to_owned();
    }
    let mut r: String = String::new();
    let mut i: usize = 0;
    while i < chars.len()
        invariant
            i <= chars@.len(),
            chars@ == name@,
            chars@.len() > 0,
            r@ =~= safe_file_name(name@).take(i as int),
        decreases chars@.len() - i,
    {
        let c: char = chars[i];
        if c == '/' || c == '\\' || c == ':' || c == '*' || c == '?' || c == '"' || c == '<' || c
            == '>' || c == '|' {
            r.push('_');
        } else {
            r.push(c);
        }
        i += 1;
    }
    assert(safe_file_name(name@).take(name@.len() as int) =~= safe_file_name(name@));
    r
}

/// A safe file name is one part of a path.
pub proof fn safe_file_name_has_no_separator(name: Seq<char>)
    ensures
        safe_file_name(name).len() > 0,
        !safe_file_name(name).contains('/'),
        !safe_file_name(name).contains('\\'),
{
    reveal_strlit("attachment.bin");
}

/// The extension for a media type, else for a kind.
pub open spec fn extension_for(media_type: Option<Seq<char>>, kind: OutgoingAttachmentKind) -> Seq<
    char,
> {
    let m = match media_type {
        Some(m) => m,
        None => Seq::empty(),
    };
    if m == "image/png"@ {
        "png"@
    } else if m == "image/webp"@ {
        "webp"@
    } else if m == "image/gif"@ {
        "gif"@
    } else if m == "audio/mpeg"@ {
        "mp3"@
    } else if m == "audio/ogg"@ {
        "ogg"@
    } else if m == "audio/wav"@ {
        "wav"@
    } else if m == "video/mp4"@ {
        "mp4"@
    } else if m == "application/pdf"@ {
        "pdf"@
    } else {
        match kind {
            OutgoingAttachmentKind::Image => "jpg"@,
            OutgoingAttachmentKind::Audio => "mp3"@,
            OutgoingAttachmentKind::Voice => "ogg"@,
            OutgoingAttachmentKind::Video => "mp4"@,
            OutgoingAttachmentKind::Animation => "gif"@,
            OutgoingAttachmentKind::Document => "bin"@,
        }
    }
}

pub fn infer_extension(media_type: &Option<String>, kind: OutgoingAttachmentKind) -> (r:
    &'static str)
    ensures
        r@ == extension_for(opt_view(*media_type), kind),
{
    let m: String = match media_type {
        Some(m) => m.clone(),
        None => String::new(),
    };
    if text_eq(m.as_str(), "image/png") {
        "png"
    } else if text_eq(m.as_str(), "image/webp") {
        "webp"
    } else if text_eq(m.as_str(), "image/gif") {
        "gif"
    } else if text_eq(m.as_str(), "audio/mpeg") {
        "mp3"
    } else if text_eq(m.as_str(), "audio/ogg") {
        "ogg"
    } else if text_eq(m.as_str(), "audio/wav") {
        "wav"
    } else if text_eq(m.as_str(), "video/mp4") {
        "mp4"
    } else if text_eq(m.as_str(), "application/pdf") {
        "pdf"
    } else {
        match kind {
            OutgoingAttachmentKind::Image => "jpg",
            OutgoingAttachmentKind::Audio => "mp3",
            OutgoingAttachmentKind::Voice => "ogg",
            OutgoingAttachmentKind::Video => "mp4",
            OutgoingAttachmentKind::Animation => "gif",
            OutgoingAttachmentKind::Document => "bin",
        }
    }
}

/// The name under which an attachment is kept: its own, made safe, or one made of its
/// kind and id.
pub open spec fn stored_name(a: AttachmentView) -> Seq<char> {
    match a.file_name {
        Some(name) => if trimmed(name).len() > 0 {
            safe_file_name(name)
        } else {
            generated_name(a)
        },
        None => generated_name(a),
    }
}

pub open spec fn generated_name(a: AttachmentView) -> Seq<char> {
    "telegram-"@ + kind_name(a.kind) + "-"@ + a.file_unique_id + "."@ + extension_for(
        a.media_type,
        a.kind,
    )
}

impl TelegramAttachment {
    pub fn file_name(&self) -> (r: String)
        ensures
            r@ == stored_name(self@),
    {
        match &self.file_name {
            Some(name) => {
                if !is_blank(name.as_str()) {
                    return sanitize_file_name(name.as_str());
                }
            },
            None => {},
        }
        let mut r: String = cat5(
            "telegram-",
            kind_label(self.kind),
            "-",
            self.file_unique_id.as_str(),
            ".",
        );
        r.append(infer_extension(&self.media_type, self.kind));
        r
    }
}

/// The media type that an extension stands for.
pub open spec fn media_type_of_extension(extension: Seq<char>) -> Option<Seq<char>> {
    let e = lower_seq(extension);
    if e == "png"@ {
        Some("image/png"@)
    } else if e == "jpg"@ || e == "jpeg"@ {
        Some("image/jpeg"@)
    } else if e == "webp"@ {
        Some("image/webp"@)
    } else if e == "gif"@ {
        Some("image/gif"@)
    } else if e == "pdf"@ {
        Some("application/pdf"@)
    } else if e == "mp3"@ {
        Some("audio/mpeg"@)
    } else if e == "ogg"@ {
        Some("audio/ogg"@)
    } else if e == "wav"@ {
        Some("audio/wav"@)
    } else if e == "mp4"@ {
        Some("video/mp4"@)
    } else {
        None
    }
}

/// The media type of a file by its extension, if it has one.
pub fn infer_media_type(extension: Option<&str>) -> (r: Option<&'static str>)
    ensures
        opt_str_view(r) == match opt_str_view(extension) {
            Some(e) => media_type_of_extension(e),
            None => None,
        },
{
    let e: String = match extension {
        Some(e) => to_lower(e),
        None => {
            return None;
        },
    };
    if text_eq(e.as_str(), "png") {
        Some("image/png")
    } else if text_eq(e.as_str(), "jpg") || text_eq(e.as_str(), "jpeg") {
        Some("image/jpeg")
    } else if text_eq(e.as_str(), "webp") {
        Some("image/webp")
    } else if text_eq(e.as_str(), "gif") {
        Some("image/gif")
    } else if text_eq(e.as_str(), "pdf") {
        Some("application/pdf")
    } else if text_eq(e.as_str(), "mp3") {
        Some("audio/mpeg")
    } else if text_eq(e.as_str(), "ogg") {
        Some("audio/ogg")
    } else if text_eq(e.as_str(), "wav") {
        Some("audio/wav")
    } else if text_eq(e.as_str(), "mp4") {
        Some("video/mp4")
    } else {
        None
    }
}

/// The form field and the method by which an attachment is sent.
pub open spec fn upload_form(kind: OutgoingAttachmentKind) -> (Seq<char>, Seq<char>) {
    match kind {
        OutgoingAttachmentKind::Image => ("photo"@, "sendPhoto"@),
        OutgoingAttachmentKind::Audio => ("audio"@, "sendAudio"@),
        OutgoingAttachmentKind::Voice => ("voice"@, "sendVoice"@),
        OutgoingAttachmentKind::Video => ("video"@, "sendVideo"@),
        OutgoingAttachmentKind::Animation => ("animation"@, "sendAnimation"@),
        OutgoingAttachmentKind::Document => ("document"@, "sendDocument"@),
    }
}

pub fn upload_method(kind: OutgoingAttachmentKind) -> (r: (&'static str, &'static str))
    ensures
        (r.0@, r.1@) == upload_form(kind),
{
    match kind {
        OutgoingAttachmentKind::Image => ("photo", "sendPhoto"),
        OutgoingAttachmentKind::Audio => ("audio", "sendAudio"),
        OutgoingAttachmentKind::Voice => ("voice", "sendVoice"),
        OutgoingAttachmentKind::Video => ("video", "sendVideo"),
        OutgoingAttachmentKind::Animation => ("animation", "sendAnimation"),
        OutgoingAttachmentKind::Document => ("document", "sendDocument"),
    }
}

/// The address of a method of the bot interface.
pub fn method_url(api_base_url: &str, bot_token: &str, method: &str) -> (r: String)
    ensures
        r@ == api_base_url@ + "/bot"@ + bot_token@ + "/"@ + method@,
{
    cat5(api_base_url, "/bot", bot_token, "/", method)
}

/// The address of a file that a message carries.
pub fn file_url(api_base_url: &str, bot_token: &str, file_path: &str) -> (r: String)
    ensures
        r@ == api_base_url@ + "/file/bot"@ + bot_token@ + "/"@ + file_path@,
{
    cat5(api_base_url, "/file/bot", bot_token, "/", file_path)
}

} // verus!

//! Files that come with a message: what they are and where they are kept.

use vstd::prelude::*;
use crate::chat::{FileItem, FileState};
use crate::config::{join_path, joined};
use crate::encoding::{base64_decode, base64_read};
use crate::loaders::estimator::{keeps_in_name, make_safe_component, safe_component};
use crate::number::{decimal, decimal_text};
use crate::paths::{extension_of_path, path_extension};
use crate::text::{
    cat2, cat3, cat5, chars_of, opt_copy, opt_view, split_once, split_once_seq, starts_with, string_range,
    strip_prefix, text_eq, trim, trimmed, views, without_prefix,
};
use crate::words::{lemma_split_nonempty, lower_seq, split_char, split_seq, to_lower};

verus! {

/// A file as a client sends it.
#[derive(Debug)]
pub struct WebFileItem {
    pub uri: String,
    pub media_type: Option<String>,
    pub name: Option<String>,
}

pub struct FileView {
    pub uri: Seq<char>,
    pub name: Option<Seq<char>>,
    pub media_type: Option<Seq<char>>,
    pub width: Option<u32>,
    pub height: Option<u32>,
    pub crashed: Option<Seq<char>>,
}

/// What a file item holds.
pub open spec fn file_view(file: FileItem) -> FileView {
    FileView {
        uri: file.uri@,
        name: opt_view(file.name),
        media_type: opt_view(file.media_type),
        width: file.width,
        height: file.height,
        crashed: match file.state {
            Some(FileState::Crashed { reason }) => Some(reason@),
            None => None,
        },
    }
}

/// A file of which only the place, the name and the media type are known.
pub open spec fn plain_file(
    uri: Seq<char>,
    name: Option<Seq<char>>,
    media_type: Option<Seq<char>>,
) -> FileView {
    FileView { uri, name, media_type, width: None, height: None, crashed: None }
}

// ---------------------------------------------------------------------------
// Media types
// ---------------------------------------------------------------------------
/// A text that is not blank, trimmed.
pub open spec fn some_text(t: Option<Seq<char>>) -> Option<Seq<char>> {
    match t {
        Some(s) => if trimmed(s).len() == 0 {
            None
        } else {
            Some(trimmed(s))
        },
        None => None,
    }
}

pub fn clean_media_type(media_type: &Option<String>) -> (r: Option<String>)
    ensures
        opt_view(r) == some_text(opt_view(*media_type)),
{
    trimmed_text(media_type)
}

/// A text that is not blank, trimmed.
pub fn trimmed_text(value: &Option<String>) -> (r: Option<String>)
    ensures
        opt_view(r) == some_text(opt_view(*value)),
{
    match value {
        Some(value) => {
            let t: &str = trim(value.as_str());
            if t.is_empty() {
                None
            } else {
                Some(t.to_owned())
            }
        },
        None => None,
    }
}

/// The media type that goes with an extension in lower case.
pub open spec fn type_of_extension(e: Seq<char>) -> Option<Seq<char>> {
    if e == "png"@ {
        Some("image/png"@)
    } else if e == "jpg"@ || e == "jpeg"@ {
        Some("image/jpeg"@)
    } else if e == "webp"@ {
        Some("image/webp"@)
    } else if e == "gif"@ {
        Some("image/gif"@)
    } else if e == "pdf"@ {
        Some("application/pdf"@)
    } else if e == "mp3"@ {
        Some("audio/mpeg"@)
    } else if e == "ogg"@ {
        Some("audio/ogg"@)
    } else if e == "wav"@ {
        Some("audio/wav"@)
    } else if e == "m4a"@ {
        Some("audio/mp4"@)
    } else if e == "flac"@ {
        Some("audio/flac"@)
    } else if e == "mp4"@ {
        Some("video/mp4"@)
    } else if e == "mov"@ {
        Some("video/quicktime"@)
    } else if e == "txt"@ {
        Some("text/plain"@)
    } else {
        None
    }
}

fn media_type_for_extension(e: &str) -> (r: Option<String>)
    ensures
        opt_view(r) == type_of_extension(e@),
{
    let t: &str = if text_eq(e, "png") {
        "image/png"
    } else if text_eq(e, "jpg") || text_eq(e, "jpeg") {
        "image/jpeg"
    } else if text_eq(e, "webp") {
        "image/webp"
    } else if text_eq(e, "gif") {
        "image/gif"
    } else if text_eq(e, "pdf") {
        "application/pdf"
    } else if text_eq(e, "mp3") {
        "audio/mpeg"
    } else if text_eq(e, "ogg") {
        "audio/ogg"
    } else if text_eq(e, "wav") {
        "audio/wav"
    } else if text_eq(e, "m4a") {
        "audio/mp4"
    } else if text_eq(e, "flac") {
        "audio/flac"
    } else if text_eq(e, "mp4") {
        "video/mp4"
    } else if text_eq(e, "mov") {
        "video/quicktime"
    } else if text_eq(e, "txt") {
        "text/plain"
    } else {
        return None;
    };
    Some(t.to_owned())
}

/// The media type of a path, which may carry a query.
pub open spec fn type_of_path(value: Seq<char>) -> Option<Seq<char>> {
    match path_extension(split_seq(value, '?')[0]) {
        Some(e) => type_of_extension(lower_seq(e)),
        None => None,
    }
}

pub fn infer_media_type_from_path_text(value: &str) -> (r: Option<String>)
    ensures
        opt_view(r) == type_of_path(value@),
{
    let parts: Vec<String> = split_char(value, '?');
    proof {
        lemma_split_nonempty(value@, '?');
        assert(views(parts@).len() == parts@.len());
        assert(views(parts@)[0] == parts@[0]@);
    }
    match extension_of_path(parts[0].as_str()) {
        Some(e) => {
            let lower: String = to_lower(e.as_str());
            media_type_for_extension(lower.as_str())
        },
        None => None,
    }
}

/// The media type of a file by its name, else by its place.
pub open spec fn type_of_file(name: Option<Seq<char>>, uri: Seq<char>) -> Option<Seq<char>> {
    match name {
        Some(n) => match type_of_path(n) {
            Some(t) => Some(t),
            None => type_of_path(uri),
        },
        None => type_of_path(uri),
    }
}

pub fn infer_file_item_media_type(name: &Option<String>, uri: &str) -> (r: Option<String>)
    ensures
        opt_view(r) == type_of_file(opt_view(*name), uri@),
{
    if let Some(n) = name {
        let t: Option<String> = infer_media_type_from_path_text(n.as_str());
        if t.is_some() {
            return t;
        }
    }
    infer_media_type_from_path_text(uri)
}

/// The extension for a media type; `bin` for those that are not known.
pub open spec fn extension_of_type(t: Seq<char>) -> Seq<char> {
    if t == "image/png"@ {
        "png"@
    } else if t == "image/jpeg"@ {
        "jpg"@
    } else if t == "image/webp"@ {
        "webp"@
    } else if t == "image/gif"@ {
        "gif"@
    } else if t == "application/pdf"@ {
        "pdf"@
    } else if t == "audio/mpeg"@ {
        "mp3"@
    } else if t == "audio/ogg"@ {
        "ogg"@
    } else if t == "audio/wav"@ {
        "wav"@
    } else if t == "audio/mp4"@ {
        "m4a"@
    } else if t == "audio/flac"@ {
        "flac"@
    } else if t == "video/mp4"@ {
        "mp4"@
    } else if t == "video/quicktime"@ {
        "mov"@
    } else if t == "text/plain"@ {
        "txt"@
    } else {
        "bin"@
    }
}

pub fn extension_for_media_type(media_type: Option<&str>) -> (r: &'static str)
    ensures
        r@ == match media_type {
            Some(t) => extension_of_type(t@),
            None => "bin"@,
        },
{
    let t: &str = match media_type {
        Some(t) => t,
        None => {
            return "bin";
        },
    };
    if text_eq(t, "image/png") {
        "png"
    } else if text_eq(t, "image/jpeg") {
        "jpg"
    } else if text_eq(t, "image/webp") {
        "webp"
    } else if text_eq(t, "image/gif") {
        "gif"
    } else if text_eq(t, "application/pdf") {
        "pdf"
    } else if text_eq(t, "audio/mpeg") {
        "mp3"
    } else if text_eq(t, "audio/ogg") {
        "ogg"
    } else if text_eq(t, "audio/wav") {
        "wav"
    } else if text_eq(t, "audio/mp4") {
        "m4a"
    } else if text_eq(t, "audio/flac") {
        "flac"
    } else if text_eq(t, "video/mp4") {
        "mp4"
    } else if text_eq(t, "video/quicktime") {
        "mov"
    } else if text_eq(t, "text/plain") {
        "txt"
    } else {
        "bin"
    }
}

/// A file as it is kept in a message. Its media type is the stated one, else the one
/// that its name or its place tells.
pub open spec fn stated_file(
    uri: Seq<char>,
    name: Option<Seq<char>>,
    media_type: Option<Seq<char>>,
) -> FileView {
    plain_file(
        uri,
        name,
        match some_text(media_type) {
            Some(t) => Some(t),
            None => type_of_file(name, uri),
        },
    )
}

impl WebFileItem {
    pub fn file_item(&self) -> (r: FileItem)
        ensures
            file_view(r) == stated_file(self.uri@, opt_view(self.name), opt_view(self.media_type)),
    {
        let media_type: Option<String> = match clean_media_type(&self.media_type) {
            Some(t) => Some(t),
            None => infer_file_item_media_type(&self.name, self.uri.as_str()),
        };
        FileItem {
            uri: self.uri.clone(),
            name: opt_copy(&self.name),
            media_type,
            width: None,
            height: None,
            state: None,
        }
    }
}

// ---------------------------------------------------------------------------
// Names of files
// ---------------------------------------------------------------------------
/// The text without the given character at its start.
pub open spec fn strip_start(s: Seq<char>, c: char) -> Seq<char>
    decreases s.len(),
{
    if s.len() > 0 && s[0] == c {
        strip_start(s.skip(1), c)
    } else {
        s
    }
}

/// The text without the given character at its end.
pub open spec fn strip_end(s: Seq<char>, c: char) -> Seq<char>
    decreases s.len(),
{
    if s.len() > 0 && s.last() == c {
        strip_end(s.drop_last(), c)
    } else {
        s
    }
}

/// The text without the given character at either end.
pub fn trim_char(text: &str, c: char) -> (r: String)
    ensures
        r@ == strip_end(strip_start(text@, c), c),
{
    let chars: Vec<char> = chars_of(text);
    let n: usize = chars.len();
    let mut from: usize = 0;
    assert(text@.skip(0) =~= text@);
    while from < n && chars[from] == c
        invariant
            from <= n,
            n == chars@.len(),
            chars@ == text@,
            strip_start(text@, c) == strip_start(text@.skip(from as int), c),
        decreases n - from,
    {
        assert(text@.skip(from as int).skip(1) =~= text@.skip(from + 1));
        from += 1;
    }
    let mut to: usize = n;
    assert(text@.subrange(from as int, n as int) =~= text@.skip(from as int));
    while to > from && chars[to - 1] == c
        invariant
            from <= to <= n,
            n == chars@.len(),
            chars@ == text@,
            strip_end(strip_start(text@, c), c) == strip_end(
                text@.subrange(from as int, to as int),
                c,
            ),
        decreases to,
    {
        assert(text@.subrange(from as int, to as int).drop_last() =~= text@.subrange(
            from as int,
            to - 1,
        ));
        to -= 1;
    }
    string_range(chars.as_slice(), from, to)
}

/// A text as part of a file name: other characters become `_`, none of which is left at
/// either end.
pub open spec fn filename_component(value: Seq<char>) -> Seq<char> {
    let t = strip_end(strip_start(safe_component(value), '_'), '_');
    if t.len() == 0 {
        "file"@
    } else {
        t
    }
}

pub fn sanitize_filename_component(value: &str) -> (r: String)
    ensures
        r@ == filename_component(value@),
{
    let safe: String = make_safe_component(value);
    let t: String = trim_char(safe.as_str(), '_');
    if t.as_str().is_empty() {
        "file".to_owned()
    } else {
        t
    }
}

proof fn lemma_strip_start(s: Seq<char>, c: char, x: char)
    requires
        strip_start(s, c).contains(x),
    ensures
        s.contains(x),
    decreases s.len(),
{
    if s.len() > 0 && s[0] == c {
        lemma_strip_start(s.skip(1), c, x);
        let i = choose|i: int| 0 <= i < s.skip(1).len() && s.skip(1)[i] == x;
        assert(s[i + 1] == x);
    }
}

proof fn lemma_strip_end(s: Seq<char>, c: char, x: char)
    requires
        strip_end(s, c).contains(x),
    ensures
        s.contains(x),
    decreases s.len(),
{
    if s.len() > 0 && s.last() == c {
        lemma_strip_end(s.drop_last(), c, x);
        let i = choose|i: int| 0 <= i < s.drop_last().len() && s.drop_last()[i] == x;
        assert(s[i] == x);
    }
}

proof fn lemma_strip_ends(s: Seq<char>, c: char)
    ensures
        strip_start(s, c).len() > 0 ==> strip_start(s, c)[0] != c,
        strip_end(s, c).len() > 0 ==> strip_end(s, c).last() != c && strip_end(s, c)[0] == s[0],
    decreases s.len(),
{
    if s.len() > 0 {
        lemma_strip_ends(s.skip(1), c);
        lemma_strip_ends(s.drop_last(), c);
    }
}

/// A part of a file name is never empty and never names another directory: it holds letters,
/// digits, `-`, `_` and `.` alone, and neither starts nor ends with `_`.
pub proof fn filename_component_is_plain(value: Seq<char>)
    ensures
        filename_component(value).len() > 0,
        !filename_component(value).contains('/'),
        forall|i: int|
            0 <= i < filename_component(value).len() ==> keeps_in_name(
                #[trigger] filename_component(value)[i],
            ),
        filename_component(value)[0] != '_',
        filename_component(value).last() != '_',
{
    reveal_strlit("file");
    let safe = safe_component(value);
    let inner = strip_start(safe, '_');
    let t = strip_end(inner, '_');
    lemma_strip_ends(safe, '_');
    lemma_strip_ends(inner, '_');
    let r = filename_component(value);
    assert forall|i: int| 0 <= i < r.len() implies keeps_in_name(#[trigger] r[i]) by {
        if t.len() > 0 {
            assert(t.contains(r[i]));
            lemma_strip_end(inner, '_', r[i]);
            lemma_strip_start(safe, '_', r[i]);
            let k = choose|k: int| 0 <= k < safe.len() && safe[k] == r[i];
        } else {
            assert("file"@ =~= seq!['f', 'i', 'l', 'e']);
        }
    }
}

/// A part of a file name stays as it is when it is made safe once more.
pub proof fn filename_component_is_made_once(value: Seq<char>)
    ensures
        filename_component(filename_component(value)) == filename_component(value),
{
    filename_component_is_plain(value);
    let r = filename_component(value);
    assert(safe_component(r) =~= r);
}

// ---------------------------------------------------------------------------
// Files that come as text
// ---------------------------------------------------------------------------
/// The media type and the payload of a data URL, or what is wrong with it.
pub open spec fn data_url(uri: Seq<char>) -> Result<(Option<Seq<char>>, Seq<char>), Seq<char>> {
    match split_once_seq(uri, ',') {
        None => Err("malformed data URL file item"@),
        Some((metadata, payload)) => match without_prefix(metadata, "data:"@) {
            None => Err("malformed data URL file item"@),
            Some(m) => if !split_seq(m, ';').contains("base64"@) {
                Err("data URL file item must be base64 encoded"@)
            } else {
                Ok((some_text(Some(split_seq(m, ';')[0])), payload))
            },
        },
    }
}

pub fn parse_base64_data_url(uri: &str) -> (r: Result<(Option<String>, &str), &'static str>)
    ensures
        match (r, data_url(uri@)) {
            (Ok(a), Ok(b)) => opt_view(a.0) == b.0 && a.1@ == b.1,
            (Err(a), Err(b)) => a@ == b,
            _ => false,
        },
{
    let (metadata, payload) = match split_once(uri, ',') {
        Some(p) => p,
        None => {
            return Err("malformed data URL file item");
        },
    };
    let m: &str = match strip_prefix(metadata, "data:") {
        Some(m) => m,
        None => {
            return Err("malformed data URL file item");
        },
    };
    let parts: Vec<String> = split_char(m, ';');
    let ghost v = views(parts@);
    let mut i: usize = 0;
    let mut found: bool = false;
    while i < parts.len()
        invariant
            i <= parts@.len(),
            v == views(parts@),
            found == exists|j: int| 0 <= j < i && #[trigger] v[j] == "base64"@,
        decreases parts@.len() - i,
    {
        assert(v[i as int] == parts@[i as int]@);
        if text_eq(parts[i].as_str(), "base64") {
            found = true;
        }
        i += 1;
    }
    assert(found == v.contains("base64"@));
    if !found {
        return Err("data URL file item must be base64 encoded");
    }
    assert(v[0] == parts@[0]@);
    let t: &str = trim(parts[0].as_str());
    let media_type: Option<String> = if t.is_empty() {
        None
    } else {
        Some(t.to_owned())
    };
    Ok((media_type, payload))
}

/// A file whose bytes came with the message, and where it is to be kept.
#[derive(Debug)]
pub struct DataFile {
    pub path: String,
    pub bytes: Vec<u8>,
    pub item: FileItem,
}

/// The directory for the files that come with the messages of a conversation.
pub open spec fn incoming_dir(conversation_root: Seq<char>) -> Seq<char> {
    joined(
        joined(joined(conversation_root, ".stellaclaw"@), "attachments"@),
        "incoming"@,
    )
}

/// The media type of a file that came as text: the stated one, else the one in the URL,
/// else the one that its name tells.
pub open spec fn data_media_type(
    stated: Option<Seq<char>>,
    in_url: Option<Seq<char>>,
    name: Option<Seq<char>>,
) -> Option<Seq<char>> {
    match some_text(stated) {
        Some(t) => Some(t),
        None => match in_url {
            Some(t) => Some(t),
            None => type_of_file(name, ""@),
        },
    }
}

/// The name under which a file that came as text is kept.
pub open spec fn data_file_name(
    message_id: Seq<char>,
    index: nat,
    name: Option<Seq<char>>,
    media_type: Option<Seq<char>>,
) -> Seq<char> {
    filename_component(message_id) + "-"@ + decimal(index + 1) + "-"@ + filename_component(
        match name {
            Some(n) => n,
            None => "attachment-"@ + decimal(index + 1) + "."@ + match media_type {
                Some(t) => extension_of_type(t),
                None => "bin"@,
            },
        },
    )
}

/// Whether the bytes of a file come with the message.
pub fn is_data_url(uri: &str) -> (b: bool)
    ensures
        b == "data:"@.is_prefix_of(uri@),
{
    starts_with(uri, "data:")
}

/// What is to be kept of a file that came as text, given what its payload stands for.
pub open spec fn data_file_is(
    r: Result<DataFile, String>,
    conversation_root: Seq<char>,
    message_id: Seq<char>,
    index: nat,
    file: WebFileItem,
    decoded: Result<Seq<u8>, Seq<char>>,
) -> bool {
    match data_url(file.uri@) {
        Err(message) => r matches Err(e) && e@ == message,
        Ok((in_url, _)) => {
            let t = data_media_type(opt_view(file.media_type), in_url, opt_view(file.name));
            let own = data_file_name(message_id, index, opt_view(file.name), t);
            match decoded {
                Err(_) => r matches Err(e) && e@ == "failed to decode web message data URL file"@,
                Ok(bytes) => {
                    &&& r matches Ok(d)
                    &&& d.path@ == joined(incoming_dir(conversation_root), own)
                    &&& d.bytes@ == bytes
                    &&& file_view(d.item) == plain_file("file://"@ + d.path@, Some(own), t)
                },
            }
        },
    }
}

/// Decides where a file is kept whose payload has been read.
pub fn place_data_file(
    conversation_root: &str,
    message_id: &str,
    index: usize,
    file: &WebFileItem,
    decoded: Result<Vec<u8>, String>,
) -> (r: Result<DataFile, String>)
    requires
        index < usize::MAX,
    ensures
        data_file_is(
            r,
            conversation_root@,
            message_id@,
            index as nat,
            *file,
            match decoded {
                Ok(b) => Ok(b@),
                Err(e) => Err(e@),
            },
        ),
{
    let in_url: Option<String> = match parse_base64_data_url(file.uri.as_str()) {
        Ok((t, _)) => t,
        Err(e) => {
            return Err(e.to_owned());
        },
    };
    let media_type: Option<String> = match clean_media_type(&file.media_type) {
        Some(t) => Some(t),
        None => match in_url {
            Some(t) => Some(t),
            None => infer_file_item_media_type(&file.name, ""),
        },
    };
    let bytes: Vec<u8> = match decoded {
        Ok(b) => b,
        Err(_) => {
            return Err("failed to decode web message data URL file".to_owned());
        },
    };
    let number: String = decimal_text(index as u64 + 1);
    let name: String = match &file.name {
        Some(n) => n.clone(),
        None => {
            let extension: &str = match &media_type {
                Some(t) => extension_for_media_type(Some(t.as_str())),
                None => extension_for_media_type(None),
            };
            let stem: String = cat2("attachment-", number.as_str());
            cat3(stem.as_str(), ".", extension)
        },
    };
    let id_part: String = sanitize_filename_component(message_id);
    let name_part: String = sanitize_filename_component(name.as_str());
    let own: String = cat5(id_part.as_str(), "-", number.as_str(), "-", name_part.as_str());
    let a: String = join_path(conversation_root, ".stellaclaw");
    let b: String = join_path(a.as_str(), "attachments");
    let dir: String = join_path(b.as_str(), "incoming");
    let path: String = join_path(dir.as_str(), own.as_str());
    let uri: String = cat2("file://", path.as_str());
    Ok(
        DataFile {
            path,
            bytes,
            item: FileItem {
                uri,
                name: Some(own),
                media_type,
                width: None,
                height: None,
                state: None,
            },
        },
    )
}

/// What the payload of a data URL stands for.
pub open spec fn payload_bytes(uri: Seq<char>) -> Result<Seq<u8>, Seq<char>> {
    match data_url(uri) {
        Ok((_, payload)) => base64_read(payload),
        Err(e) => Err(e),
    }
}

/// Reads a file that came as text, and decides where it is kept.
pub fn materialize_web_data_file(
    conversation_root: &str,
    message_id: &str,
    index: usize,
    file: &WebFileItem,
) -> (r: Result<DataFile, String>)
    requires
        index < usize::MAX,
    ensures
        data_file_is(
            r,
            conversation_root@,
            message_id@,
            index as nat,
            *file,
            payload_bytes(file.uri@),
        ),
{
    let decoded: Result<Vec<u8>, String> = match parse_base64_data_url(file.uri.as_str()) {
        Ok((_, payload)) => base64_decode(payload),
        Err(e) => {
            return Err(e.to_owned());
        },
    };
    place_data_file(conversation_root, message_id, index, file, decoded)
}

/// A file of a message: one that is kept where it is, or one that is to be stored first.
#[derive(Debug)]
pub enum IncomingFile {
    Kept(FileItem),
    ToStore(DataFile),
}

/// The files of a message up to the first that cannot be read, and what is wrong with that.
#[derive(Debug)]
pub struct IncomingFiles {
    pub files: Vec<IncomingFile>,
    pub error: Option<String>,
}

/// Whether this is what becomes of the file with the given number.
pub open spec fn is_incoming(
    r: IncomingFile,
    conversation_root: Seq<char>,
    message_id: Seq<char>,
    index: nat,
    file: WebFileItem,
) -> bool {
    if "data:"@.is_prefix_of(file.uri@) {
        r matches IncomingFile::ToStore(d) && data_file_is(
            Ok(d),
            conversation_root,
            message_id,
            index,
            file,
            payload_bytes(file.uri@),
        )
    } else {
        r matches IncomingFile::Kept(f) && file_view(f) == stated_file(
            file.uri@,
            opt_view(file.name),
            opt_view(file.media_type),
        )
    }
}

/// Decides for the files of a message, in order, what is kept of them and where.
pub fn materialize_web_file_items(
    conversation_root: &str,
    message_id: &str,
    files: &Vec<WebFileItem>,
) -> (r: IncomingFiles)
    ensures
        forall|i: int|
            0 <= i < r.files@.len() ==> is_incoming(
                #[trigger] r.files@[i],
                conversation_root@,
                message_id@,
                i as nat,
                files@[i],
            ),
        match r.error {
            None => r.files@.len() == files@.len(),
            Some(e) => {
                let n = r.files@.len();
                &&& n < files@.len()
                &&& "data:"@.is_prefix_of(files@[n as int].uri@)
                &&& data_file_is(
                    Err(e),
                    conversation_root@,
                    message_id@,
                    n,
                    files@[n as int],
                    payload_bytes(files@[n as int].uri@),
                )
            },
        },
{
    let mut r: Vec<IncomingFile> = Vec::new();
    let mut i: usize = 0;
    while i < files.len()
        invariant
            i <= files@.len(),
            r@.len() == i,
            forall|k: int|
                0 <= k < i ==> is_incoming(
                    #[trigger] r@[k],
                    conversation_root@,
                    message_id@,
                    k as nat,
                    files@[k],
                ),
        decreases files@.len() - i,
    {
        let file: &WebFileItem = &files[i];
        if is_data_url(file.uri.as_str()) {
            match materialize_web_data_file(conversation_root, message_id, i, file) {
                Ok(d) => {
                    r.push(IncomingFile::ToStore(d));
                },
                Err(e) => {
                    return IncomingFiles { files: r, error: Some(e) };
                },
            }
        } else {
            r.push(IncomingFile::Kept(file.file_item()));
        }
        i += 1;
    }
    IncomingFiles { files: r, error: None }
}

} // verus!

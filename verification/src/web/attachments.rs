//! Files that messages show: tags in texts, and files beside them.

use vstd::prelude::*;
use crate::cache::{CachedImagePreview, CachedThumbnail};
use crate::channels::{kind_label, kind_name, OutgoingAttachment, OutgoingAttachmentKind};
use crate::chat::FileItem;
use crate::config::{is_absolute, join_path, joined, path_is_absolute};
use crate::number::{decimal, decimal_usize};
use crate::paths::{
    below, components, file_name, lies_below, lower_extension, lower_extension_of, path_file_name,
    path_relative_to, relative_to, split_components,
};
use crate::text::{
    cat2, cat3, cat4, chars_of, index_of_nonspace, is_blank, opt_copy, opt_view, starts_with,
    string_range, strip_prefix, text_eq, trim, trim_start_seq, trimmed, views, without_prefix,
};
use crate::web::url::{
    can_be_cut, cuts_cleanly, lenient_decoded, percent_decode_lenient, percent_encode_query_value,
    percent_encoded,
};
use crate::words::{find_seq, index_of_text};

verus! {

// ---------------------------------------------------------------------------
// Code in texts
// ---------------------------------------------------------------------------
/// The index behind the line that the index stands in.
pub open spec fn line_end(text: Seq<char>, from: int) -> int
    decreases text.len() - from,
{
    if from < 0 || from >= text.len() {
        text.len() as int
    } else if text[from] == '\n' {
        from + 1
    } else {
        line_end(text, from + 1)
    }
}

/// Whether a line begins or ends a block of code.
pub open spec fn is_fence(line: Seq<char>) -> bool {
    "```"@.is_prefix_of(trim_start_seq(line)) || "~~~"@.is_prefix_of(trim_start_seq(line))
}

proof fn lemma_line_end(text: Seq<char>, from: int)
    requires
        0 <= from < text.len(),
    ensures
        from < line_end(text, from) <= text.len(),
    decreases text.len() - from,
{
    if text[from] != '\n' && from + 1 < text.len() {
        lemma_line_end(text, from + 1);
    } else {
        assert(line_end(text, text.len() as int) == text.len());
    }
}

/// Whether the lines that begin from one index on and before another hold an odd number
/// of fences.
pub open spec fn inside_fence(text: Seq<char>, from: int, at: int) -> bool
    decreases text.len() - from,
{
    if from < 0 || from >= at || from >= text.len() || !(from < line_end(text, from)
        <= text.len()) {
        false
    } else {
        is_fence(text.subrange(from, line_end(text, from))) != inside_fence(
            text,
            line_end(text, from),
            at,
        )
    }
}

fn line_is_fence(line: &Vec<char>) -> (b: bool)
    ensures
        b == is_fence(line@),
{
    let n: usize = line.len();
    assert(line@.skip(0) =~= line@);
    let i: usize = index_of_nonspace(line.as_slice(), 0);
    proof {
        reveal_strlit("```");
        reveal_strlit("~~~");
        assert("```"@ =~= seq!['`', '`', '`']);
        assert("~~~"@ =~= seq!['~', '~', '~']);
    }
    let ghost rest = trim_start_seq(line@);
    assert(rest =~= line@.skip(i as int));
    if n - i < 3 {
        return false;
    }
    let (a, b, c): (char, char, char) = (line[i], line[i + 1], line[i + 2]);
    proof {
        assert(rest.take(3) =~= seq![a, b, c]);
        if "```"@.is_prefix_of(rest) {
            assert("```"@[0] == rest[0] && "```"@[1] == rest[1] && "```"@[2] == rest[2]);
        }
        if "~~~"@.is_prefix_of(rest) {
            assert("~~~"@[0] == rest[0] && "~~~"@[1] == rest[1] && "~~~"@[2] == rest[2]);
        }
    }
    (a == '`' && b == '`' && c == '`') || (a == '~' && b == '~' && c == '~')
}

/// Whether an index of a text stands in a block of code.
pub fn is_inside_fenced_code_block(text: &[char], index: usize) -> (b: bool)
    ensures
        b == inside_fence(text@, 0, index as int),
{
    let n: usize = text.len();
    let mut inside: bool = false;
    let mut offset: usize = 0;
    while offset < index && offset < n
        invariant
            offset <= n,
            n == text@.len(),
            inside_fence(text@, 0, index as int) == (inside != inside_fence(
                text@,
                offset as int,
                index as int,
            )),
        decreases n - offset,
    {
        proof {
            lemma_line_end(text@, offset as int);
        }
        let mut line: Vec<char> = Vec::new();
        let mut e: usize = offset;
        let mut done: bool = false;
        while e < n && !done
            invariant
                offset <= e <= n,
                n == text@.len(),
                line@ =~= text@.subrange(offset as int, e as int),
                !done ==> line_end(text@, offset as int) == line_end(text@, e as int),
                done ==> line_end(text@, offset as int) == e,
            decreases n - e,
        {
            let c: char = text[e];
            line.push(c);
            done = c == '\n';
            e += 1;
        }
        if line_is_fence(&line) {
            inside = !inside;
        }
        offset = e;
    }
    inside
}

// ---------------------------------------------------------------------------
// Tags in texts
// ---------------------------------------------------------------------------
/// A piece of a text: text, or the path in an attachment tag.
#[derive(Debug)]
pub enum Piece {
    Text(String),
    Path(String),
}

pub enum PieceView {
    Text(Seq<char>),
    Path(Seq<char>),
}

impl Piece {
    pub open spec fn view(self) -> PieceView {
        match self {
            Piece::Text(t) => PieceView::Text(t@),
            Piece::Path(p) => PieceView::Path(p@),
        }
    }
}

pub open spec fn piece_views(s: Seq<Piece>) -> Seq<PieceView> {
    s.map_values(|p: Piece| p@)
}

pub open spec fn tag_start() -> Seq<char> {
    "<attachment>"@
}

pub open spec fn tag_end() -> Seq<char> {
    "</attachment>"@
}

/// The pieces of a text from an index on. Tags in code are text; so is a tag that does
/// not end. A tag without a path leaves nothing.
pub open spec fn pieces(text: Seq<char>, cursor: int) -> Seq<PieceView>
    decreases text.len() - cursor,
{
    if cursor < 0 || cursor > text.len() {
        Seq::empty()
    } else {
        match find_seq(text.skip(cursor), tag_start()) {
            None => seq![PieceView::Text(text.skip(cursor))],
            Some(k) => {
                let start = cursor + k;
                let inner = start + 12;
                if k < 0 || inner > text.len() {
                    Seq::empty()
                } else if inside_fence(text, 0, start) {
                    seq![PieceView::Text(text.subrange(cursor, inner))] + pieces(text, inner)
                } else {
                    match find_seq(text.skip(inner), tag_end()) {
                        None => seq![
                            PieceView::Text(text.subrange(cursor, start)),
                            PieceView::Text(text.skip(start)),
                        ],
                        Some(e) => {
                            let path = trimmed(text.subrange(inner, inner + e));
                            let next = inner + e + 13;
                            if e < 0 || next > text.len() {
                                Seq::empty()
                            } else {
                                seq![PieceView::Text(text.subrange(cursor, start))] + (
                                if path.len() == 0 {
                                    Seq::empty()
                                } else {
                                    seq![PieceView::Path(path)]
                                }) + pieces(text, next)
                            }
                        },
                    }
                }
            },
        }
    }
}

fn push_piece(r: &mut Vec<Piece>, piece: Piece)
    ensures
        piece_views(final(r)@) == piece_views(old(r)@).push(piece@),
{
    let ghost before = r@;
    r.push(piece);
    assert(piece_views(r@) =~= piece_views(before).push(piece@));
}

/// Takes a text apart at its attachment tags.
pub fn scan_attachments(text: &str) -> (r: Vec<Piece>)
    ensures
        piece_views(r@) == pieces(text@, 0),
{
    let chars: Vec<char> = chars_of(text);
    let n: usize = chars.len();
    let open: Vec<char> = chars_of("<attachment>");
    let close: Vec<char> = chars_of("</attachment>");
    proof {
        reveal_strlit("<attachment>");
        reveal_strlit("</attachment>");
    }
    let mut r: Vec<Piece> = Vec::new();
    let mut cursor: usize = 0;
    assert(piece_views(r@) + pieces(text@, 0) =~= pieces(text@, 0));
    loop
        invariant
            cursor <= n,
            n == chars@.len(),
            chars@ == text@,
            open@ == tag_start(),
            close@ == tag_end(),
            open@.len() == 12,
            close@.len() == 13,
            piece_views(r@) + pieces(text@, cursor as int) == pieces(text@, 0),
        decreases n - cursor,
    {
        let ghost done = piece_views(r@);
        let start: usize = match index_of_text(chars.as_slice(), cursor, open.as_slice()) {
            Some(i) => i,
            None => {
                let rest: String = string_range(chars.as_slice(), cursor, n);
                assert(rest@ =~= text@.skip(cursor as int));
                push_piece(&mut r, Piece::Text(rest));
                assert(piece_views(r@) =~= done + pieces(text@, cursor as int));
                return r;
            },
        };
        let inner: usize = start + 12;
        if is_inside_fenced_code_block(chars.as_slice(), start) {
            push_piece(&mut r, Piece::Text(string_range(chars.as_slice(), cursor, inner)));
            proof {
                assert(piece_views(r@) + pieces(text@, inner as int) =~= done + pieces(
                    text@,
                    cursor as int,
                ));
            }
            cursor = inner;
            continue;
        }
        push_piece(&mut r, Piece::Text(string_range(chars.as_slice(), cursor, start)));
        let path_end: usize = match index_of_text(chars.as_slice(), inner, close.as_slice()) {
            Some(i) => i,
            None => {
                let rest: String = string_range(chars.as_slice(), start, n);
                assert(rest@ =~= text@.skip(start as int));
                push_piece(&mut r, Piece::Text(rest));
                assert(piece_views(r@) =~= done + pieces(text@, cursor as int));
                return r;
            },
        };
        let inside: String = string_range(chars.as_slice(), inner, path_end);
        let path: &str = trim(inside.as_str());
        if !path.is_empty() {
            push_piece(&mut r, Piece::Path(path.to_owned()));
        }
        let next: usize = path_end + 13;
        proof {
            assert(piece_views(r@) + pieces(text@, next as int) =~= done + pieces(
                text@,
                cursor as int,
            ));
        }
        cursor = next;
    }
}

/// A number that fits where indices are kept.
pub open spec fn as_index(n: nat) -> nat {
    if n <= usize::MAX {
        n
    } else {
        usize::MAX as nat
    }
}

/// The mark that stands for an attachment in a text.
pub open spec fn marker(index: nat) -> Seq<char> {
    "[[attachment:"@ + decimal(index) + "]]"@
}

pub fn attachment_marker(index: usize) -> (r: String)
    ensures
        r@ == marker(index as nat),
{
    let number: String = decimal_usize(index);
    cat3("[[attachment:", number.as_str(), "]]")
}

/// The paths in the tags, in order.
pub open spec fn paths_of(p: Seq<PieceView>) -> Seq<Seq<char>>
    decreases p.len(),
{
    if p.len() == 0 {
        Seq::empty()
    } else {
        match p.last() {
            PieceView::Path(t) => paths_of(p.drop_last()).push(t),
            PieceView::Text(_) => paths_of(p.drop_last()),
        }
    }
}

/// The text without the tags.
pub open spec fn clean_text(p: Seq<PieceView>) -> Seq<char>
    decreases p.len(),
{
    if p.len() == 0 {
        Seq::empty()
    } else {
        match p.last() {
            PieceView::Path(_) => clean_text(p.drop_last()),
            PieceView::Text(t) => clean_text(p.drop_last()) + t,
        }
    }
}

/// The text with a mark for each tag; the marks count on from a number.
pub open spec fn marked_text(p: Seq<PieceView>, base: nat) -> Seq<char>
    decreases p.len(),
{
    if p.len() == 0 {
        Seq::empty()
    } else {
        let rest = marked_text(p.drop_last(), base);
        match p.last() {
            PieceView::Path(_) => rest + marker(as_index(base + paths_of(p.drop_last()).len())),
            PieceView::Text(t) => rest + t,
        }
    }
}

/// The text with each tag replaced by its path.
pub open spec fn stripped_text(p: Seq<PieceView>) -> Seq<char>
    decreases p.len(),
{
    if p.len() == 0 {
        Seq::empty()
    } else {
        match p.last() {
            PieceView::Path(t) => stripped_text(p.drop_last()) + t,
            PieceView::Text(t) => stripped_text(p.drop_last()) + t,
        }
    }
}

/// A text whose tags were taken out.
#[derive(Debug)]
pub struct WebAttachmentExtraction {
    pub clean_text: String,
    pub marked_text: String,
    pub paths: Vec<String>,
}

/// Takes the attachment tags out of a text. Their marks count on from a number.
pub fn extract_attachment_references_with_markers(text: &str, base_attachment_index: usize) -> (r:
    WebAttachmentExtraction)
    ensures
        r.clean_text@ == trimmed(clean_text(pieces(text@, 0))),
        r.marked_text@ == trimmed(marked_text(pieces(text@, 0), base_attachment_index as nat)),
        views(r.paths@) == paths_of(pieces(text@, 0)),
{
    let list: Vec<Piece> = scan_attachments(text);
    let ghost v = piece_views(list@);
    let mut clean: String = String::new();
    let mut marked: String = String::new();
    let mut paths: Vec<String> = Vec::new();
    let mut i: usize = 0;
    assert(v.take(0) =~= Seq::empty());
    assert(views(paths@) =~= Seq::empty());
    while i < list.len()
        invariant
            i <= list@.len(),
            v == piece_views(list@),
            clean@ =~= clean_text(v.take(i as int)),
            marked@ =~= marked_text(v.take(i as int), base_attachment_index as nat),
            views(paths@) == paths_of(v.take(i as int)),
        decreases list@.len() - i,
    {
        proof {
            assert(v.take(i + 1).drop_last() =~= v.take(i as int));
            assert(v.take(i + 1).last() == list@[i as int]@);
            assert(views(paths@).len() == paths@.len());
        }
        match &list[i] {
            Piece::Text(t) => {
                clean.append(t.as_str());
                marked.append(t.as_str());
            },
            Piece::Path(p) => {
                let mark: String = attachment_marker(
                    base_attachment_index.saturating_add(paths.len()),
                );
                marked.append(mark.as_str());
                let ghost before = paths@;
                paths.push(p.clone());
                assert(views(paths@) =~= views(before).push(p@));
            },
        }
        i += 1;
    }
    assert(v.take(v.len() as int) =~= v);
    WebAttachmentExtraction {
        clean_text: trim(clean.as_str()).to_owned(),
        marked_text: trim(marked.as_str()).to_owned(),
        paths,
    }
}

/// Replaces each attachment tag by its path.
pub fn strip_attachment_tags(text: &str) -> (r: String)
    ensures
        r@ == stripped_text(pieces(text@, 0)),
{
    let list: Vec<Piece> = scan_attachments(text);
    let ghost v = piece_views(list@);
    let mut clean: String = String::new();
    let mut i: usize = 0;
    assert(v.take(0) =~= Seq::empty());
    while i < list.len()
        invariant
            i <= list@.len(),
            v == piece_views(list@),
            clean@ =~= stripped_text(v.take(i as int)),
        decreases list@.len() - i,
    {
        proof {
            assert(v.take(i + 1).drop_last() =~= v.take(i as int));
            assert(v.take(i + 1).last() == list@[i as int]@);
        }
        match &list[i] {
            Piece::Text(t) => {
                clean.append(t.as_str());
            },
            Piece::Path(p) => {
                clean.append(p.as_str());
            },
        }
        i += 1;
    }
    assert(v.take(v.len() as int) =~= v);
    clean
}

/// A text without tags is kept as it is and names no file.
pub proof fn text_without_tags_is_kept(text: Seq<char>, base: nat)
    requires
        find_seq(text, tag_start()) is None,
    ensures
        clean_text(pieces(text, 0)) == text,
        marked_text(pieces(text, 0), base) == text,
        stripped_text(pieces(text, 0)) == text,
        paths_of(pieces(text, 0)).len() == 0,
{
    assert(text.skip(0) =~= text);
    let p = pieces(text, 0);
    assert(p =~= seq![PieceView::Text(text)]);
    reveal_with_fuel(clean_text, 2);
    reveal_with_fuel(marked_text, 2);
    reveal_with_fuel(stripped_text, 2);
    reveal_with_fuel(paths_of, 2);
    assert(p.drop_last() =~= Seq::empty());
    assert(Seq::<char>::empty() + text =~= text);
}

// ---------------------------------------------------------------------------
// Finding the files
// ---------------------------------------------------------------------------
/// What follows the directory of a conversation in a path, from a component on.
pub open spec fn behind_conversation(parts: Seq<Seq<char>>, name: Seq<char>, i: int) -> Option<
    Seq<Seq<char>>,
>
    decreases parts.len() - i,
{
    if i < 0 || i >= parts.len() {
        None
    } else if parts[i] != "conversations"@ {
        behind_conversation(parts, name, i + 1)
    } else if i + 1 >= parts.len() {
        None
    } else if parts[i + 1] != name {
        behind_conversation(parts, name, i + 2)
    } else {
        Some(parts.skip(i + 2))
    }
}

pub open spec fn joined_all(root: Seq<char>, parts: Seq<Seq<char>>) -> Seq<char>
    decreases parts.len(),
{
    if parts.len() == 0 {
        root
    } else {
        joined(joined_all(root, parts.drop_last()), parts.last())
    }
}

/// A path into the directory of a conversation elsewhere, as a path into the workspace
/// of the same name.
pub open spec fn remapped(workspace_root: Seq<char>, path: Seq<char>) -> Option<Seq<char>> {
    match file_name(workspace_root) {
        None => None,
        Some(name) => match behind_conversation(components(path), name, 0) {
            None => None,
            Some(rest) => Some(joined_all(workspace_root, rest)),
        },
    }
}

pub fn remap_absolute_conversation_path(workspace_root: &str, path: &str) -> (r: Option<String>)
    ensures
        opt_view(r) == remapped(workspace_root@, path@),
{
    let name: String = match path_file_name(workspace_root) {
        Some(n) => n,
        None => {
            return None;
        },
    };
    let parts: Vec<String> = split_components(path);
    let ghost v = views(parts@);
    let n: usize = parts.len();
    assert(v.len() == n);
    let mut i: usize = 0;
    while i < n
        invariant
            i <= n,
            n == parts@.len(),
            v == views(parts@),
            v == components(path@),
            file_name(workspace_root@) == Some(name@),
            behind_conversation(v, name@, 0) == behind_conversation(v, name@, i as int),
        decreases n - i,
    {
        assert(v[i as int] == parts@[i as int]@);
        if !text_eq(parts[i].as_str(), "conversations") {
            i += 1;
            continue;
        }
        if n - i < 2 {
            return None;
        }
        assert(v[i + 1] == parts@[i + 1]@);
        if !text_eq(parts[i + 1].as_str(), name.as_str()) {
            i += 2;
            continue;
        }
        let from: usize = i + 2;
        let ghost rest = v.skip(from as int);
        let mut r: String = workspace_root.to_owned();
        let mut k: usize = from;
        assert(rest.take(0) =~= Seq::empty());
        while k < n
            invariant
                from <= k <= n,
                n == parts@.len(),
                v == views(parts@),
                rest == v.skip(from as int),
                r@ == joined_all(workspace_root@, rest.take(k - from)),
            decreases n - k,
        {
            proof {
                assert(rest.take(k - from + 1).drop_last() =~= rest.take(k - from));
                assert(rest.take(k - from + 1).last() == parts@[k as int]@);
            }
            r = join_path(r.as_str(), parts[k].as_str());
            k += 1;
        }
        assert(rest.take(rest.len() as int) =~= rest);
        return Some(r);
    }
    None
}

/// Where a path in a tag may lead: a first place, taken where something is there, and
/// the place that is taken otherwise.
pub fn attachment_candidate_paths(workspace_root: &str, path_text: &str) -> (r: (
    Option<String>,
    String,
))
    ensures
        is_absolute(path_text@) ==> opt_view(r.0) == remapped(workspace_root@, path_text@) && r.1@
            == path_text@,
        !is_absolute(path_text@) ==> r.0 is None && r.1@ == joined(workspace_root@, path_text@),
{
    if path_is_absolute(path_text) {
        (
            remap_absolute_conversation_path(workspace_root, path_text),
            path_text.to_owned(),
        )
    } else {
        (None, join_path(workspace_root, path_text))
    }
}

/// Whether a path in a tag may lead into the shared directory.
pub open spec fn is_shared_path(path: Seq<char>) -> bool {
    path == ".stellaclaw/shared"@ || (without_prefix(path, ".stellaclaw/shared/"@) matches Some(r)
        && trimmed(r).len() > 0) || (without_prefix(path, ".stellaclaw/shared\\"@) matches Some(r)
        && trimmed(r).len() > 0)
}

pub fn is_shared_attachment_path(path_text: &str) -> (b: bool)
    ensures
        b == is_shared_path(path_text@),
{
    if text_eq(path_text, ".stellaclaw/shared") {
        return true;
    }
    if let Some(r) = strip_prefix(path_text, ".stellaclaw/shared/") {
        if !is_blank(r) {
            return true;
        }
    }
    if let Some(r) = strip_prefix(path_text, ".stellaclaw/shared\\") {
        if !is_blank(r) {
            return true;
        }
    }
    false
}

/// The kind of a file by its extension in lower case.
pub open spec fn kind_of_extension(e: Seq<char>) -> OutgoingAttachmentKind {
    if e == "png"@ || e == "jpg"@ || e == "jpeg"@ || e == "webp"@ {
        OutgoingAttachmentKind::Image
    } else if e == "gif"@ {
        OutgoingAttachmentKind::Animation
    } else if e == "mp3"@ || e == "wav"@ {
        OutgoingAttachmentKind::Audio
    } else if e == "ogg"@ {
        OutgoingAttachmentKind::Voice
    } else if e == "mp4"@ || e == "mov"@ || e == "mkv"@ {
        OutgoingAttachmentKind::Video
    } else {
        OutgoingAttachmentKind::Document
    }
}

pub fn infer_outgoing_attachment_kind(path: &str) -> (r: OutgoingAttachmentKind)
    ensures
        r == kind_of_extension(lower_extension(path@)),
{
    let extension: String = lower_extension_of(path);
    let e: &str = extension.as_str();
    if text_eq(e, "png") || text_eq(e, "jpg") || text_eq(e, "jpeg") || text_eq(e, "webp") {
        OutgoingAttachmentKind::Image
    } else if text_eq(e, "gif") {
        OutgoingAttachmentKind::Animation
    } else if text_eq(e, "mp3") || text_eq(e, "wav") {
        OutgoingAttachmentKind::Audio
    } else if text_eq(e, "ogg") {
        OutgoingAttachmentKind::Voice
    } else if text_eq(e, "mp4") || text_eq(e, "mov") || text_eq(e, "mkv") {
        OutgoingAttachmentKind::Video
    } else {
        OutgoingAttachmentKind::Document
    }
}

/// What the file system says of the path in a tag. Paths that cannot be resolved come
/// with the reason.
#[derive(Debug)]
pub struct PathFacts {
    pub candidate: String,
    pub canonical: Result<String, String>,
    pub canonical_root: Result<String, String>,
    pub canonical_shared: Option<String>,
    pub is_file: bool,
}

/// The file that a tag shows, or why it shows none. A file has to lie below the
/// workspace; one in the shared directory has to be named as such.
pub open spec fn resolved_path(
    workspace_root: Seq<char>,
    path_text: Seq<char>,
    facts: PathFacts,
) -> Result<Seq<char>, Seq<char>> {
    match (facts.canonical, facts.canonical_root) {
        (Err(e), _) => Err("attachment path does not exist: "@ + facts.candidate@ + ": "@ + e@),
        (_, Err(e)) => Err("failed to canonicalize "@ + workspace_root + ": "@ + e@),
        (Ok(path), Ok(root)) => {
            let shared = is_shared_path(path_text) && (facts.canonical_shared matches Some(s)
                && below(path@, s@) is Some);
            if below(path@, root@) is None && !shared {
                Err("attachment path escapes conversation root: "@ + path@)
            } else if !facts.is_file {
                Err("attachment path is not a regular file: "@ + path@)
            } else {
                Ok(path@)
            }
        },
    }
}

pub fn resolve_outgoing_attachment(workspace_root: &str, path_text: &str, facts: &PathFacts) -> (r:
    Result<OutgoingAttachment, String>)
    ensures
        match (r, resolved_path(workspace_root@, path_text@, *facts)) {
            (Ok(a), Ok(path)) => a.path@ == path && a.kind == kind_of_extension(
                lower_extension(path),
            ),
            (Err(a), Err(b)) => a@ == b,
            _ => false,
        },
{
    let path: &str = match &facts.canonical {
        Ok(p) => p.as_str(),
        Err(e) => {
            return Err(
                cat4(
                    "attachment path does not exist: ",
                    facts.candidate.as_str(),
                    ": ",
                    e.as_str(),
                ),
            );
        },
    };
    let root: &str = match &facts.canonical_root {
        Ok(p) => p.as_str(),
        Err(e) => {
            return Err(cat4("failed to canonicalize ", workspace_root, ": ", e.as_str()));
        },
    };
    let shared: bool = is_shared_attachment_path(path_text) && match &facts.canonical_shared {
        Some(s) => lies_below(path, s.as_str()),
        None => false,
    };
    if !lies_below(path, root) && !shared {
        return Err(cat2("attachment path escapes conversation root: ", path));
    }
    if !facts.is_file {
        return Err(cat2("attachment path is not a regular file: ", path));
    }
    Ok(OutgoingAttachment { path: path.to_owned(), kind: infer_outgoing_attachment_kind(path) })
}

/// A file that a tag shows lies below the workspace or below the shared directory.
pub proof fn shown_file_lies_below_a_root(
    workspace_root: Seq<char>,
    path_text: Seq<char>,
    facts: PathFacts,
)
    requires
        resolved_path(workspace_root, path_text, facts) is Ok,
    ensures
        ({
            let path = resolved_path(workspace_root, path_text, facts)->Ok_0;
            (facts.canonical_root matches Ok(root) && below(path, root@) is Some) || (
            facts.canonical_shared matches Some(s) && below(path, s@) is Some)
        }),
{
}

// ---------------------------------------------------------------------------
// Showing the files
// ---------------------------------------------------------------------------
/// The directories whose files can be shown.
#[derive(Debug)]
pub struct WebAttachmentRoots {
    pub workspace_root: String,
    pub shared_root: String,
}

/// A path and the roots once links are followed, where that can be done.
#[derive(Debug)]
pub struct CanonicalPaths {
    pub path: Option<String>,
    pub workspace_root: Option<String>,
    pub shared_root: Option<String>,
}

pub open spec fn relative_if(path: Option<Seq<char>>, root: Option<Seq<char>>) -> Option<Seq<char>> {
    match (path, root) {
        (Some(p), Some(r)) => relative_to(p, r),
        _ => None,
    }
}

/// A file as the interface names it: below the workspace, or below the shared directory.
pub open spec fn workspace_path(
    path: Seq<char>,
    roots: WebAttachmentRoots,
    canonical: CanonicalPaths,
) -> Option<Seq<char>> {
    match relative_to(path, roots.workspace_root@) {
        Some(r) => Some(r),
        None => match relative_if(opt_view(canonical.path), opt_view(canonical.workspace_root)) {
            Some(r) => Some(r),
            None => match relative_to(path, roots.shared_root@) {
                Some(r) => Some(".stellaclaw/shared/"@ + r),
                None => match relative_if(
                    opt_view(canonical.path),
                    opt_view(canonical.shared_root),
                ) {
                    Some(r) => Some(".stellaclaw/shared/"@ + r),
                    None => None,
                },
            },
        },
    }
}

fn relative_of(path: &Option<String>, root: &Option<String>) -> (r: Option<String>)
    ensures
        opt_view(r) == relative_if(opt_view(*path), opt_view(*root)),
{
    match (path, root) {
        (Some(p), Some(r)) => path_relative_to(p.as_str(), r.as_str()),
        _ => None,
    }
}

pub fn attachment_workspace_path(
    path: &str,
    roots: &WebAttachmentRoots,
    canonical: &CanonicalPaths,
) -> (r: Option<String>)
    ensures
        opt_view(r) == workspace_path(path@, *roots, *canonical),
{
    if let Some(r) = path_relative_to(path, roots.workspace_root.as_str()) {
        return Some(r);
    }
    if let Some(r) = relative_of(&canonical.path, &canonical.workspace_root) {
        return Some(r);
    }
    if let Some(r) = path_relative_to(path, roots.shared_root.as_str()) {
        return Some(cat2(".stellaclaw/shared/", r.as_str()));
    }
    match relative_of(&canonical.path, &canonical.shared_root) {
        Some(r) => Some(cat2(".stellaclaw/shared/", r.as_str())),
        None => None,
    }
}

/// What is known of a file that is shown.
#[derive(Debug)]
pub struct FileFacts {
    pub workspace_path: Option<String>,
    pub size_bytes: Option<u64>,
    pub preview: Option<CachedImagePreview>,
}

/// A file that a message shows.
#[derive(Debug)]
pub struct WebMessageAttachment {
    pub index: usize,
    pub source: &'static str,
    pub kind: &'static str,
    pub path: String,
    pub uri: String,
    pub name: String,
    pub media_type: Option<String>,
    pub width: Option<u32>,
    pub height: Option<u32>,
    pub size_bytes: Option<u64>,
    pub url: String,
    pub marker: Option<String>,
    pub thumbnail: Option<CachedThumbnail>,
}

pub struct ThumbnailView {
    pub media_type: Seq<char>,
    pub data_base64: Seq<char>,
    pub data_url: Seq<char>,
    pub width: u32,
    pub height: u32,
    pub size_bytes: usize,
}

pub open spec fn thumbnail_view(t: CachedThumbnail) -> ThumbnailView {
    ThumbnailView {
        media_type: t.media_type@,
        data_base64: t.data_base64@,
        data_url: t.data_url@,
        width: t.width,
        height: t.height,
        size_bytes: t.size_bytes,
    }
}

pub open spec fn opt_thumbnail(t: Option<CachedThumbnail>) -> Option<ThumbnailView> {
    match t {
        Some(t) => Some(thumbnail_view(t)),
        None => None,
    }
}

fn copy_thumbnail(t: &CachedThumbnail) -> (r: CachedThumbnail)
    ensures
        thumbnail_view(r) == thumbnail_view(*t),
{
    CachedThumbnail {
        media_type: t.media_type.clone(),
        data_base64: t.data_base64.clone(),
        data_url: t.data_url.clone(),
        width: t.width,
        height: t.height,
        size_bytes: t.size_bytes,
    }
}

pub struct AttachmentView {
    pub index: nat,
    pub source: Seq<char>,
    pub kind: Seq<char>,
    pub path: Seq<char>,
    pub uri: Seq<char>,
    pub name: Seq<char>,
    pub media_type: Option<Seq<char>>,
    pub width: Option<u32>,
    pub height: Option<u32>,
    pub size_bytes: Option<u64>,
    pub url: Seq<char>,
    pub marker: Option<Seq<char>>,
    pub thumbnail: Option<ThumbnailView>,
}

impl WebMessageAttachment {
    pub open spec fn view(self) -> AttachmentView {
        AttachmentView {
            index: self.index as nat,
            source: self.source@,
            kind: self.kind@,
            path: self.path@,
            uri: self.uri@,
            name: self.name@,
            media_type: opt_view(self.media_type),
            width: self.width,
            height: self.height,
            size_bytes: self.size_bytes,
            url: self.url@,
            marker: opt_view(self.marker),
            thumbnail: opt_thumbnail(self.thumbnail),
        }
    }
}

/// The address of a file of a conversation.
pub open spec fn file_url(conversation_id: Seq<char>, path: Seq<char>) -> Seq<char> {
    "/api/conversations/"@ + percent_encoded(conversation_id) + "/workspace/file?path="@
        + percent_encoded(path)
}

fn make_file_url(conversation_id: &str, path: &str) -> (r: String)
    ensures
        r@ == file_url(conversation_id@, path@),
{
    let id: String = percent_encode_query_value(conversation_id);
    let place: String = percent_encode_query_value(path);
    cat4("/api/conversations/", id.as_str(), "/workspace/file?path=", place.as_str())
}

/// The preview of a file, for images only.
pub open spec fn preview_of(kind: Seq<char>, facts: FileFacts) -> Option<CachedImagePreview> {
    if kind == "image"@ {
        facts.preview
    } else {
        None
    }
}

pub open spec fn preview_width(p: Option<CachedImagePreview>) -> Option<u32> {
    match p {
        Some(p) => Some(p.original_width),
        None => None,
    }
}

pub open spec fn preview_height(p: Option<CachedImagePreview>) -> Option<u32> {
    match p {
        Some(p) => Some(p.original_height),
        None => None,
    }
}

pub open spec fn preview_thumbnail(p: Option<CachedImagePreview>) -> Option<ThumbnailView> {
    match p {
        Some(p) => Some(thumbnail_view(p.thumbnail)),
        None => None,
    }
}

/// The file of a tag as it is shown.
pub open spec fn tag_attachment(
    index: nat,
    marker: Option<Seq<char>>,
    attachment: OutgoingAttachment,
    conversation_id: Seq<char>,
    facts: FileFacts,
) -> AttachmentView {
    let path = match facts.workspace_path {
        Some(p) => p@,
        None => attachment.path@,
    };
    let preview = preview_of(kind_name(attachment.kind), facts);
    AttachmentView {
        index,
        source: "attachment_tag"@,
        kind: kind_name(attachment.kind),
        path,
        uri: "file://"@ + attachment.path@,
        name: match file_name(attachment.path@) {
            Some(n) => n,
            None => "attachment"@,
        },
        media_type: None,
        width: preview_width(preview),
        height: preview_height(preview),
        size_bytes: facts.size_bytes,
        url: file_url(conversation_id, path),
        marker,
        thumbnail: preview_thumbnail(preview),
    }
}

/// The sizes and the thumbnail of a preview that is shown.
fn shown_preview(kind: &str, facts: &FileFacts) -> (r: (
    Option<u32>,
    Option<u32>,
    Option<CachedThumbnail>,
))
    ensures
        r.0 == preview_width(preview_of(kind@, *facts)),
        r.1 == preview_height(preview_of(kind@, *facts)),
        opt_thumbnail(r.2) == preview_thumbnail(preview_of(kind@, *facts)),
{
    if text_eq(kind, "image") {
        match &facts.preview {
            Some(p) => (
                Some(p.original_width),
                Some(p.original_height),
                Some(copy_thumbnail(&p.thumbnail)),
            ),
            None => (None, None, None),
        }
    } else {
        (None, None, None)
    }
}

pub fn web_outgoing_attachment(
    index: usize,
    marker: Option<String>,
    attachment: &OutgoingAttachment,
    conversation_id: &str,
    facts: &FileFacts,
) -> (r: WebMessageAttachment)
    ensures
        r@ == tag_attachment(
            index as nat,
            opt_view(marker),
            *attachment,
            conversation_id@,
            *facts,
        ),
{
    let path: String = match &facts.workspace_path {
        Some(p) => p.clone(),
        None => attachment.path.clone(),
    };
    let kind: &'static str = kind_label(attachment.kind);
    let (width, height, thumbnail) = shown_preview(kind, facts);
    let name: String = match path_file_name(attachment.path.as_str()) {
        Some(n) => n,
        None => "attachment".to_owned(),
    };
    let url: String = make_file_url(conversation_id, path.as_str());
    WebMessageAttachment {
        index,
        source: "attachment_tag",
        kind,
        path,
        uri: cat2("file://", attachment.path.as_str()),
        name,
        media_type: None,
        width,
        height,
        size_bytes: facts.size_bytes,
        url,
        marker,
        thumbnail,
    }
}

/// Whether the place of a file can be read from its address.
pub open spec fn uri_is_readable(uri: Seq<char>) -> bool {
    without_prefix(uri, "file://"@) matches Some(p) ==> cuts_cleanly(p)
}

pub fn uri_can_be_read(uri: &str) -> (b: bool)
    ensures
        b == uri_is_readable(uri@),
{
    match strip_prefix(uri, "file://") {
        Some(p) => can_be_cut(p),
        None => true,
    }
}

/// Where the file of an item lies on this machine.
pub open spec fn local_path(uri: Seq<char>) -> Option<Seq<char>> {
    match without_prefix(uri, "file://"@) {
        Some(p) => Some(lenient_decoded(p)),
        None => if is_absolute(uri) {
            Some(uri)
        } else {
            None
        },
    }
}

pub fn local_path_from_file_item(file: &FileItem) -> (r: Option<String>)
    requires
        uri_is_readable(file.uri@),
    ensures
        opt_view(r) == local_path(file.uri@),
{
    let uri: &str = file.uri.as_str();
    match strip_prefix(uri, "file://") {
        Some(p) => Some(percent_decode_lenient(p)),
        None => if path_is_absolute(uri) {
            Some(uri.to_owned())
        } else {
            None
        },
    }
}

/// The kind of a file item: by its media type, else by its place.
pub open spec fn item_kind(media_type: Option<Seq<char>>, local: Option<Seq<char>>) -> Seq<char> {
    let t = match media_type {
        Some(t) => t,
        None => ""@,
    };
    if "image/"@.is_prefix_of(t) {
        "image"@
    } else if "audio/"@.is_prefix_of(t) {
        "audio"@
    } else if "video/"@.is_prefix_of(t) {
        "video"@
    } else {
        match local {
            Some(p) => kind_name(kind_of_extension(lower_extension(p))),
            None => "document"@,
        }
    }
}

pub fn file_attachment_kind_name(media_type: &Option<String>, local: &Option<String>) -> (r:
    &'static str)
    ensures
        r@ == item_kind(opt_view(*media_type), opt_view(*local)),
{
    let t: &str = match media_type {
        Some(t) => t.as_str(),
        None => "",
    };
    if starts_with(t, "image/") {
        return "image";
    }
    if starts_with(t, "audio/") {
        return "audio";
    }
    if starts_with(t, "video/") {
        return "video";
    }
    match local {
        Some(p) => kind_label(infer_outgoing_attachment_kind(p.as_str())),
        None => "document",
    }
}

/// A file item as it is shown, given where it lies on this machine.
pub open spec fn item_attachment(
    index: nat,
    source: Seq<char>,
    file: FileItem,
    local: Option<Seq<char>>,
    conversation_id: Seq<char>,
    facts: FileFacts,
) -> AttachmentView {
    let kind = item_kind(opt_view(file.media_type), local);
    let preview = preview_of(kind, facts);
    AttachmentView {
        index,
        source,
        kind,
        path: match facts.workspace_path {
            Some(p) => p@,
            None => file.uri@,
        },
        uri: file.uri@,
        name: match file.name {
            Some(n) => n@,
            None => match local {
                Some(p) => match file_name(p) {
                    Some(n) => n,
                    None => "attachment"@,
                },
                None => "attachment"@,
            },
        },
        media_type: opt_view(file.media_type),
        width: match file.width {
            Some(w) => Some(w),
            None => preview_width(preview),
        },
        height: match file.height {
            Some(h) => Some(h),
            None => preview_height(preview),
        },
        size_bytes: facts.size_bytes,
        url: match facts.workspace_path {
            Some(p) => file_url(conversation_id, p@),
            None => ""@,
        },
        marker: None,
        thumbnail: preview_thumbnail(preview),
    }
}

/// Shows a file item whose place on this machine is known.
pub fn show_file_item(
    index: usize,
    source: &'static str,
    file: &FileItem,
    local: &Option<String>,
    conversation_id: &str,
    facts: &FileFacts,
) -> (r: WebMessageAttachment)
    ensures
        r@ == item_attachment(
            index as nat,
            source@,
            *file,
            opt_view(*local),
            conversation_id@,
            *facts,
        ),
{
    let kind: &'static str = file_attachment_kind_name(&file.media_type, local);
    let (width, height, thumbnail) = shown_preview(kind, facts);
    let (path, url): (String, String) = match &facts.workspace_path {
        Some(p) => (p.clone(), make_file_url(conversation_id, p.as_str())),
        None => (file.uri.clone(), "".to_owned()),
    };
    let name: String = match &file.name {
        Some(n) => n.clone(),
        None => match local {
            Some(p) => match path_file_name(p.as_str()) {
                Some(n) => n,
                None => "attachment".to_owned(),
            },
            None => "attachment".to_owned(),
        },
    };
    WebMessageAttachment {
        index,
        source,
        kind,
        path,
        uri: file.uri.clone(),
        name,
        media_type: opt_copy(&file.media_type),
        width: match file.width {
            Some(w) => Some(w),
            None => width,
        },
        height: match file.height {
            Some(h) => Some(h),
            None => height,
        },
        size_bytes: facts.size_bytes,
        url,
        marker: None,
        thumbnail,
    }
}

pub fn web_file_item_attachment(
    index: usize,
    source: &'static str,
    file: &FileItem,
    conversation_id: &str,
    facts: &FileFacts,
) -> (r: WebMessageAttachment)
    requires
        uri_is_readable(file.uri@),
    ensures
        r@ == item_attachment(
            index as nat,
            source@,
            *file,
            local_path(file.uri@),
            conversation_id@,
            *facts,
        ),
{
    let local: Option<String> = local_path_from_file_item(file);
    show_file_item(index, source, file, &local, conversation_id, facts)
}

} // verus!

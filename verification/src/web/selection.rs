//! Parts of files that messages refer to, and the messages that clients send.

use vstd::prelude::*;
use crate::chat::{
    ChatMessage, ChatMessageItem, ChatRole, ContextItem, FileItem, SelectionContext,
    SelectionLocator, SelectionReferenceItem,
};
use crate::clock::{client_time, message_time_or_now};
use crate::json::{array_view, group_json, Json, JsonView};
use crate::json_ops::opt_json;
use crate::text::{chars_of, is_blank, opt_view, string_range, trim, trimmed};
use crate::web::files::{file_view, stated_file, strip_start, FileView, WebFileItem};
use crate::web::http::HttpError;
use crate::words::{replace_char, replace_seq};

verus! {

broadcast use group_json;

/// A text in lower case, as Unicode has it.
pub uninterp spec fn unicode_lower(text: Seq<char>) -> Seq<char>;

/// `str::to_lowercase`: the lower case of a text, which depends on the text alone.
pub assume_specification[ str::to_lowercase ](text: &str) -> (r: String)
    ensures
        r@ == unicode_lower(text@),
;

pub const MAX_SELECTIONS: usize = 8;

pub const MAX_SELECTED_TEXT_CHARS: usize = 4000;

pub const MAX_CONTEXT_CHARS: usize = 800;

pub const MAX_PATH_CHARS: usize = 512;

pub const MAX_SMALL_FIELD_CHARS: usize = 180;

pub const MAX_RECTS: usize = 16;

pub struct LocatorView {
    pub kind: Seq<char>,
    pub heading: Option<Seq<char>>,
    pub selector: Option<Seq<char>>,
    pub xpath: Option<Seq<char>>,
    pub block_id: Option<Seq<char>>,
    pub anchor_text: Option<Seq<char>>,
    pub rects: Seq<JsonView>,
}

pub struct SelectionView {
    pub file_path: Seq<char>,
    pub source_kind: Seq<char>,
    pub selected_text: Seq<char>,
    pub original_text_length: Option<u32>,
    pub file_name: Option<Seq<char>>,
    pub media_type: Option<Seq<char>>,
    pub locator: Option<LocatorView>,
    pub context: Option<(Option<Seq<char>>, Option<Seq<char>>)>,
}

pub open spec fn locator_view(l: SelectionLocator) -> LocatorView {
    LocatorView {
        kind: l.kind@,
        heading: opt_view(l.heading),
        selector: opt_view(l.selector),
        xpath: opt_view(l.xpath),
        block_id: opt_view(l.block_id),
        anchor_text: opt_view(l.anchor_text),
        rects: array_view(l.rects@),
    }
}

pub open spec fn selection_view(s: SelectionReferenceItem) -> SelectionView {
    SelectionView {
        file_path: s.file_path@,
        source_kind: s.source_kind@,
        selected_text: s.selected_text@,
        original_text_length: s.original_text_length,
        file_name: opt_view(s.file_name),
        media_type: opt_view(s.media_type),
        locator: match s.locator {
            Some(l) => Some(locator_view(l)),
            None => None,
        },
        context: match s.context {
            Some(c) => Some((opt_view(c.before), opt_view(c.after))),
            None => None,
        },
    }
}

pub open spec fn selection_views(s: Seq<SelectionReferenceItem>) -> Seq<SelectionView> {
    s.map_values(|x: SelectionReferenceItem| selection_view(x))
}

// ---------------------------------------------------------------------------
// Cleaning
// ---------------------------------------------------------------------------
pub open spec fn at_most(s: Seq<char>, max: int) -> Seq<char> {
    if s.len() <= max {
        s
    } else {
        s.take(max)
    }
}

/// A text trimmed, without NUL characters, and cut to a length.
pub open spec fn cleaned(value: Seq<char>, max: int) -> Seq<char> {
    at_most(replace_seq(trimmed(value), '\0', ""@), max)
}

pub fn clean_selection_string(value: &str, max_chars: usize) -> (r: String)
    ensures
        r@ == cleaned(value@, max_chars as int),
{
    let t: String = replace_char(trim(value), '\0', "");
    let chars: Vec<char> = chars_of(t.as_str());
    if chars.len() <= max_chars {
        t
    } else {
        let r: String = string_range(chars.as_slice(), 0, max_chars);
        assert(r@ =~= t@.take(max_chars as int));
        r
    }
}

/// A field that need not be there: cleaned, and dropped where nothing is left.
pub open spec fn cleaned_field(value: Option<Seq<char>>, max: int) -> Option<Seq<char>> {
    match value {
        Some(v) => if cleaned(v, max).len() == 0 {
            None
        } else {
            Some(cleaned(v, max))
        },
        None => None,
    }
}

fn clean_field(value: &Option<String>, max_chars: usize) -> (r: Option<String>)
    ensures
        opt_view(r) == cleaned_field(opt_view(*value), max_chars as int),
{
    match value {
        Some(v) => {
            let t: String = clean_selection_string(v.as_str(), max_chars);
            if t.as_str().is_empty() {
                None
            } else {
                Some(t)
            }
        },
        None => None,
    }
}

/// The locator of a selection, given its kind in lower case.
pub open spec fn cleaned_locator(l: LocatorView, kind: Seq<char>) -> LocatorView {
    LocatorView {
        kind: cleaned(kind, 180),
        heading: cleaned_field(l.heading, 180),
        selector: cleaned_field(l.selector, 180),
        xpath: cleaned_field(l.xpath, 180),
        block_id: cleaned_field(l.block_id, 180),
        anchor_text: cleaned_field(l.anchor_text, 180),
        rects: if l.rects.len() <= 16 {
            l.rects
        } else {
            l.rects.take(16)
        },
    }
}

/// The length of a text as it is noted.
pub open spec fn noted_length(n: nat) -> u32 {
    if n <= u32::MAX {
        n as u32
    } else {
        u32::MAX
    }
}

/// A selection with every field cleaned, given its kinds in lower case.
pub open spec fn cleaned_selection(
    s: SelectionView,
    source_kind: Seq<char>,
    locator_kind: Seq<char>,
) -> SelectionView {
    SelectionView {
        file_path: strip_start(cleaned(s.file_path, 512), '/'),
        source_kind: cleaned(source_kind, 180),
        selected_text: cleaned(s.selected_text, 4000),
        original_text_length: match s.original_text_length {
            Some(n) => Some(n),
            None => Some(noted_length(s.selected_text.len())),
        },
        file_name: cleaned_field(s.file_name, 180),
        media_type: cleaned_field(s.media_type, 180),
        locator: match s.locator {
            Some(l) => Some(cleaned_locator(l, locator_kind)),
            None => None,
        },
        context: match s.context {
            Some(c) => Some((cleaned_field(c.0, 800), cleaned_field(c.1, 800))),
            None => None,
        },
    }
}

/// Whether a selection says which text it is about.
pub open spec fn is_complete(s: SelectionView) -> bool {
    s.file_path.len() > 0 && s.source_kind.len() > 0 && trimmed(s.selected_text).len() > 0
}

fn strip_slashes(text: &str) -> (r: String)
    ensures
        r@ == strip_start(text@, '/'),
{
    let chars: Vec<char> = chars_of(text);
    let n: usize = chars.len();
    let mut from: usize = 0;
    assert(text@.skip(0) =~= text@);
    while from < n && chars[from] == '/'
        invariant
            from <= n,
            n == chars@.len(),
            chars@ == text@,
            strip_start(text@, '/') == strip_start(text@.skip(from as int), '/'),
        decreases n - from,
    {
        assert(text@.skip(from as int).skip(1) =~= text@.skip(from + 1));
        from += 1;
    }
    let r: String = string_range(chars.as_slice(), from, n);
    assert(r@ =~= text@.skip(from as int));
    r
}

fn clean_locator(locator: SelectionLocator, kind: &str) -> (r: SelectionLocator)
    ensures
        locator_view(r) == cleaned_locator(locator_view(locator), kind@),
{
    let mut rects: Vec<Json> = locator.rects;
    let ghost before = rects@;
    if rects.len() > MAX_RECTS {
        rects.truncate(MAX_RECTS);
        assert(array_view(rects@) =~= array_view(before).take(16));
    }
    SelectionLocator {
        kind: clean_selection_string(kind, MAX_SMALL_FIELD_CHARS),
        heading: clean_field(&locator.heading, MAX_SMALL_FIELD_CHARS),
        selector: clean_field(&locator.selector, MAX_SMALL_FIELD_CHARS),
        xpath: clean_field(&locator.xpath, MAX_SMALL_FIELD_CHARS),
        block_id: clean_field(&locator.block_id, MAX_SMALL_FIELD_CHARS),
        anchor_text: clean_field(&locator.anchor_text, MAX_SMALL_FIELD_CHARS),
        rects,
    }
}

/// Cleans a selection whose kinds are given in lower case; one that says too little is
/// dropped.
pub fn clean_selection(
    selection: SelectionReferenceItem,
    source_kind: &str,
    locator_kind: &str,
) -> (r: Option<SelectionReferenceItem>)
    ensures
        ({
            let c = cleaned_selection(selection_view(selection), source_kind@, locator_kind@);
            match r {
                Some(s) => is_complete(c) && selection_view(s) == c,
                None => !is_complete(c),
            }
        }),
{
    let path: String = clean_selection_string(selection.file_path.as_str(), MAX_PATH_CHARS);
    let file_path: String = strip_slashes(path.as_str());
    let source_kind: String = clean_selection_string(source_kind, MAX_SMALL_FIELD_CHARS);
    let length: u32 = match selection.original_text_length {
        Some(n) => n,
        None => {
            let n: usize = chars_of(selection.selected_text.as_str()).len();
            if n as u64 <= u32::MAX as u64 {
                n as u32
            } else {
                u32::MAX
            }
        },
    };
    let selected_text: String = clean_selection_string(
        selection.selected_text.as_str(),
        MAX_SELECTED_TEXT_CHARS,
    );
    if file_path.as_str().is_empty() || source_kind.as_str().is_empty() || is_blank(
        selected_text.as_str(),
    ) {
        return None;
    }
    let locator: Option<SelectionLocator> = match selection.locator {
        Some(l) => Some(clean_locator(l, locator_kind)),
        None => None,
    };
    let context: Option<SelectionContext> = match selection.context {
        Some(c) => Some(
            SelectionContext {
                before: clean_field(&c.before, MAX_CONTEXT_CHARS),
                after: clean_field(&c.after, MAX_CONTEXT_CHARS),
            },
        ),
        None => None,
    };
    Some(
        SelectionReferenceItem {
            file_path,
            source_kind,
            selected_text,
            original_text_length: Some(length),
            file_name: clean_field(&selection.file_name, MAX_SMALL_FIELD_CHARS),
            media_type: clean_field(&selection.media_type, MAX_SMALL_FIELD_CHARS),
            locator,
            context,
        },
    )
}

/// A selection, cleaned.
pub open spec fn sane(s: SelectionView) -> SelectionView {
    cleaned_selection(
        s,
        unicode_lower(s.source_kind),
        match s.locator {
            Some(l) => unicode_lower(l.kind),
            None => ""@,
        },
    )
}

/// The first `n` selections, cleaned, but for those that say too little.
pub open spec fn sane_selections(s: Seq<SelectionView>, n: int) -> Seq<SelectionView>
    decreases n,
{
    if n <= 0 || n > s.len() {
        Seq::empty()
    } else if is_complete(sane(s[n - 1])) {
        sane_selections(s, n - 1).push(sane(s[n - 1]))
    } else {
        sane_selections(s, n - 1)
    }
}

/// The selections of a message that are kept.
pub open spec fn kept_selections(s: Seq<SelectionView>) -> Seq<SelectionView> {
    sane_selections(
        s,
        if s.len() <= 8 {
            s.len() as int
        } else {
            8
        },
    )
}

pub fn sanitize_selection_references(selections: Vec<SelectionReferenceItem>) -> (r: Vec<
    SelectionReferenceItem,
>)
    ensures
        selection_views(r@) == kept_selections(selection_views(selections@)),
{
    let ghost all = selection_views(selections@);
    let n: usize = if selections.len() <= MAX_SELECTIONS {
        selections.len()
    } else {
        MAX_SELECTIONS
    };
    let mut rest: Vec<SelectionReferenceItem> = selections;
    let mut r: Vec<SelectionReferenceItem> = Vec::new();
    let mut i: usize = 0;
    assert(selection_views(r@) =~= Seq::empty());
    while i < n
        invariant
            i <= n <= all.len(),
            selection_views(rest@) == all.skip(i as int),
            selection_views(r@) == sane_selections(all, i as int),
        decreases n - i,
    {
        assert(selection_views(rest@).len() == rest@.len());
        let ghost before = rest@;
        let s: SelectionReferenceItem = rest.remove(0);
        proof {
            assert(selection_views(before)[0] == all[i as int]);
            assert(selection_view(s) == all[i as int]);
            assert(selection_views(rest@) =~= selection_views(before).skip(1));
            assert(all.skip(i as int).skip(1) =~= all.skip(i + 1));
        }
        let source_kind: String = s.source_kind.as_str().to_lowercase();
        let locator_kind: String = match &s.locator {
            Some(l) => l.kind.as_str().to_lowercase(),
            None => "".to_owned(),
        };
        let ghost kept = r@;
        if let Some(c) = clean_selection(s, source_kind.as_str(), locator_kind.as_str()) {
            r.push(c);
            assert(selection_views(r@) =~= selection_views(kept).push(selection_view(c)));
        }
        i += 1;
    }
    r
}

proof fn lemma_sane(s: Seq<SelectionView>, n: int)
    requires
        0 <= n <= s.len(),
    ensures
        sane_selections(s, n).len() <= n,
        forall|i: int|
            0 <= i < sane_selections(s, n).len() ==> is_complete(#[trigger] sane_selections(s, n)[i])
                && exists|k: int| 0 <= k < n && sane_selections(s, n)[i] == sane(#[trigger] s[k]),
    decreases n,
{
    if n > 0 {
        lemma_sane(s, n - 1);
        let a = sane_selections(s, n - 1);
        let b = sane_selections(s, n);
        assert forall|i: int| 0 <= i < b.len() implies is_complete(#[trigger] b[i]) && exists|k: int|
            0 <= k < n && b[i] == sane(#[trigger] s[k]) by {
            if i < a.len() {
                assert(b[i] == a[i]);
                let k = choose|k: int| 0 <= k < n - 1 && a[i] == sane(#[trigger] s[k]);
                assert(b[i] == sane(s[k]));
            } else {
                assert(b[i] == sane(s[n - 1]));
            }
        }
    }
}

proof fn lemma_strip_start_len(s: Seq<char>, c: char)
    ensures
        strip_start(s, c).len() <= s.len(),
        strip_start(s, c).len() > 0 ==> strip_start(s, c)[0] != c,
    decreases s.len(),
{
    if s.len() > 0 && s[0] == c {
        lemma_strip_start_len(s.skip(1), c);
    }
}

/// Whether a field is left out, or holds a text that is not empty and not too long.
pub open spec fn field_is_small(field: Option<Seq<char>>, max: int) -> bool {
    match field {
        Some(t) => 0 < t.len() <= max,
        None => true,
    }
}

pub open spec fn locator_is_small(l: LocatorView) -> bool {
    &&& l.kind.len() <= MAX_SMALL_FIELD_CHARS
    &&& field_is_small(l.heading, MAX_SMALL_FIELD_CHARS as int)
    &&& field_is_small(l.selector, MAX_SMALL_FIELD_CHARS as int)
    &&& field_is_small(l.xpath, MAX_SMALL_FIELD_CHARS as int)
    &&& field_is_small(l.block_id, MAX_SMALL_FIELD_CHARS as int)
    &&& field_is_small(l.anchor_text, MAX_SMALL_FIELD_CHARS as int)
    &&& l.rects.len() <= MAX_RECTS
}

/// The selections of a message are few, each says of what kind its file is and is about a
/// text, more than white space, in a file below the workspace, and no field of it is long.
pub proof fn kept_selections_are_small(s: Seq<SelectionView>, i: int)
    requires
        0 <= i < kept_selections(s).len(),
    ensures
        kept_selections(s).len() <= MAX_SELECTIONS,
        0 < kept_selections(s)[i].file_path.len() <= MAX_PATH_CHARS,
        kept_selections(s)[i].file_path[0] != '/',
        0 < kept_selections(s)[i].selected_text.len() <= MAX_SELECTED_TEXT_CHARS,
        kept_selections(s)[i].original_text_length is Some,
        0 < kept_selections(s)[i].source_kind.len() <= MAX_SMALL_FIELD_CHARS,
        trimmed(kept_selections(s)[i].selected_text).len() > 0,
        field_is_small(kept_selections(s)[i].file_name, MAX_SMALL_FIELD_CHARS as int),
        field_is_small(kept_selections(s)[i].media_type, MAX_SMALL_FIELD_CHARS as int),
        kept_selections(s)[i].locator matches Some(l) ==> locator_is_small(l),
        kept_selections(s)[i].context matches Some(c) ==> field_is_small(
            c.0,
            MAX_CONTEXT_CHARS as int,
        ) && field_is_small(c.1, MAX_CONTEXT_CHARS as int),
{
    let n = if s.len() <= 8 {
        s.len() as int
    } else {
        8
    };
    lemma_sane(s, n);
    let x = kept_selections(s)[i];
    let k = choose|k: int| 0 <= k < n && x == sane(#[trigger] s[k]);
    lemma_strip_start_len(cleaned(s[k].file_path, 512), '/');
    if x.selected_text.len() == 0 {
        crate::text::trim_is_idempotent(x.selected_text);
    }
}

// ---------------------------------------------------------------------------
// Messages
// ---------------------------------------------------------------------------
/// A message as a client sends it.
#[derive(Debug)]
pub struct SendMessageRequest {
    pub remote_message_id: Option<String>,
    pub user_name: Option<String>,
    pub message_time: Option<String>,
    pub text: Option<String>,
    pub selection_references: Option<Vec<SelectionReferenceItem>>,
    pub files: Option<Vec<WebFileItem>>,
}

pub enum ItemView {
    Reasoning { text: Seq<char>, summary: Option<Seq<char>>, encrypted: Option<Seq<char>> },
    Text(Seq<char>),
    Selection(SelectionView),
    File(FileView),
    ToolCall {
        tool_call_id: Seq<char>,
        tool_name: Seq<char>,
        arguments: Seq<char>,
        value: Option<JsonView>,
    },
    ToolResult {
        tool_call_id: Seq<char>,
        tool_name: Seq<char>,
        text: Seq<char>,
        structured: Option<JsonView>,
        files: Seq<FileView>,
    },
}

/// What an item of a message holds.
pub open spec fn item_view(item: ChatMessageItem) -> ItemView {
    match item {
        ChatMessageItem::Reasoning(r) => ItemView::Reasoning {
            text: r.text@,
            summary: opt_view(r.summary),
            encrypted: opt_view(r.encrypted_content),
        },
        ChatMessageItem::Context(c) => ItemView::Text(c.text@),
        ChatMessageItem::SelectionReference(s) => ItemView::Selection(selection_view(s)),
        ChatMessageItem::File(f) => ItemView::File(file_view(f)),
        ChatMessageItem::ToolCall(c) => ItemView::ToolCall {
            tool_call_id: c.tool_call_id@,
            tool_name: c.tool_name@,
            arguments: c.arguments@,
            value: opt_json(c.value),
        },
        ChatMessageItem::ToolResult(t) => ItemView::ToolResult {
            tool_call_id: t.tool_call_id@,
            tool_name: t.tool_name@,
            text: t.text@,
            structured: opt_json(t.structured),
            files: file_views(t.files@),
        },
    }
}

pub open spec fn item_views(s: Seq<ChatMessageItem>) -> Seq<ItemView> {
    s.map_values(|x: ChatMessageItem| item_view(x))
}

pub open spec fn file_views(s: Seq<FileItem>) -> Seq<FileView> {
    s.map_values(|x: FileItem| file_view(x))
}

pub open spec fn web_file_views(s: Seq<WebFileItem>) -> Seq<FileView> {
    s.map_values(
        |x: WebFileItem| stated_file(x.uri@, opt_view(x.name), opt_view(x.media_type)),
    )
}

/// The items of a message: its text, its selections, its files.
pub open spec fn items_of_parts(
    text: Option<Seq<char>>,
    selections: Seq<SelectionView>,
    files: Seq<FileView>,
) -> Seq<ItemView> {
    (match text {
        Some(t) => seq![ItemView::Text(t)],
        None => Seq::empty(),
    }) + selections.map_values(|s: SelectionView| ItemView::Selection(s)) + files.map_values(
        |f: FileView| ItemView::File(f),
    )
}

/// Puts the items of a message together.
pub fn message_items(
    text: Option<String>,
    selections: Vec<SelectionReferenceItem>,
    files: Vec<FileItem>,
) -> (r: Vec<ChatMessageItem>)
    ensures
        item_views(r@) == items_of_parts(
            opt_view(text),
            selection_views(selections@),
            file_views(files@),
        ),
{
    let ghost sv = selection_views(selections@);
    let ghost fv = file_views(files@);
    let ghost expected = items_of_parts(opt_view(text), sv, fv);
    let ghost start = match text {
        Some(_) => 1int,
        None => 0,
    };
    let mut r: Vec<ChatMessageItem> = Vec::new();
    if let Some(t) = text {
        r.push(ChatMessageItem::Context(ContextItem { text: t }));
    }
    let n: usize = selections.len();
    let mut selections: Vec<SelectionReferenceItem> = selections;
    let mut i: usize = 0;
    while i < n
        invariant
            i <= n,
            n == sv.len(),
            start == 0 || start == 1,
            expected.len() == start + sv.len() + fv.len(),
            forall|k: int| 0 <= k < sv.len() ==> (#[trigger] expected[start + k])
                == ItemView::Selection(sv[k]),
            selection_views(selections@) == sv.skip(i as int),
            item_views(r@) =~= expected.take(start + i),
        decreases n - i,
    {
        assert(selection_views(selections@).len() == selections@.len());
        let ghost before = selections@;
        let ghost items = r@;
        let s: SelectionReferenceItem = selections.remove(0);
        proof {
            assert(selection_views(before)[0] == sv[i as int]);
            assert(selection_views(selections@) =~= selection_views(before).skip(1));
            assert(sv.skip(i as int).skip(1) =~= sv.skip(i + 1));
            assert(expected[start + i] == ItemView::Selection(sv[i as int]));
        }
        r.push(ChatMessageItem::SelectionReference(s));
        assert(item_views(r@) =~= item_views(items).push(expected[start + i]));
        i += 1;
    }
    let m: usize = files.len();
    let mut files: Vec<FileItem> = files;
    let mut i: usize = 0;
    while i < m
        invariant
            i <= m,
            m == fv.len(),
            start == 0 || start == 1,
            expected.len() == start + sv.len() + fv.len(),
            forall|k: int| 0 <= k < fv.len() ==> (#[trigger] expected[start + sv.len() + k])
                == ItemView::File(fv[k]),
            file_views(files@) == fv.skip(i as int),
            item_views(r@) =~= expected.take(start + sv.len() + i),
        decreases m - i,
    {
        assert(file_views(files@).len() == files@.len());
        let ghost before = files@;
        let ghost items = r@;
        let f: FileItem = files.remove(0);
        proof {
            assert(file_views(before)[0] == fv[i as int]);
            assert(file_views(files@) =~= file_views(before).skip(1));
            assert(fv.skip(i as int).skip(1) =~= fv.skip(i + 1));
            assert(expected[start + sv.len() + i] == ItemView::File(fv[i as int]));
        }
        r.push(ChatMessageItem::File(f));
        assert(item_views(r@) =~= item_views(items).push(expected[start + sv.len() + i]));
        i += 1;
    }
    assert(expected.take(expected.len() as int) =~= expected);
    r
}

fn file_items(files: Vec<WebFileItem>) -> (r: Vec<FileItem>)
    ensures
        file_views(r@) == web_file_views(files@),
{
    let ghost all = files@;
    let n: usize = files.len();
    let mut files: Vec<WebFileItem> = files;
    let mut r: Vec<FileItem> = Vec::new();
    let mut i: usize = 0;
    while i < n
        invariant
            i <= n,
            n == all.len(),
            files@ == all.skip(i as int),
            file_views(r@) =~= web_file_views(all).take(i as int),
        decreases n - i,
    {
        let ghost before = r@;
        let f: WebFileItem = files.remove(0);
        assert(all.skip(i as int).skip(1) =~= all.skip(i + 1));
        let item: FileItem = f.file_item();
        r.push(item);
        assert(file_views(r@) =~= file_views(before).push(file_view(item)));
        i += 1;
    }
    assert(web_file_views(all).take(n as int) =~= web_file_views(all));
    r
}

pub open spec fn requested_text(request: SendMessageRequest) -> Seq<char> {
    match request.text {
        Some(t) => t@,
        None => ""@,
    }
}

pub open spec fn requested_selections(request: SendMessageRequest) -> Seq<SelectionView> {
    match request.selection_references {
        Some(s) => kept_selections(selection_views(s@)),
        None => Seq::empty(),
    }
}

pub open spec fn requested_files(request: SendMessageRequest) -> Seq<FileView> {
    match request.files {
        Some(f) => web_file_views(f@),
        None => Seq::empty(),
    }
}

/// Whether a message holds nothing.
pub open spec fn says_nothing(
    text: Seq<char>,
    selections: Seq<SelectionView>,
    files: Seq<FileView>,
) -> bool {
    trimmed(text).len() == 0 && files.len() == 0 && selections.len() == 0
}

/// Makes a message of what a client sends. `message_id` is the id of the message and
/// `now` its time, where the client states none.
pub fn web_send_message_to_chat_message(
    request: SendMessageRequest,
    message_id: String,
    now: String,
) -> (r: Result<ChatMessage, HttpError>)
    ensures
        ({
            let text = requested_text(request);
            let selections = requested_selections(request);
            let files = requested_files(request);
            if says_nothing(text, selections, files) {
                r matches Err(e) && e.status == 400 && e.message@
                    == "message requires text, files, or selection references"@
            } else {
                &&& r matches Ok(m)
                &&& m.message_id == message_id
                &&& m.role == ChatRole::User
                &&& m.user_name == request.user_name
                &&& opt_view(m.message_time) == Some(
                    match client_time(opt_view(request.message_time)) {
                        Some(t) => t,
                        None => now@,
                    },
                )
                &&& m.token_usage is None
                &&& item_views(m.data@) == items_of_parts(
                    if text.len() == 0 {
                        None
                    } else {
                        Some(text)
                    },
                    selections,
                    files,
                )
            }
        }),
{
    let text: String = match request.text {
        Some(t) => t,
        None => "".to_owned(),
    };
    let files: Vec<FileItem> = match request.files {
        Some(f) => file_items(f),
        None => Vec::new(),
    };
    let selections: Vec<SelectionReferenceItem> = match request.selection_references {
        Some(s) => sanitize_selection_references(s),
        None => Vec::new(),
    };
    proof {
        assert(selection_views(selections@) =~= requested_selections(request));
        assert(file_views(files@) =~= requested_files(request));
    }
    if is_blank(text.as_str()) && files.len() == 0 && selections.len() == 0 {
        return Err(HttpError::new(400, "message requires text, files, or selection references"));
    }
    let message_time: String = message_time_or_now(&request.message_time, now);
    let text: Option<String> = if text.as_str().is_empty() {
        None
    } else {
        Some(text)
    };
    Ok(
        ChatMessage {
            message_id,
            role: ChatRole::User,
            user_name: request.user_name,
            message_time: Some(message_time),
            token_usage: None,
            data: message_items(text, selections, files),
        },
    )
}

} // verus!

//! Messages as clients see them.

use vstd::prelude::*;
use crate::channels::OutgoingAttachment;
use crate::chat::{
    ChatMessage, ChatMessageItem, FileItem, ReasoningItem, SelectionReferenceItem, ToolResultItem,
};
use crate::json::{Json, JsonView};
use crate::json_ops::opt_json;
use crate::text::{cat2, is_blank, opt_copy, opt_view, trim, trimmed, views};
use crate::text_map::TextMap;
use crate::web::attachments::{
    as_index, attachment_marker, clean_text, extract_attachment_references_with_markers,
    item_attachment, local_path, marked_text, marker, paths_of, pieces, strip_attachment_tags,
    stripped_text, tag_attachment, tag_start, uri_is_readable, web_file_item_attachment,
    web_outgoing_attachment, AttachmentView, FileFacts, WebAttachmentExtraction,
    WebMessageAttachment,
};
use crate::web::chat_copy::{copy_opt_json, copy_selection};
use crate::web::files::some_text;
use crate::web::selection::{selection_view, SelectionView};
use crate::words::{contains, find_seq, join, join_seq};

verus! {

// ---------------------------------------------------------------------------
// What is known of the files
// ---------------------------------------------------------------------------
/// What became of the path in a tag.
#[derive(Debug)]
pub enum Resolution {
    Shown(OutgoingAttachment, FileFacts),
    Refused(String),
}

/// What is known of the files of a message: by the paths in its tags, and by the
/// addresses of its files.
#[derive(Debug)]
pub struct MessageFacts {
    pub resolutions: TextMap<Resolution>,
    pub files: TextMap<FileFacts>,
}

impl MessageFacts {
    pub open spec fn wf(self) -> bool {
        self.resolutions.wf() && self.files.wf()
    }

    /// Why a path cannot be shown. A path of which nothing is known does not exist.
    pub open spec fn refusal(self, path: Seq<char>) -> Option<Seq<char>> {
        if self.resolutions@.contains_key(path) {
            match self.resolutions@[path] {
                Resolution::Shown(..) => None,
                Resolution::Refused(e) => Some(e@),
            }
        } else {
            Some("attachment path does not exist: "@ + path)
        }
    }

    /// The facts of a file; nothing is known of others.
    pub open spec fn file(self, uri: Seq<char>) -> FileFacts {
        if self.files@.contains_key(uri) {
            self.files@[uri]
        } else {
            FileFacts { workspace_path: None, size_bytes: None, preview: None }
        }
    }

    /// Notes what is known of the file at an address. The address can stand in a message more
    /// than once, as an image and as something else: a preview that was found is kept.
    pub fn note_file(&mut self, uri: &str, known: FileFacts)
        requires
            old(self).wf(),
        ensures
            final(self).wf(),
            final(self).resolutions == old(self).resolutions,
            final(self).files@ == (if old(self).file(uri@).preview is Some && known.preview is None {
                old(self).files@
            } else {
                old(self).files@.insert(uri@, known)
            }),
    {
        let kept: bool = match self.files.get(uri) {
            Some(f) => f.preview.is_some() && known.preview.is_none(),
            None => false,
        };
        if !kept {
            self.files.insert(uri, known);
        }
    }
}

/// The first refusal among the paths from an index on.
pub open spec fn first_refusal(facts: MessageFacts, paths: Seq<Seq<char>>, i: int) -> Option<
    Seq<char>,
>
    decreases paths.len() - i,
{
    if i < 0 || i >= paths.len() {
        None
    } else {
        match facts.refusal(paths[i]) {
            Some(e) => Some(e),
            None => first_refusal(facts, paths, i + 1),
        }
    }
}

fn find_refusal(facts: &MessageFacts, paths: &Vec<String>) -> (r: Option<String>)
    requires
        facts.wf(),
    ensures
        opt_view(r) == first_refusal(*facts, views(paths@), 0),
        r is None ==> forall|k: int|
            0 <= k < paths@.len() ==> facts.refusal((#[trigger] paths@[k])@) is None,
{
    let ghost v = views(paths@);
    assert(v.len() == paths@.len());
    let mut i: usize = 0;
    while i < paths.len()
        invariant
            i <= paths@.len(),
            v == views(paths@),
            facts.wf(),
            first_refusal(*facts, v, 0) == first_refusal(*facts, v, i as int),
            forall|k: int| 0 <= k < i ==> facts.refusal((#[trigger] paths@[k])@) is None,
        decreases paths@.len() - i,
    {
        assert(v[i as int] == paths@[i as int]@);
        match facts.resolutions.get(paths[i].as_str()) {
            Some(Resolution::Shown(..)) => {},
            Some(Resolution::Refused(e)) => {
                return Some(e.clone());
            },
            None => {
                return Some(cat2("attachment path does not exist: ", paths[i].as_str()));
            },
        }
        i += 1;
    }
    None
}

// ---------------------------------------------------------------------------
// Texts
// ---------------------------------------------------------------------------
/// A text of a message as it is shown, and the files that its tags name.
pub struct PartView {
    pub text: Seq<char>,
    pub marked: Seq<char>,
    pub attachments: Seq<AttachmentView>,
    pub error: Option<Seq<char>>,
}

/// The file that the tag of a path shows.
pub open spec fn shown_tag(
    facts: MessageFacts,
    path: Seq<char>,
    index: nat,
    conversation_id: Seq<char>,
) -> AttachmentView {
    tag_attachment(
        index,
        Some(marker(as_index(index))),
        facts.resolutions@[path]->Shown_0,
        conversation_id,
        facts.resolutions@[path]->Shown_1,
    )
}

pub open spec fn shown_tags(
    facts: MessageFacts,
    paths: Seq<Seq<char>>,
    count: nat,
    conversation_id: Seq<char>,
) -> Seq<AttachmentView> {
    Seq::new(
        paths.len(),
        |i: int| shown_tag(facts, paths[i], (count + i) as nat, conversation_id),
    )
}

/// A text with its tags taken out. Where a file cannot be shown, no file of the text is:
/// its tags are replaced by their paths.
pub open spec fn text_part(
    facts: MessageFacts,
    raw: Seq<char>,
    count: nat,
    conversation_id: Seq<char>,
) -> PartView {
    let p = pieces(raw, 0);
    if find_seq(raw, tag_start()) is None {
        PartView { text: raw, marked: raw, attachments: Seq::empty(), error: None }
    } else {
        match first_refusal(facts, paths_of(p), 0) {
            Some(e) => PartView {
                text: trimmed(stripped_text(p)),
                marked: trimmed(stripped_text(p)),
                attachments: Seq::empty(),
                error: Some(e),
            },
            None => PartView {
                text: trimmed(clean_text(p)),
                marked: trimmed(marked_text(p, count)),
                attachments: shown_tags(facts, paths_of(p), count, conversation_id),
                error: None,
            },
        }
    }
}

/// The text that is shown of a thought: its summary, else the thought itself.
pub open spec fn shown_reasoning(text: Seq<char>, summary: Option<Seq<char>>) -> Option<Seq<char>> {
    some_text(
        match summary {
            Some(s) => Some(s),
            None => if text.len() > 0 {
                Some(text)
            } else {
                None
            },
        },
    )
}

pub fn reasoning_web_text(reasoning: &ReasoningItem) -> (r: Option<String>)
    ensures
        opt_view(r) == shown_reasoning(reasoning.text@, opt_view(reasoning.summary)),
{
    let text: &str = match &reasoning.summary {
        Some(s) => s.as_str(),
        None => {
            if reasoning.text.as_str().is_empty() {
                return None;
            }
            reasoning.text.as_str()
        },
    };
    let t: &str = trim(text);
    if t.is_empty() {
        None
    } else {
        Some(t.to_owned())
    }
}

/// The arguments of a call: what they stand for, else their text.
pub open spec fn tool_arguments(raw: Seq<char>, value: Option<JsonView>) -> JsonView {
    match value {
        Some(v) => v,
        None => JsonView::Text(raw),
    }
}

pub fn parse_tool_arguments(raw_text: &str, value: &Option<Json>) -> (r: Json)
    ensures
        r@ == tool_arguments(raw_text@, opt_json(*value)),
{
    match value {
        Some(v) => v.copy(),
        None => Json::text(raw_text),
    }
}

// ---------------------------------------------------------------------------
// Items
// ---------------------------------------------------------------------------
/// An item of a message as it is shown.
#[derive(Debug)]
pub enum WebMessageItem {
    Reasoning { index: usize, text: String, summary: Option<String> },
    Text { index: usize, text: String, text_with_attachment_markers: String },
    SelectionReference { index: usize, selection: SelectionReferenceItem },
    File { index: usize, attachment_index: usize },
    ToolCall { index: usize, tool_call_id: String, tool_name: String, arguments: Json },
    ToolResult {
        index: usize,
        tool_call_id: String,
        tool_name: String,
        context: Option<String>,
        context_with_attachment_markers: Option<String>,
        structured: Option<Json>,
        file_attachment_indices: Vec<usize>,
    },
}

pub enum WebItemView {
    Reasoning { index: nat, text: Seq<char>, summary: Option<Seq<char>> },
    Text { index: nat, text: Seq<char>, marked: Seq<char> },
    Selection { index: nat, selection: SelectionView },
    File { index: nat, attachment_index: nat },
    ToolCall { index: nat, tool_call_id: Seq<char>, tool_name: Seq<char>, arguments: JsonView },
    ToolResult {
        index: nat,
        tool_call_id: Seq<char>,
        tool_name: Seq<char>,
        context: Option<Seq<char>>,
        marked: Option<Seq<char>>,
        structured: Option<JsonView>,
        files: Seq<nat>,
    },
}

pub open spec fn index_views(s: Seq<usize>) -> Seq<nat> {
    s.map_values(|i: usize| i as nat)
}

impl WebMessageItem {
    pub open spec fn view(self) -> WebItemView {
        match self {
            WebMessageItem::Reasoning { index, text, summary } => WebItemView::Reasoning {
                index: index as nat,
                text: text@,
                summary: opt_view(summary),
            },
            WebMessageItem::Text { index, text, text_with_attachment_markers } =>
                WebItemView::Text {
                index: index as nat,
                text: text@,
                marked: text_with_attachment_markers@,
            },
            WebMessageItem::SelectionReference { index, selection } => WebItemView::Selection {
                index: index as nat,
                selection: selection_view(selection),
            },
            WebMessageItem::File { index, attachment_index } => WebItemView::File {
                index: index as nat,
                attachment_index: attachment_index as nat,
            },
            WebMessageItem::ToolCall { index, tool_call_id, tool_name, arguments } =>
                WebItemView::ToolCall {
                index: index as nat,
                tool_call_id: tool_call_id@,
                tool_name: tool_name@,
                arguments: arguments@,
            },
            WebMessageItem::ToolResult {
                index,
                tool_call_id,
                tool_name,
                context,
                context_with_attachment_markers,
                structured,
                file_attachment_indices,
            } => WebItemView::ToolResult {
                index: index as nat,
                tool_call_id: tool_call_id@,
                tool_name: tool_name@,
                context: opt_view(context),
                marked: opt_view(context_with_attachment_markers),
                structured: opt_json(structured),
                files: index_views(file_attachment_indices@),
            },
        }
    }
}

pub open spec fn web_item_views(s: Seq<WebMessageItem>) -> Seq<WebItemView> {
    s.map_values(|x: WebMessageItem| x@)
}

pub open spec fn attachment_views(s: Seq<WebMessageAttachment>) -> Seq<AttachmentView> {
    s.map_values(|x: WebMessageAttachment| x@)
}

/// What has been shown of a message so far.
pub struct RenderView {
    pub parts: Seq<Seq<char>>,
    pub marked: Seq<Seq<char>>,
    pub items: Seq<WebItemView>,
    pub attachments: Seq<AttachmentView>,
    pub errors: Seq<Seq<char>>,
}

impl RenderView {
    pub open spec fn empty() -> Self {
        RenderView {
            parts: Seq::empty(),
            marked: Seq::empty(),
            items: Seq::empty(),
            attachments: Seq::empty(),
            errors: Seq::empty(),
        }
    }

    pub open spec fn with_item(self, item: WebItemView) -> Self {
        RenderView { items: self.items.push(item), ..self }
    }

    /// The files of a part, or why they cannot be shown.
    pub open spec fn with_files(self, part: PartView) -> Self {
        RenderView {
            attachments: self.attachments + part.attachments,
            errors: match part.error {
                Some(e) => self.errors.push(e),
                None => self.errors,
            },
            ..self
        }
    }

    pub open spec fn part(self, facts: MessageFacts, raw: Seq<char>, conversation_id: Seq<char>) -> PartView {
        text_part(facts, raw, self.attachments.len(), conversation_id)
    }

    pub open spec fn context(
        self,
        index: nat,
        text: Seq<char>,
        conversation_id: Seq<char>,
        facts: MessageFacts,
    ) -> Self {
        let part = self.part(facts, text, conversation_id);
        let s = self.with_files(part);
        if part.text.len() == 0 && part.marked.len() == 0 {
            s
        } else {
            RenderView {
                parts: s.parts.push(part.text),
                marked: s.marked.push(part.marked),
                ..s
            }.with_item(WebItemView::Text { index, text: part.text, marked: part.marked })
        }
    }

    /// The first `n` of some files, one after another.
    pub open spec fn files(
        self,
        source: Seq<char>,
        list: Seq<FileItem>,
        n: int,
        conversation_id: Seq<char>,
        facts: MessageFacts,
    ) -> Self {
        RenderView {
            attachments: self.attachments + Seq::new(
                n as nat,
                |i: int|
                    item_attachment(
                        (self.attachments.len() + i) as nat,
                        source,
                        list[i],
                        local_path(list[i].uri@),
                        conversation_id,
                        facts.file(list[i].uri@),
                    ),
            ),
            ..self
        }
    }

    pub open spec fn tool_result(
        self,
        index: nat,
        result: ToolResultItem,
        conversation_id: Seq<char>,
        facts: MessageFacts,
    ) -> Self {
        let blank = trimmed(result.text@).len() == 0;
        let part = self.part(facts, result.text@, conversation_id);
        let s = if blank {
            self
        } else {
            self.with_files(part)
        };
        let shown = !blank && (part.text.len() > 0 || part.marked.len() > 0);
        s.files(
            "tool_result_file"@,
            result.files@,
            result.files@.len() as int,
            conversation_id,
            facts,
        ).with_item(
            WebItemView::ToolResult {
                index,
                tool_call_id: result.tool_call_id@,
                tool_name: result.tool_name@,
                context: if shown {
                    Some(part.text)
                } else {
                    None
                },
                marked: if shown {
                    Some(part.marked)
                } else {
                    None
                },
                structured: opt_json(result.structured),
                files: Seq::new(
                    result.files@.len(),
                    |i: int| (s.attachments.len() + i) as nat,
                ),
            },
        )
    }

    /// What is shown after one more item.
    pub open spec fn item(
        self,
        index: nat,
        item: ChatMessageItem,
        conversation_id: Seq<char>,
        facts: MessageFacts,
    ) -> Self {
        match item {
            ChatMessageItem::Reasoning(x) => match shown_reasoning(x.text@, opt_view(x.summary)) {
                Some(text) => self.with_item(
                    WebItemView::Reasoning { index, text, summary: opt_view(x.summary) },
                ),
                None => self,
            },
            ChatMessageItem::Context(c) => self.context(index, c.text@, conversation_id, facts),
            ChatMessageItem::SelectionReference(s) => self.with_item(
                WebItemView::Selection { index, selection: selection_view(s) },
            ),
            ChatMessageItem::File(f) => self.files(
                "message_file"@,
                seq![f],
                1,
                conversation_id,
                facts,
            ).with_item(WebItemView::File { index, attachment_index: self.attachments.len() }),
            ChatMessageItem::ToolCall(c) => self.with_item(
                WebItemView::ToolCall {
                    index,
                    tool_call_id: c.tool_call_id@,
                    tool_name: c.tool_name@,
                    arguments: tool_arguments(c.arguments@, opt_json(c.value)),
                },
            ),
            ChatMessageItem::ToolResult(t) => self.tool_result(index, t, conversation_id, facts),
        }
    }
}

/// What is shown of the first `n` items of a message.
pub open spec fn rendered(
    data: Seq<ChatMessageItem>,
    n: int,
    conversation_id: Seq<char>,
    facts: MessageFacts,
) -> RenderView
    decreases n,
{
    if n <= 0 || n > data.len() {
        RenderView::empty()
    } else {
        rendered(data, n - 1, conversation_id, facts).item(
            (n - 1) as nat,
            data[n - 1],
            conversation_id,
            facts,
        )
    }
}

/// Whether the places of the files of an item can be read.
pub open spec fn item_is_readable(item: ChatMessageItem) -> bool {
    match item {
        ChatMessageItem::File(f) => uri_is_readable(f.uri@),
        ChatMessageItem::ToolResult(t) => forall|i: int|
            0 <= i < t.files@.len() ==> uri_is_readable((#[trigger] t.files@[i]).uri@),
        _ => true,
    }
}

pub open spec fn message_is_readable(message: ChatMessage) -> bool {
    forall|i: int| 0 <= i < message.data@.len() ==> item_is_readable(#[trigger] message.data@[i])
}

/// Whether the places of all files of a message can be read.
pub fn message_can_be_read(message: &ChatMessage) -> (b: bool)
    ensures
        b == message_is_readable(*message),
{
    let mut i: usize = 0;
    while i < message.data.len()
        invariant
            i <= message.data@.len(),
            forall|k: int| 0 <= k < i ==> item_is_readable(#[trigger] message.data@[k]),
        decreases message.data@.len() - i,
    {
        match &message.data[i] {
            ChatMessageItem::File(f) => {
                if !crate::web::attachments::uri_can_be_read(f.uri.as_str()) {
                    assert(!item_is_readable(message.data@[i as int]));
                    return false;
                }
            },
            ChatMessageItem::ToolResult(t) => {
                let mut k: usize = 0;
                while k < t.files.len()
                    invariant
                        k <= t.files@.len(),
                        i < message.data@.len(),
                        message.data@[i as int] == ChatMessageItem::ToolResult(*t),
                        forall|j: int|
                            0 <= j < k ==> uri_is_readable((#[trigger] t.files@[j]).uri@),
                    decreases t.files@.len() - k,
                {
                    if !crate::web::attachments::uri_can_be_read(t.files[k].uri.as_str()) {
                        assert(!uri_is_readable(t.files@[k as int].uri@));
                        assert(!item_is_readable(message.data@[i as int]));
                        return false;
                    }
                    k += 1;
                }
            },
            _ => {},
        }
        i += 1;
    }
    true
}

// ---------------------------------------------------------------------------
// Rendering
// ---------------------------------------------------------------------------
/// A message as it is shown.
#[derive(Debug)]
pub struct WebRenderedMessage {
    pub text: String,
    pub text_with_attachment_markers: String,
    pub items: Vec<WebMessageItem>,
    pub attachments: Vec<WebMessageAttachment>,
    pub attachment_errors: Vec<String>,
}

struct Renderer<'a> {
    conversation_id: &'a str,
    facts: &'a MessageFacts,
    parts: Vec<String>,
    marked: Vec<String>,
    items: Vec<WebMessageItem>,
    attachments: Vec<WebMessageAttachment>,
    errors: Vec<String>,
}

struct Part {
    text: String,
    marked: String,
}

impl<'a> Renderer<'a> {
    spec fn view(self) -> RenderView {
        RenderView {
            parts: views(self.parts@),
            marked: views(self.marked@),
            items: web_item_views(self.items@),
            attachments: attachment_views(self.attachments@),
            errors: views(self.errors@),
        }
    }

    spec fn same_task(self, other: Self) -> bool {
        self.conversation_id == other.conversation_id && self.facts == other.facts
    }

    fn add_item(&mut self, item: WebMessageItem)
        ensures
            final(self)@ == old(self)@.with_item(item@),
            final(self).same_task(*old(self)),
    {
        let ghost before = self.items@;
        self.items.push(item);
        assert(web_item_views(self.items@) =~= web_item_views(before).push(item@));
    }

    fn render_text(&mut self, raw: &str) -> (r: Part)
        requires
            old(self).facts.wf(),
        ensures
            ({
                let part = old(self)@.part(*old(self).facts, raw@, old(self).conversation_id@);
                final(self)@ == old(self)@.with_files(part) && r.text@ == part.text && r.marked@
                    == part.marked
            }),
            final(self).same_task(*old(self)),
    {
        let ghost before = self@;
        let ghost part = self@.part(*self.facts, raw@, self.conversation_id@);
        assert(attachment_views(self.attachments@).len() == self.attachments@.len());
        if !contains(raw, "<attachment>") {
            assert(before.attachments + part.attachments =~= before.attachments);
            return Part { text: raw.to_owned(), marked: raw.to_owned() };
        }
        let base: usize = self.attachments.len();
        let extracted: WebAttachmentExtraction = extract_attachment_references_with_markers(
            raw,
            base,
        );
        let facts: &MessageFacts = self.facts;
        let conversation_id: &str = self.conversation_id;
        if let Some(e) = find_refusal(facts, &extracted.paths) {
            let stripped: String = strip_attachment_tags(raw);
            let ghost errors = self.errors@;
            self.errors.push(e);
            proof {
                assert(views(self.errors@) =~= views(errors).push(e@));
                assert(before.attachments + part.attachments =~= before.attachments);
            }
            return Part {
                text: trim(stripped.as_str()).to_owned(),
                marked: trim(stripped.as_str()).to_owned(),
            };
        }
        let ghost paths = views(extracted.paths@);
        let n: usize = extracted.paths.len();
        let ghost start = *self;
        let mut i: usize = 0;
        while i < n
            invariant
                i <= n,
                n == extracted.paths@.len(),
                n == paths.len(),
                paths == views(extracted.paths@),
                paths == paths_of(pieces(raw@, 0)),
                facts.wf(),
                before.attachments.len() == base,
                part.attachments == shown_tags(*facts, paths, base as nat, conversation_id@),
                forall|k: int|
                    0 <= k < n ==> facts.refusal((#[trigger] extracted.paths@[k])@) is None,
                attachment_views(self.attachments@) =~= before.attachments + part.attachments.take(
                    i as int,
                ),
                self.parts == start.parts,
                self.marked == start.marked,
                self.items == start.items,
                self.errors == start.errors,
                self.same_task(start),
            decreases n - i,
        {
            let path: &String = &extracted.paths[i];
            let ghost list = self.attachments@;
            assert(paths[i as int] == path@);
            assert(facts.refusal(path@) is None);
            assert(attachment_views(list).len() == list.len());
            if let Some(Resolution::Shown(attachment, file)) = facts.resolutions.get(path.as_str()) {
                let index: usize = self.attachments.len();
                let mark: String = attachment_marker(base.saturating_add(i));
                let shown: WebMessageAttachment = web_outgoing_attachment(
                    index,
                    Some(mark),
                    attachment,
                    conversation_id,
                    file,
                );
                assert(shown@ == part.attachments[i as int]);
                self.attachments.push(shown);
                assert(attachment_views(self.attachments@) =~= attachment_views(list).push(shown@));
            }
            i += 1;
        }
        assert(part.attachments.take(n as int) =~= part.attachments);
        Part { text: extracted.clean_text, marked: extracted.marked_text }
    }

    fn render_file(&mut self, source: &'static str, file: &FileItem) -> (index: usize)
        requires
            old(self).facts.wf(),
            uri_is_readable(file.uri@),
        ensures
            index == old(self)@.attachments.len(),
            final(self)@ == (RenderView {
                attachments: old(self)@.attachments.push(
                    item_attachment(
                        index as nat,
                        source@,
                        *file,
                        local_path(file.uri@),
                        old(self).conversation_id@,
                        old(self).facts.file(file.uri@),
                    ),
                ),
                ..old(self)@
            }),
            final(self).same_task(*old(self)),
    {
        let ghost list = self.attachments@;
        let index: usize = self.attachments.len();
        let unknown: FileFacts = FileFacts {
            workspace_path: None,
            size_bytes: None,
            preview: None,
        };
        let known: &FileFacts = match self.facts.files.get(file.uri.as_str()) {
            Some(f) => f,
            None => &unknown,
        };
        let shown: WebMessageAttachment = web_file_item_attachment(
            index,
            source,
            file,
            self.conversation_id,
            known,
        );
        self.attachments.push(shown);
        assert(attachment_views(self.attachments@) =~= attachment_views(list).push(shown@));
        index
    }

    fn render_context(&mut self, index: usize, text: &str)
        requires
            old(self).facts.wf(),
        ensures
            final(self)@ == old(self)@.context(
                index as nat,
                text@,
                old(self).conversation_id@,
                *old(self).facts,
            ),
            final(self).same_task(*old(self)),
    {
        let part: Part = self.render_text(text);
        if !part.text.as_str().is_empty() || !part.marked.as_str().is_empty() {
            let ghost parts = self.parts@;
            let ghost marked = self.marked@;
            self.parts.push(part.text.clone());
            self.marked.push(part.marked.clone());
            proof {
                assert(views(self.parts@) =~= views(parts).push(part.text@));
                assert(views(self.marked@) =~= views(marked).push(part.marked@));
            }
            self.add_item(
                WebMessageItem::Text {
                    index,
                    text: part.text,
                    text_with_attachment_markers: part.marked,
                },
            );
        }
    }

    fn render_tool_result(&mut self, index: usize, result: &ToolResultItem)
        requires
            old(self).facts.wf(),
            item_is_readable(ChatMessageItem::ToolResult(*result)),
        ensures
            final(self)@ == old(self)@.tool_result(
                index as nat,
                *result,
                old(self).conversation_id@,
                *old(self).facts,
            ),
            final(self).same_task(*old(self)),
    {
        let ghost first = *self;
        let mut context: Option<String> = None;
        let mut marked: Option<String> = None;
        if !is_blank(result.text.as_str()) {
            let part: Part = self.render_text(result.text.as_str());
            if !part.text.as_str().is_empty() || !part.marked.as_str().is_empty() {
                context = Some(part.text);
                marked = Some(part.marked);
            }
        }
        let ghost s = self@;
        let n: usize = result.files.len();
        let mut indices: Vec<usize> = Vec::new();
        let mut i: usize = 0;
        assert(s.files(
            "tool_result_file"@,
            result.files@,
            0,
            first.conversation_id@,
            *first.facts,
        ).attachments =~= s.attachments);
        while i < n
            invariant
                i <= n,
                n == result.files@.len(),
                self.facts.wf(),
                self.same_task(first),
                item_is_readable(ChatMessageItem::ToolResult(*result)),
                self@ == s.files(
                    "tool_result_file"@,
                    result.files@,
                    i as int,
                    first.conversation_id@,
                    *first.facts,
                ),
                indices@.len() == i,
                forall|k: int|
                    0 <= k < i ==> (#[trigger] indices@[k]) as int == s.attachments.len() + k,
            decreases n - i,
        {
            let ghost before = self@;
            assert(uri_is_readable(result.files@[i as int].uri@));
            let at: usize = self.render_file("tool_result_file", &result.files[i]);
            proof {
                assert(self@.attachments =~= s.files(
                    "tool_result_file"@,
                    result.files@,
                    i + 1,
                    first.conversation_id@,
                    *first.facts,
                ).attachments);
            }
            indices.push(at);
            i += 1;
        }
        assert(index_views(indices@) =~= Seq::new(
            result.files@.len(),
            |i: int| (s.attachments.len() + i) as nat,
        ));
        self.add_item(
            WebMessageItem::ToolResult {
                index,
                tool_call_id: result.tool_call_id.clone(),
                tool_name: result.tool_name.clone(),
                context,
                context_with_attachment_markers: marked,
                structured: copy_opt_json(&result.structured),
                file_attachment_indices: indices,
            },
        );
    }

    fn render_item(&mut self, index: usize, item: &ChatMessageItem)
        requires
            old(self).facts.wf(),
            item_is_readable(*item),
        ensures
            final(self)@ == old(self)@.item(
                index as nat,
                *item,
                old(self).conversation_id@,
                *old(self).facts,
            ),
            final(self).same_task(*old(self)),
    {
        match item {
            ChatMessageItem::Reasoning(x) => {
                if let Some(text) = reasoning_web_text(x) {
                    self.add_item(
                        WebMessageItem::Reasoning { index, text, summary: opt_copy(&x.summary) },
                    );
                }
            },
            ChatMessageItem::Context(c) => {
                self.render_context(index, c.text.as_str());
            },
            ChatMessageItem::SelectionReference(s) => {
                self.add_item(
                    WebMessageItem::SelectionReference { index, selection: copy_selection(s) },
                );
            },
            ChatMessageItem::File(f) => {
                let ghost first = *self;
                let attachment_index: usize = self.render_file("message_file", f);
                assert(self@.attachments =~= first@.files(
                    "message_file"@,
                    seq![*f],
                    1,
                    first.conversation_id@,
                    *first.facts,
                ).attachments);
                self.add_item(WebMessageItem::File { index, attachment_index });
            },
            ChatMessageItem::ToolCall(c) => {
                self.add_item(
                    WebMessageItem::ToolCall {
                        index,
                        tool_call_id: c.tool_call_id.clone(),
                        tool_name: c.tool_name.clone(),
                        arguments: parse_tool_arguments(c.arguments.as_str(), &c.value),
                    },
                );
            },
            ChatMessageItem::ToolResult(t) => {
                self.render_tool_result(index, t);
            },
        }
    }
}

/// What is shown of a whole message.
pub open spec fn rendered_message(
    message: ChatMessage,
    conversation_id: Seq<char>,
    facts: MessageFacts,
) -> RenderView {
    rendered(message.data@, message.data@.len() as int, conversation_id, facts)
}

impl WebRenderedMessage {
    pub open spec fn shows(self, v: RenderView) -> bool {
        &&& self.text@ == join_seq(v.parts, "\n\n"@)
        &&& self.text_with_attachment_markers@ == join_seq(v.marked, "\n\n"@)
        &&& web_item_views(self.items@) == v.items
        &&& attachment_views(self.attachments@) == v.attachments
        &&& views(self.attachment_errors@) == v.errors
    }
}

/// Shows a message, given what is known of its files.
pub fn render_web_message(message: &ChatMessage, conversation_id: &str, facts: &MessageFacts) -> (r:
    WebRenderedMessage)
    requires
        facts.wf(),
        message_is_readable(*message),
    ensures
        r.shows(rendered_message(*message, conversation_id@, *facts)),
{
    let mut renderer: Renderer = Renderer {
        conversation_id,
        facts,
        parts: Vec::new(),
        marked: Vec::new(),
        items: Vec::new(),
        attachments: Vec::new(),
        errors: Vec::new(),
    };
    proof {
        assert(renderer@.parts =~= Seq::empty());
        assert(renderer@.marked =~= Seq::empty());
        assert(renderer@.items =~= Seq::empty());
        assert(renderer@.attachments =~= Seq::empty());
        assert(renderer@.errors =~= Seq::empty());
    }
    let mut i: usize = 0;
    while i < message.data.len()
        invariant
            i <= message.data@.len(),
            facts.wf(),
            message_is_readable(*message),
            renderer.facts == facts,
            renderer.conversation_id == conversation_id,
            renderer@ == rendered(message.data@, i as int, conversation_id@, *facts),
        decreases message.data@.len() - i,
    {
        assert(item_is_readable(message.data@[i as int]));
        renderer.render_item(i, &message.data[i]);
        i += 1;
    }
    WebRenderedMessage {
        text: join(renderer.parts.as_slice(), "\n\n"),
        text_with_attachment_markers: join(renderer.marked.as_slice(), "\n\n"),
        items: renderer.items,
        attachments: renderer.attachments,
        attachment_errors: renderer.errors,
    }
}

// ---------------------------------------------------------------------------
// Laws
// ---------------------------------------------------------------------------
/// Every file knows its place in the list, and every item names files of the list.
pub open spec fn is_consistent(v: RenderView) -> bool {
    &&& forall|i: int| 0 <= i < v.attachments.len() ==> (#[trigger] v.attachments[i]).index == i
    &&& forall|i: int|
        0 <= i < v.items.len() ==> names_files(#[trigger] v.items[i], v.attachments.len())
}

/// Whether the files that an item names are among the first `n`.
pub open spec fn names_files(item: WebItemView, n: nat) -> bool {
    match item {
        WebItemView::File { attachment_index, .. } => attachment_index < n,
        WebItemView::ToolResult { files, .. } => forall|k: int|
            0 <= k < files.len() ==> (#[trigger] files[k]) < n,
        _ => true,
    }
}

proof fn lemma_item_keeps_consistency(
    v: RenderView,
    index: nat,
    item: ChatMessageItem,
    conversation_id: Seq<char>,
    facts: MessageFacts,
)
    requires
        is_consistent(v),
    ensures
        is_consistent(v.item(index, item, conversation_id, facts)),
{
    let w = v.item(index, item, conversation_id, facts);
    assert(v.attachments.len() <= w.attachments.len());
    assert forall|i: int| 0 <= i < w.attachments.len() implies (#[trigger] w.attachments[i]).index
        == i by {
        if i < v.attachments.len() {
            assert(w.attachments[i] == v.attachments[i]);
        }
    }
    assert forall|i: int| 0 <= i < w.items.len() implies names_files(
        #[trigger] w.items[i],
        w.attachments.len(),
    ) by {
        if i < v.items.len() {
            assert(w.items[i] == v.items[i]);
            assert(names_files(v.items[i], v.attachments.len()));
        }
    }
}

/// In a message as it is shown, every file stands at its own index and every index that
/// an item names is that of a file.
pub proof fn shown_files_are_numbered(
    data: Seq<ChatMessageItem>,
    n: int,
    conversation_id: Seq<char>,
    facts: MessageFacts,
)
    requires
        0 <= n <= data.len(),
    ensures
        is_consistent(rendered(data, n, conversation_id, facts)),
    decreases n,
{
    if n > 0 {
        shown_files_are_numbered(data, n - 1, conversation_id, facts);
        lemma_item_keeps_consistency(
            rendered(data, n - 1, conversation_id, facts),
            (n - 1) as nat,
            data[n - 1],
            conversation_id,
            facts,
        );
    }
}

} // verus!

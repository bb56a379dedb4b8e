//! Laws of messages as they are shown: every item is shown as what it is, under its own
//! number, and files are shown where they lie.

use vstd::prelude::*;
use crate::channels::{OutgoingAttachment, OutgoingAttachmentKind};
use crate::chat::{ChatMessageItem, FileItem};
use crate::json::JsonView;
use crate::json_ops::opt_json;
use crate::number::decimal;
use crate::text::{is_space, mark, opt_view, trimmed, trimming_drops_the_space_around};
use crate::web::url::percent_encoded;
use crate::words::find_seq;
use super::attachments::{
    clean_text, item_attachment, item_kind, kind_of_extension, local_path, marked_text, paths_of,
    pieces, stripped_text, tag_attachment, thumbnail_view, FileFacts,
};
use super::messages::{
    first_refusal, rendered, shown_reasoning, text_part, MessageFacts, PartView, RenderView,
    WebItemView,
};

verus! {

/// Texts without tags are shown as they are, each as an item under its own number.
pub proof fn plain_texts_are_shown(
    data: Seq<ChatMessageItem>,
    texts: Seq<Seq<char>>,
    n: int,
    conversation_id: Seq<char>,
    facts: MessageFacts,
)
    requires
        data.len() == texts.len(),
        0 <= n <= data.len(),
        forall|i: int|
            0 <= i < data.len() ==> ((#[trigger] data[i]) matches ChatMessageItem::Context(c) && c.text@
                == texts[i] && texts[i].len() > 0 && find_seq(texts[i], "<attachment>"@) is None),
    ensures
        ({
            let v = rendered(data, n, conversation_id, facts);
            &&& v.parts == texts.take(n)
            &&& v.marked == texts.take(n)
            &&& v.items == Seq::new(
                n as nat,
                |i: int| WebItemView::Text { index: i as nat, text: texts[i], marked: texts[i] },
            )
            &&& v.attachments.len() == 0
            &&& v.errors.len() == 0
        }),
    decreases n,
{
    let v = rendered(data, n, conversation_id, facts);
    let f = |i: int| WebItemView::Text { index: i as nat, text: texts[i], marked: texts[i] };
    if n > 0 {
        plain_texts_are_shown(data, texts, n - 1, conversation_id, facts);
        let before = rendered(data, n - 1, conversation_id, facts);
        assert(data[n - 1] is Context);
        assert(texts.take(n) =~= texts.take(n - 1).push(texts[n - 1]));
        assert(Seq::new(n as nat, f) =~= Seq::new((n - 1) as nat, f).push(f(n - 1)));
        let part = before.part(facts, texts[n - 1], conversation_id);
        assert(before.attachments + part.attachments =~= Seq::empty());
        assert(v.attachments =~= Seq::empty());
    } else {
        assert(texts.take(0) =~= Seq::empty());
        assert(Seq::new(0, f) =~= Seq::empty());
    }
}

/// A call of a tool is shown with its id, its name and its arguments: as a value where they
/// are one, else as text.
pub proof fn call_is_shown(
    v: RenderView,
    index: nat,
    item: ChatMessageItem,
    conversation_id: Seq<char>,
    facts: MessageFacts,
)
    requires
        item is ToolCall,
    ensures
        item matches ChatMessageItem::ToolCall(c) && v.item(index, item, conversation_id, facts)
            == (RenderView {
            items: v.items.push(
                WebItemView::ToolCall {
                    index,
                    tool_call_id: c.tool_call_id@,
                    tool_name: c.tool_name@,
                    arguments: match opt_json(c.value) {
                        Some(value) => value,
                        None => JsonView::Text(c.arguments@),
                    },
                },
            ),
            ..v
        }),
{
}

/// Of a thought its summary is shown, and only where it has none the thought itself. What
/// is blank is not shown.
pub proof fn thought_shows_its_summary(
    text: Seq<char>,
    summary: Seq<char>,
    a: Seq<char>,
    b: Seq<char>,
)
    requires
        forall|i: int| 0 <= i < a.len() ==> is_space(#[trigger] a[i]),
        forall|i: int| 0 <= i < b.len() ==> is_space(#[trigger] b[i]),
        text.len() > 0 && !is_space(text[0]) && !is_space(text.last()),
        summary.len() > 0 && !is_space(summary[0]) && !is_space(summary.last()),
    ensures
        shown_reasoning(text, Some(a + summary + b)) == Some(summary),
        shown_reasoning(a + text + b, None) == Some(text),
        shown_reasoning(text, Some(a + b)) is None,
        shown_reasoning(a + b, None) is None,
{
    trimming_drops_the_space_around(a, summary, b);
    trimming_drops_the_space_around(a, text, b);
    trimming_drops_the_space_around(a, Seq::empty(), b);
    assert(a + Seq::<char>::empty() + b =~= a + b);
}

/// A file of a message is shown as an item that names it by its number, behind the files
/// before it. The file keeps its address, its name and its media type.
pub proof fn file_is_shown(
    v: RenderView,
    index: nat,
    item: ChatMessageItem,
    conversation_id: Seq<char>,
    facts: MessageFacts,
)
    requires
        item is File,
    ensures
        ({
            let r = v.item(index, item, conversation_id, facts);
            let file = item->File_0;
            let n = v.attachments.len();
            &&& r.items == v.items.push(WebItemView::File { index, attachment_index: n })
            &&& r.attachments.len() == n + 1
            &&& r.attachments.take(n as int) == v.attachments
            &&& r.attachments[n as int].index == n
            &&& r.attachments[n as int].source == "message_file"@
            &&& r.attachments[n as int].uri == file.uri@
            &&& r.attachments[n as int].media_type == opt_view(file.media_type)
            &&& file.name is Some ==> r.attachments[n as int].name == file.name->0@
            &&& r.parts == v.parts && r.marked == v.marked && r.errors == v.errors
        }),
{
    let r = v.item(index, item, conversation_id, facts);
    assert(r.attachments.take(v.attachments.len() as int) =~= v.attachments);
}

/// The result of a tool is shown under its id and its name with its structured value, and
/// names its own files, which stand behind those of its text.
pub proof fn result_is_shown(
    v: RenderView,
    index: nat,
    item: ChatMessageItem,
    conversation_id: Seq<char>,
    facts: MessageFacts,
)
    requires
        item matches ChatMessageItem::ToolResult(t) && t.text@.len() > 0 && !is_space(t.text@[0])
            && !is_space(t.text@.last()) && find_seq(t.text@, "<attachment>"@) is None,
    ensures
        ({
            let r = v.item(index, item, conversation_id, facts);
            let t = item->ToolResult_0;
            let n = v.attachments.len();
            &&& r.items == v.items.push(
                WebItemView::ToolResult {
                    index,
                    tool_call_id: t.tool_call_id@,
                    tool_name: t.tool_name@,
                    context: Some(t.text@),
                    marked: Some(t.text@),
                    structured: opt_json(t.structured),
                    files: Seq::new(t.files@.len(), |i: int| (n + i) as nat),
                },
            )
            &&& r.attachments.len() == n + t.files@.len()
            &&& forall|i: int| 0 <= i < n ==> #[trigger] r.attachments[i] == v.attachments[i]
            &&& forall|i: int|
                0 <= i < t.files@.len() ==> (#[trigger] r.attachments[n + i]).uri
                    == t.files@[i].uri@ && r.attachments[n + i].source == "tool_result_file"@
                    && r.attachments[n + i].index == n + i
            &&& r.parts == v.parts
        }),
{
    let t = item->ToolResult_0;
    let e = Seq::<char>::empty();
    trimming_drops_the_space_around(e, t.text@, e);
    assert(e + t.text@ + e =~= t.text@);
    let part = v.part(facts, t.text@, conversation_id);
    assert(v.attachments + part.attachments =~= v.attachments);
}

/// A file is shown with its own size where it states one, else with that of its preview; its
/// address leads to where it lies in the workspace.
pub proof fn shown_file_keeps_what_it_states(
    index: nat,
    source: Seq<char>,
    file: FileItem,
    conversation_id: Seq<char>,
    facts: FileFacts,
)
    ensures
        ({
            let a = item_attachment(
                index,
                source,
                file,
                local_path(file.uri@),
                conversation_id,
                facts,
            );
            &&& a.index == index && a.source == source && a.uri == file.uri@
            &&& file.width is Some ==> a.width == file.width
            &&& file.height is Some ==> a.height == file.height
            &&& a.size_bytes == facts.size_bytes
            &&& a.marker is None
            &&& a.kind != "image"@ ==> a.thumbnail is None
            &&& a.kind == "image"@ && facts.preview is Some ==> a.thumbnail == Some(
                thumbnail_view(facts.preview->0.thumbnail),
            )
            &&& a.kind == "image"@ && facts.preview is Some && file.width is None ==> a.width
                == Some(facts.preview->0.original_width)
            &&& a.kind == "image"@ && facts.preview is Some && file.height is None ==> a.height
                == Some(facts.preview->0.original_height)
            &&& facts.workspace_path is Some ==> a.path == facts.workspace_path->0@ && a.url
                == "/api/conversations/"@ + percent_encoded(conversation_id)
                + "/workspace/file?path="@ + percent_encoded(facts.workspace_path->0@)
            &&& facts.workspace_path is None ==> a.path == file.uri@ && a.url == ""@
        }),
{
}

/// The file of a tag is shown under its number and its marker, with its own address.
pub proof fn shown_tag_keeps_its_file(
    index: nat,
    marker: Option<Seq<char>>,
    attachment: OutgoingAttachment,
    conversation_id: Seq<char>,
    facts: FileFacts,
)
    ensures
        ({
            let a = tag_attachment(index, marker, attachment, conversation_id, facts);
            &&& a.index == index && a.marker == marker && a.source == "attachment_tag"@
            &&& a.uri == "file://"@ + attachment.path@
            &&& a.size_bytes == facts.size_bytes
            &&& attachment.kind is Image && facts.preview is Some ==> a.kind == "image"@
                && a.thumbnail == Some(thumbnail_view(facts.preview->0.thumbnail)) && a.width
                == Some(facts.preview->0.original_width) && a.height == Some(
                facts.preview->0.original_height,
            )
            &&& facts.workspace_path is Some ==> a.path == facts.workspace_path->0@ && a.url
                == "/api/conversations/"@ + percent_encoded(conversation_id)
                + "/workspace/file?path="@ + percent_encoded(facts.workspace_path->0@)
            &&& facts.workspace_path is None ==> a.path == attachment.path@
        }),
{
    reveal_strlit("image");
}

proof fn lemma_extensions()
    ensures
        mark("png"@) == 116194307,
        mark("jpg"@) == 118291075,
        mark("jpeg"@) == 106756740,
        mark("webp"@) == 103685572,
        mark("gif"@) == 110942659,
        mark("mp3"@) == 117865283,
        mark("wav"@) == 102686147,
        mark("ogg"@) == 108854211,
        mark("mp4"@) == 117873475,
        mark("mov"@) == 117365571,
        mark("mkv"@) == 113171267,
        mark("pdf"@) == 105700355,
{
    reveal_strlit("png");
    reveal_strlit("jpg");
    reveal_strlit("jpeg");
    reveal_strlit("webp");
    reveal_strlit("gif");
    reveal_strlit("mp3");
    reveal_strlit("wav");
    reveal_strlit("ogg");
    reveal_strlit("mp4");
    reveal_strlit("mov");
    reveal_strlit("mkv");
    reveal_strlit("pdf");
}

/// The kind of a file is that of its media type, whatever the type is of that kind; a file
/// without one is of the kind that its extension tells.
pub proof fn kind_is_that_of_the_media_type(rest: Seq<char>, local: Option<Seq<char>>)
    ensures
        item_kind(Some("image/"@ + rest), local) == "image"@,
        item_kind(Some("audio/"@ + rest), local) == "audio"@,
        item_kind(Some("video/"@ + rest), local) == "video"@,
        item_kind(None, None) == "document"@,
        kind_of_extension("png"@) == OutgoingAttachmentKind::Image,
        kind_of_extension("jpg"@) == OutgoingAttachmentKind::Image,
        kind_of_extension("jpeg"@) == OutgoingAttachmentKind::Image,
        kind_of_extension("webp"@) == OutgoingAttachmentKind::Image,
        kind_of_extension("gif"@) == OutgoingAttachmentKind::Animation,
        kind_of_extension("mp3"@) == OutgoingAttachmentKind::Audio,
        kind_of_extension("wav"@) == OutgoingAttachmentKind::Audio,
        kind_of_extension("ogg"@) == OutgoingAttachmentKind::Voice,
        kind_of_extension("mp4"@) == OutgoingAttachmentKind::Video,
        kind_of_extension("mov"@) == OutgoingAttachmentKind::Video,
        kind_of_extension("mkv"@) == OutgoingAttachmentKind::Video,
        kind_of_extension("pdf"@) == OutgoingAttachmentKind::Document,
{
    reveal_strlit("image/");
    reveal_strlit("audio/");
    reveal_strlit("video/");
    reveal_strlit("");
    lemma_extensions();
    let (i, a, v) = ("image/"@ + rest, "audio/"@ + rest, "video/"@ + rest);
    assert(i.subrange(0, 6) =~= "image/"@);
    assert(a.subrange(0, 6) =~= "audio/"@);
    assert(v.subrange(0, 6) =~= "video/"@);
    assert(a[0] != 'i' && v[0] != 'i' && v[0] != 'a');
    assert(a.subrange(0, 6)[0] != "image/"@[0]);
    assert(v.subrange(0, 6)[0] != "image/"@[0]);
    assert(v.subrange(0, 6)[0] != "audio/"@[0]);
}

/// Where all files of a text can be shown they are, under numbers that go on from those before
/// them; where one cannot, none is shown, its path stands in the text, and the first refusal
/// is told.
pub proof fn files_of_a_text_are_shown_together(
    facts: MessageFacts,
    raw: Seq<char>,
    count: nat,
    conversation_id: Seq<char>,
    k: int,
)
    requires
        find_seq(raw, "<attachment>"@) is Some,
        count + paths_of(pieces(raw, 0)).len() <= usize::MAX,
    ensures
        ({
            let part = text_part(facts, raw, count, conversation_id);
            let paths = paths_of(pieces(raw, 0));
            &&& (forall|i: int|
                0 <= i < paths.len() ==> facts.refusal(#[trigger] paths[i]) is None) ==> {
                &&& part.error is None
                &&& part.attachments.len() == paths.len()
                &&& part.text == trimmed(clean_text(pieces(raw, 0)))
                &&& part.marked == trimmed(marked_text(pieces(raw, 0), count))
                &&& 0 <= k < paths.len() ==> part.attachments[k].index == count + k
                    && part.attachments[k].marker == Some(
                    "[[attachment:"@ + decimal((count + k) as nat) + "]]"@,
                )
            }
            &&& 0 <= k < paths.len() && facts.refusal(paths[k]) is Some && (forall|i: int|
                0 <= i < k ==> facts.refusal(#[trigger] paths[i]) is None) ==> {
                &&& part.error == facts.refusal(paths[k])
                &&& part.attachments.len() == 0
                &&& part.text == trimmed(stripped_text(pieces(raw, 0)))
            }
        }),
{
    let paths = paths_of(pieces(raw, 0));
    if forall|i: int| 0 <= i < paths.len() ==> facts.refusal(#[trigger] paths[i]) is None {
        lemma_refusal(facts, paths, 0, paths.len() as int);
    }
    if 0 <= k < paths.len() && facts.refusal(paths[k]) is Some && (forall|i: int|
        0 <= i < k ==> facts.refusal(#[trigger] paths[i]) is None) {
        lemma_refusal(facts, paths, 0, k);
    }
}

proof fn lemma_refusal(facts: MessageFacts, paths: Seq<Seq<char>>, from: int, k: int)
    requires
        0 <= from <= k <= paths.len(),
        forall|i: int| from <= i < k ==> facts.refusal(#[trigger] paths[i]) is None,
        k < paths.len() ==> facts.refusal(paths[k]) is Some,
    ensures
        first_refusal(facts, paths, from) == (if k < paths.len() {
            facts.refusal(paths[k])
        } else {
            None
        }),
    decreases k - from,
{
    if from < k {
        assert(facts.refusal(paths[from]) is None);
        lemma_refusal(facts, paths, from + 1, k);
    }
}

/// The files of each part are shown behind those before it, and what cannot be shown is
/// noted, each in order.
pub proof fn files_and_errors_come_in_order(v: RenderView, part: PartView, e: Seq<char>)
    ensures
        v.with_files(part).attachments == v.attachments + part.attachments,
        part.error is None ==> v.with_files(part).errors == v.errors,
        part.error == Some(e) ==> v.with_files(part).errors == v.errors.push(e),
        v.with_files(part).items == v.items,
        v.with_files(part).parts == v.parts,
{
}

} // verus!

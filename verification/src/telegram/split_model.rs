//! How a document that is too long for one message is cut into documents that fit.

use vstd::prelude::*;
use vstd::utf8::encode_utf8;
use crate::text::{is_space, lemma_position, trim_start_seq, trimmed};
use super::markdown::markdown_events_of;
use super::parse_model::{document_blocks, inline_block, PendingBlockKind};
use super::render_model::rendered_length;
use super::rich::{BlockView, InlineView};

verus! {

/// An inline element around other inlines.
pub enum WrapperView {
    Emphasis,
    Strong,
    Strikethrough,
    Link(Seq<char>),
}

pub open spec fn wrapped(w: WrapperView, children: Seq<InlineView>) -> InlineView {
    match w {
        WrapperView::Emphasis => InlineView::Emphasis(children),
        WrapperView::Strong => InlineView::Strong(children),
        WrapperView::Strikethrough => InlineView::Strikethrough(children),
        WrapperView::Link(url) => InlineView::Link { url, content: children },
    }
}

/// What a piece of text stands in when its length is measured.
pub enum MeasureView {
    /// An inline of its own: text or code.
    Inline { kind: PendingBlockKind, code: bool },
    /// An inline inside an element.
    Wrapped { kind: PendingBlockKind, wrapper: WrapperView, code: bool },
    /// A code block.
    CodeBlock { language: Option<Seq<char>> },
    /// A markdown document.
    Markdown,
}

pub open spec fn leaf(code: bool, t: Seq<char>) -> InlineView {
    if code {
        InlineView::Code(t)
    } else {
        InlineView::Text(t)
    }
}

pub open spec fn block_length(x: BlockView) -> nat {
    rendered_length(seq![x])
}

pub open spec fn inline_length(kind: PendingBlockKind, inlines: Seq<InlineView>) -> nat {
    block_length(inline_block(kind, inlines))
}

/// The length of a text where it stands.
pub open spec fn measured(m: MeasureView, t: Seq<char>) -> nat {
    match m {
        MeasureView::Inline { kind, code } => inline_length(kind, seq![leaf(code, t)]),
        MeasureView::Wrapped { kind, wrapper, code } => inline_length(
            kind,
            seq![wrapped(wrapper, seq![leaf(code, t)])],
        ),
        MeasureView::CodeBlock { language } => block_length(
            BlockView::CodeBlock { language, code: t },
        ),
        MeasureView::Markdown => rendered_length(document_blocks(markdown_events_of(t))),
    }
}

// ---------------------------------------------------------------------------
// Cutting text
// ---------------------------------------------------------------------------
/// Halves the range `low..=high` of prefix lengths until one is left: the longest
/// prefix that was found to fit, or `best` when none was.
pub open spec fn search(
    m: MeasureView,
    max: nat,
    rest: Seq<char>,
    low: int,
    high: int,
    best: int,
) -> int
    decreases high + 1 - low,
{
    if low > high {
        best
    } else {
        let mid = low + (high - low) / 2;
        if measured(m, rest.take(mid)) <= max {
            search(m, max, rest, mid + 1, high, mid)
        } else {
            search(m, max, rest, low, mid - 1, best)
        }
    }
}

/// The end of the last occurrence of `needle`.
pub open spec fn last_end(s: Seq<char>, needle: Seq<char>) -> Option<int>
    decreases s.len(),
{
    if needle.is_suffix_of(s) {
        Some(s.len() as int)
    } else if s.len() == 0 {
        None
    } else {
        last_end(s.drop_last(), needle)
    }
}

/// Whether a cut at `k` is at or behind `min`, counted in bytes.
pub open spec fn far_enough(s: Seq<char>, k: int, min: int) -> bool {
    encode_utf8(s.take(k)).len() >= min
}

/// The cut behind the last occurrence of `needle`, if it is far enough and fits.
pub open spec fn cut_at(
    s: Seq<char>,
    needle: Seq<char>,
    min: int,
    fit: Option<(MeasureView, nat)>,
) -> Option<int> {
    match last_end(s, needle) {
        Some(k) => if far_enough(s, k, min) && (fit matches Some(f) ==> measured(f.0, s.take(k))
            <= f.1) {
            Some(k)
        } else {
            None
        },
        None => None,
    }
}

/// The preferred cut: behind an empty line, else a line, else a space.
pub open spec fn preferred_cut(
    s: Seq<char>,
    min: int,
    fit: Option<(MeasureView, nat)>,
) -> Option<int> {
    match cut_at(s, "\n\n"@, min, fit) {
        Some(k) => Some(k),
        None => match cut_at(s, "\n"@, min, fit) {
            Some(k) => Some(k),
            None => cut_at(s, " "@, min, fit),
        },
    }
}

/// The end of the first piece: what the search found, or the preferred cut before it.
pub open spec fn piece_end(
    rest: Seq<char>,
    best: int,
    fit: Option<(MeasureView, nat)>,
) -> int {
    if best < rest.len() {
        match preferred_cut(rest.take(best), best / 2, fit) {
            Some(k) => k,
            None => best,
        }
    } else {
        best
    }
}

/// The pieces of a text, each of which fits; none when a single character does not.
pub open spec fn pieces(m: MeasureView, max: nat, rest: Seq<char>) -> Option<Seq<Seq<char>>>
    decreases rest.len(),
{
    if rest.len() == 0 {
        Some(Seq::empty())
    } else {
        let best = search(m, max, rest, 1, rest.len() as int, 0);
        let end = piece_end(rest, best, Some((m, max)));
        if 0 < end <= rest.len() && best > 0 {
            match pieces(m, max, rest.skip(end)) {
                Some(tail) => Some(seq![rest.take(end)] + tail),
                None => None,
            }
        } else {
            None
        }
    }
}

/// The pieces of a markdown text that is cut without regard to its structure: white
/// space around a piece is dropped.
pub open spec fn plain_pieces(max: nat, rest: Seq<char>) -> Seq<Seq<char>>
    decreases rest.len(),
{
    if rest.len() == 0 {
        Seq::empty()
    } else {
        let best = search(MeasureView::Markdown, max, rest, 1, rest.len() as int, 1);
        let end = piece_end(rest, best, None);
        if 0 < end <= rest.len() {
            proof {
                lemma_position(rest.skip(end), |x: char| !is_space(x));
            }
            let piece = trimmed(rest.take(end));
            let tail = plain_pieces(max, trim_start_seq(rest.skip(end)));
            if piece.len() > 0 {
                seq![piece] + tail
            } else {
                tail
            }
        } else {
            Seq::empty()
        }
    }
}

// ---------------------------------------------------------------------------
// Cutting inlines
// ---------------------------------------------------------------------------
pub open spec fn leaves(code: bool, texts: Seq<Seq<char>>) -> Seq<InlineView> {
    texts.map_values(|t: Seq<char>| leaf(code, t))
}

pub open spec fn split_leaf(kind: PendingBlockKind, code: bool, t: Seq<char>, max: nat) -> Option<
    Seq<InlineView>,
> {
    match pieces(MeasureView::Inline { kind, code }, max, t) {
        Some(texts) => if texts.len() == 0 {
            None
        } else {
            Some(leaves(code, texts))
        },
        None => None,
    }
}

/// Fills elements of the same kind with the parts, as many in each as fit.
pub open spec fn pack_wrapped(
    kind: PendingBlockKind,
    w: WrapperView,
    parts: Seq<InlineView>,
    current: Seq<InlineView>,
    max: nat,
) -> Option<Seq<InlineView>>
    decreases parts.len(),
{
    let closed = if current.len() == 0 {
        Seq::empty()
    } else {
        seq![wrapped(w, current)]
    };
    if parts.len() == 0 {
        Some(closed)
    } else if inline_length(kind, seq![wrapped(w, current.push(parts[0]))]) <= max {
        pack_wrapped(kind, w, parts.drop_first(), current.push(parts[0]), max)
    } else if inline_length(kind, seq![wrapped(w, seq![parts[0]])]) > max {
        None
    } else {
        match pack_wrapped(kind, w, parts.drop_first(), seq![parts[0]], max) {
            Some(tail) => Some(closed + tail),
            None => None,
        }
    }
}

/// The parts that a child of an element is cut into.
pub open spec fn split_child(
    kind: PendingBlockKind,
    child: InlineView,
    max: nat,
    w: WrapperView,
) -> Option<Seq<InlineView>>
    decreases child, 0int,
{
    if inline_length(kind, seq![wrapped(w, seq![child])]) <= max {
        Some(seq![child])
    } else {
        match child {
            InlineView::Text(t) => match pieces(
                MeasureView::Wrapped { kind, wrapper: w, code: false },
                max,
                t,
            ) {
                Some(texts) => Some(leaves(false, texts)),
                None => None,
            },
            InlineView::Code(t) => match pieces(
                MeasureView::Wrapped { kind, wrapper: w, code: true },
                max,
                t,
            ) {
                Some(texts) => Some(leaves(true, texts)),
                None => None,
            },
            InlineView::LineBreak => Some(seq![child]),
            InlineView::Emphasis(c) => split_wrapped(kind, c, max, WrapperView::Emphasis),
            InlineView::Strong(c) => split_wrapped(kind, c, max, WrapperView::Strong),
            InlineView::Strikethrough(c) => split_wrapped(
                kind,
                c,
                max,
                WrapperView::Strikethrough,
            ),
            InlineView::Link { url, content } => split_wrapped(
                kind,
                content,
                max,
                WrapperView::Link(url),
            ),
        }
    }
}

pub open spec fn split_children(
    kind: PendingBlockKind,
    children: Seq<InlineView>,
    max: nat,
    w: WrapperView,
) -> Option<Seq<InlineView>>
    decreases children, 0int,
{
    if children.len() == 0 {
        Some(Seq::empty())
    } else {
        match (
            split_child(kind, children[0], max, w),
            split_children(kind, children.drop_first(), max, w),
        ) {
            (Some(a), Some(b)) => Some(a + b),
            _ => None,
        }
    }
}

/// An element cut into elements of the same kind.
pub open spec fn split_wrapped(
    kind: PendingBlockKind,
    children: Seq<InlineView>,
    max: nat,
    w: WrapperView,
) -> Option<Seq<InlineView>>
    decreases children, 1int,
{
    match split_children(kind, children, max, w) {
        Some(parts) => pack_wrapped(kind, w, parts, Seq::empty(), max),
        None => None,
    }
}

/// The parts that an inline of a paragraph or heading is cut into.
pub open spec fn split_inline(kind: PendingBlockKind, x: InlineView, max: nat) -> Option<
    Seq<InlineView>,
> {
    if inline_length(kind, seq![x]) <= max {
        Some(seq![x])
    } else {
        match x {
            InlineView::Text(t) => split_leaf(kind, false, t, max),
            InlineView::Code(t) => split_leaf(kind, true, t, max),
            InlineView::LineBreak => Some(seq![x]),
            InlineView::Emphasis(c) => split_wrapped(kind, c, max, WrapperView::Emphasis),
            InlineView::Strong(c) => split_wrapped(kind, c, max, WrapperView::Strong),
            InlineView::Strikethrough(c) => split_wrapped(
                kind,
                c,
                max,
                WrapperView::Strikethrough,
            ),
            InlineView::Link { url, content } => split_wrapped(
                kind,
                content,
                max,
                WrapperView::Link(url),
            ),
        }
    }
}

pub open spec fn split_inlines(kind: PendingBlockKind, s: Seq<InlineView>, max: nat) -> Option<
    Seq<InlineView>,
>
    decreases s.len(),
{
    if s.len() == 0 {
        Some(Seq::empty())
    } else {
        match (split_inline(kind, s[0], max), split_inlines(kind, s.drop_first(), max)) {
            (Some(a), Some(b)) => Some(a + b),
            _ => None,
        }
    }
}

// ---------------------------------------------------------------------------
// Cutting blocks
// ---------------------------------------------------------------------------
/// Fills paragraphs or headings with the parts, as many in each as fit.
pub open spec fn pack_inlines(
    kind: PendingBlockKind,
    parts: Seq<InlineView>,
    current: Seq<InlineView>,
    max: nat,
) -> Option<Seq<Seq<BlockView>>>
    decreases parts.len(),
{
    let closed = if current.len() == 0 {
        Seq::empty()
    } else {
        seq![seq![inline_block(kind, current)]]
    };
    if parts.len() == 0 {
        Some(closed)
    } else if inline_length(kind, current.push(parts[0])) <= max {
        pack_inlines(kind, parts.drop_first(), current.push(parts[0]), max)
    } else if inline_length(kind, seq![parts[0]]) > max {
        None
    } else {
        match pack_inlines(kind, parts.drop_first(), seq![parts[0]], max) {
            Some(tail) => Some(closed + tail),
            None => None,
        }
    }
}

pub open spec fn split_inline_block(kind: PendingBlockKind, s: Seq<InlineView>, max: nat) -> Option<
    Seq<Seq<BlockView>>,
> {
    match split_inlines(kind, s, max) {
        Some(parts) => pack_inlines(kind, parts, Seq::empty(), max),
        None => None,
    }
}

pub open spec fn code_chunk(language: Option<Seq<char>>, t: Seq<char>) -> Seq<BlockView> {
    seq![BlockView::CodeBlock { language, code: t }]
}

pub open spec fn code_chunks(language: Option<Seq<char>>, texts: Seq<Seq<char>>) -> Seq<
    Seq<BlockView>,
> {
    texts.map_values(|t: Seq<char>| code_chunk(language, t))
}

pub open spec fn split_code(language: Option<Seq<char>>, code: Seq<char>, max: nat) -> Option<
    Seq<Seq<BlockView>>,
> {
    match pieces(MeasureView::CodeBlock { language }, max, code) {
        Some(texts) => Some(code_chunks(language, texts)),
        None => None,
    }
}

pub open spec fn quoted(chunks: Seq<Seq<BlockView>>) -> Seq<Seq<BlockView>> {
    chunks.map_values(|c: Seq<BlockView>| seq![BlockView::BlockQuote(c)])
}

/// The number of the list item at `index` (counted modulo 2^64).
pub open spec fn item_number(start: u64, index: nat) -> u64 {
    ((start + index) % 0x1_0000_0000_0000_0000) as u64
}

pub open spec fn list_block(start: Option<u64>, items: Seq<Seq<BlockView>>) -> BlockView {
    BlockView::List { start, items }
}

/// Fills lists with the items, as many in each as fit. A list that follows goes on
/// counting where the one before it stopped.
pub open spec fn pack_items(
    start: Option<u64>,
    items: Seq<Seq<BlockView>>,
    index: nat,
    current_start: Option<u64>,
    current: Seq<Seq<BlockView>>,
    max: nat,
) -> Option<Seq<Seq<BlockView>>>
    decreases items.len(),
{
    let closed = if current.len() == 0 {
        Seq::empty()
    } else {
        seq![seq![list_block(current_start, current)]]
    };
    if items.len() == 0 {
        Some(closed)
    } else if block_length(list_block(current_start, current.push(items[0]))) <= max {
        pack_items(
            start,
            items.drop_first(),
            index + 1,
            current_start,
            current.push(items[0]),
            max,
        )
    } else {
        let next_start = if current.len() == 0 {
            current_start
        } else {
            match start {
                Some(n) => Some(item_number(n, index)),
                None => None,
            }
        };
        if block_length(list_block(next_start, seq![items[0]])) > max {
            None
        } else {
            match pack_items(
                start,
                items.drop_first(),
                index + 1,
                next_start,
                seq![items[0]],
                max,
            ) {
                Some(tail) => Some(closed + tail),
                None => None,
            }
        }
    }
}

pub open spec fn all_items_fit(start: Option<u64>, items: Seq<Seq<BlockView>>, max: nat) -> bool {
    forall|i: int|
        0 <= i < items.len() ==> block_length(list_block(start, seq![#[trigger] items[i]])) <= max
}

/// The items of a list, the long ones cut into several.
pub open spec fn split_items(start: Option<u64>, items: Seq<Seq<BlockView>>, max: nat) -> Option<
    Seq<Seq<BlockView>>,
>
    decreases items, 0int,
{
    if items.len() == 0 {
        Some(Seq::empty())
    } else {
        let first = if block_length(list_block(start, seq![items[0]])) <= max {
            Some(seq![items[0]])
        } else {
            match split_blocks(items[0], max) {
                Some(chunks) => if all_items_fit(start, chunks, max) {
                    Some(chunks)
                } else {
                    None
                },
                None => None,
            }
        };
        match (first, split_items(start, items.drop_first(), max)) {
            (Some(a), Some(b)) => Some(a + b),
            _ => None,
        }
    }
}

/// The documents that a single block is cut into.
pub open spec fn split_block(x: BlockView, max: nat) -> Option<Seq<Seq<BlockView>>>
    decreases x, 0int,
{
    if block_length(x) <= max {
        Some(seq![seq![x]])
    } else {
        match x {
            BlockView::Paragraph(c) => split_inline_block(PendingBlockKind::Paragraph, c, max),
            BlockView::Heading(c) => split_inline_block(PendingBlockKind::Heading, c, max),
            BlockView::BlockQuote(inner) => match split_blocks(inner, max) {
                Some(chunks) => Some(quoted(chunks)),
                None => None,
            },
            BlockView::List { start, items } => match split_items(start, items, max) {
                Some(parts) => pack_items(start, parts, 0, start, Seq::empty(), max),
                None => None,
            },
            BlockView::CodeBlock { language, code } => split_code(language, code, max),
            BlockView::Table(_) => None,
            BlockView::ThematicBreak => Some(seq![seq![x]]),
        }
    }
}

pub open spec fn split_each(s: Seq<BlockView>, max: nat) -> Option<Seq<Seq<BlockView>>>
    decreases s, 0int,
{
    if s.len() == 0 {
        Some(Seq::empty())
    } else {
        match (split_block(s[0], max), split_each(s.drop_first(), max)) {
            (Some(a), Some(b)) => Some(a + b),
            _ => None,
        }
    }
}

/// Fills documents with the parts, as many in each as fit.
pub open spec fn pack_blocks(
    parts: Seq<Seq<BlockView>>,
    current: Seq<BlockView>,
    max: nat,
) -> Option<Seq<Seq<BlockView>>>
    decreases parts.len(),
{
    let closed = if current.len() == 0 {
        Seq::empty()
    } else {
        seq![current]
    };
    if parts.len() == 0 {
        Some(closed)
    } else if rendered_length(current + parts[0]) <= max {
        pack_blocks(parts.drop_first(), current + parts[0], max)
    } else if rendered_length(parts[0]) > max {
        None
    } else {
        match pack_blocks(parts.drop_first(), parts[0], max) {
            Some(tail) => Some(closed + tail),
            None => None,
        }
    }
}

/// Blocks cut into documents of at most `max` units each, where that can be done.
pub open spec fn split_blocks(s: Seq<BlockView>, max: nat) -> Option<Seq<Seq<BlockView>>>
    decreases s, 1int,
{
    match split_each(s, max) {
        Some(parts) => pack_blocks(parts, Seq::empty(), max),
        None => None,
    }
}

pub open spec fn parsed(t: Seq<char>) -> Seq<BlockView> {
    document_blocks(markdown_events_of(t))
}

/// The documents of a message: the whole one if it fits, else the parts that its
/// structure allows, else the parts of its plain text.
pub open spec fn message_documents(input: Seq<char>, max: nat) -> Seq<Seq<BlockView>> {
    let t = trimmed(input);
    if t.len() == 0 {
        Seq::empty()
    } else if rendered_length(parsed(t)) <= max {
        seq![parsed(t)]
    } else {
        match split_blocks(parsed(t), max) {
            Some(chunks) => chunks,
            None => plain_pieces(max, t).map_values(|p: Seq<char>| parsed(p)),
        }
    }
}

} // verus!

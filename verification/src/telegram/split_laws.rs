//! Laws of cutting documents: every part fits, and nothing is lost.

use vstd::prelude::*;
use crate::text::{
    is_space, leading_space, lemma_position, lemma_trim_end, trim_end_seq, trim_start_seq, trimmed,
};
use super::parse_model::{inline_block, PendingBlockKind};
use super::render_model::{rendered_length, table_text};
use super::rich::{BlockView, InlineView};
use super::split_model::{
    code_chunks, item_number, last_end, leaf, leaves, list_block, measured, message_documents,
    pack_blocks, pack_inlines, pack_items, pack_wrapped, parsed, piece_end, pieces, plain_pieces,
    preferred_cut, quoted, search, split_block, split_blocks, split_child, split_children, split_each,
    split_inline, split_inlines, split_items, split_leaf, split_wrapped, wrapped, MeasureView,
    WrapperView,
};

verus! {

// ---------------------------------------------------------------------------
// Every part fits
// ---------------------------------------------------------------------------
proof fn lemma_pack_blocks_fit(parts: Seq<Seq<BlockView>>, current: Seq<BlockView>, max: nat)
    requires
        current.len() == 0 || rendered_length(current) <= max,
    ensures
        pack_blocks(parts, current, max) matches Some(chunks) ==> forall|i: int|
            0 <= i < chunks.len() ==> rendered_length(#[trigger] chunks[i]) <= max
                && chunks[i].len() > 0,
    decreases parts.len(),
{
    if parts.len() > 0 {
        if rendered_length(current + parts[0]) <= max {
            lemma_pack_blocks_fit(parts.drop_first(), current + parts[0], max);
        } else if rendered_length(parts[0]) <= max {
            lemma_pack_blocks_fit(parts.drop_first(), parts[0], max);
            if let Some(tail) = pack_blocks(parts.drop_first(), parts[0], max) {
                let closed: Seq<Seq<BlockView>> = if current.len() == 0 {
                    Seq::empty()
                } else {
                    seq![current]
                };
                let chunks = closed + tail;
                assert forall|i: int| 0 <= i < chunks.len() implies rendered_length(
                    #[trigger] chunks[i],
                ) <= max && chunks[i].len() > 0 by {
                    if i >= closed.len() {
                        assert(chunks[i] == tail[i - closed.len()]);
                    }
                }
            }
        }
    }
}

/// Where a document can be cut along its structure, every part has a block and fits
/// into a message.
pub proof fn split_parts_fit(blocks: Seq<BlockView>, max: nat)
    ensures
        split_blocks(blocks, max) matches Some(chunks) ==> forall|i: int|
            0 <= i < chunks.len() ==> rendered_length(#[trigger] chunks[i]) <= max
                && chunks[i].len() > 0,
{
    if let Some(parts) = split_each(blocks, max) {
        lemma_pack_blocks_fit(parts, Seq::empty(), max);
    }
}

/// Unless a message has to be cut as plain text, every document it is sent as fits.
pub proof fn message_documents_fit(input: Seq<char>, max: nat)
    requires
        rendered_length(parsed(crate::text::trimmed(input))) <= max || split_blocks(
            parsed(crate::text::trimmed(input)),
            max,
        ) is Some,
    ensures
        forall|i: int|
            0 <= i < message_documents(input, max).len() ==> rendered_length(
                #[trigger] message_documents(input, max)[i],
            ) <= max,
{
    split_parts_fit(parsed(crate::text::trimmed(input)), max);
}

// ---------------------------------------------------------------------------
// Pieces of text
// ---------------------------------------------------------------------------
/// All characters of a row of texts, in order.
pub open spec fn flat(texts: Seq<Seq<char>>) -> Seq<char>
    decreases texts.len(),
{
    if texts.len() == 0 {
        Seq::empty()
    } else {
        texts[0] + flat(texts.drop_first())
    }
}

proof fn lemma_search_bounds(
    m: MeasureView,
    max: nat,
    rest: Seq<char>,
    low: int,
    high: int,
    best: int,
)
    requires
        0 <= best <= rest.len(),
        1 <= low,
        high <= rest.len(),
        best > 0 ==> measured(m, rest.take(best)) <= max,
    ensures
        0 <= search(m, max, rest, low, high, best) <= rest.len(),
        search(m, max, rest, low, high, best) > 0 ==> measured(
            m,
            rest.take(search(m, max, rest, low, high, best)),
        ) <= max,
    decreases high + 1 - low,
{
    if low <= high {
        let mid = low + (high - low) / 2;
        if measured(m, rest.take(mid)) <= max {
            lemma_search_bounds(m, max, rest, mid + 1, high, mid);
        } else {
            lemma_search_bounds(m, max, rest, low, mid - 1, best);
        }
    }
}

proof fn lemma_last_end_bounds(s: Seq<char>, needle: Seq<char>)
    ensures
        last_end(s, needle) matches Some(k) ==> 0 <= k <= s.len(),
    decreases s.len(),
{
    if !needle.is_suffix_of(s) && s.len() > 0 {
        lemma_last_end_bounds(s.drop_last(), needle);
    }
}

proof fn lemma_piece_end_fits(m: MeasureView, max: nat, rest: Seq<char>, best: int)
    requires
        0 < best <= rest.len(),
        measured(m, rest.take(best)) <= max,
    ensures
        0 <= piece_end(rest, best, Some((m, max))) <= rest.len(),
        measured(m, rest.take(piece_end(rest, best, Some((m, max))))) <= max,
{
    let s = rest.take(best);
    lemma_last_end_bounds(s, "\n\n"@);
    lemma_last_end_bounds(s, "\n"@);
    lemma_last_end_bounds(s, " "@);
    if best < rest.len() {
        if let Some(k) = preferred_cut(s, best / 2, Some((m, max))) {
            assert(s.take(k) =~= rest.take(k));
        }
    }
}

/// The pieces of a text follow each other without a gap, none is empty, and each fits
/// where it stands.
pub proof fn pieces_cover_the_text(m: MeasureView, max: nat, text: Seq<char>)
    ensures
        pieces(m, max, text) matches Some(texts) ==> flat(texts) == text && forall|i: int|
            0 <= i < texts.len() ==> (#[trigger] texts[i]).len() > 0 && measured(m, texts[i])
                <= max,
    decreases text.len(),
{
    if text.len() > 0 {
        let best = search(m, max, text, 1, text.len() as int, 0);
        lemma_search_bounds(m, max, text, 1, text.len() as int, 0);
        let end = piece_end(text, best, Some((m, max)));
        if 0 < end <= text.len() && best > 0 {
            lemma_piece_end_fits(m, max, text, best);
            pieces_cover_the_text(m, max, text.skip(end));
            if let Some(tail) = pieces(m, max, text.skip(end)) {
                let texts = seq![text.take(end)] + tail;
                assert(texts.drop_first() =~= tail);
                assert(text.take(end) + text.skip(end) =~= text);
                assert forall|i: int| 0 <= i < texts.len() implies (#[trigger] texts[i]).len() > 0
                    && measured(m, texts[i]) <= max by {
                    if i > 0 {
                        assert(texts[i] == tail[i - 1]);
                    }
                }
            }
        }
    }
}

// ---------------------------------------------------------------------------
// Nothing is lost
// ---------------------------------------------------------------------------
/// The characters that an inline holds.
pub open spec fn inline_content(x: InlineView) -> Seq<char>
    decreases x,
{
    match x {
        InlineView::Text(t) => t,
        InlineView::Code(t) => t,
        InlineView::LineBreak => "\n"@,
        InlineView::Emphasis(c) => inlines_content(c),
        InlineView::Strong(c) => inlines_content(c),
        InlineView::Strikethrough(c) => inlines_content(c),
        InlineView::Link { url, content } => inlines_content(content),
    }
}

pub open spec fn inlines_content(s: Seq<InlineView>) -> Seq<char>
    decreases s,
{
    if s.len() == 0 {
        Seq::empty()
    } else {
        inline_content(s[0]) + inlines_content(s.drop_first())
    }
}

/// The characters that a block holds.
pub open spec fn block_content(x: BlockView) -> Seq<char>
    decreases x,
{
    match x {
        BlockView::Paragraph(c) => inlines_content(c),
        BlockView::Heading(c) => inlines_content(c),
        BlockView::BlockQuote(inner) => blocks_content(inner),
        BlockView::List { start, items } => items_content(items),
        BlockView::CodeBlock { language, code } => code,
        BlockView::Table(table) => table_text(table),
        BlockView::ThematicBreak => "──────────"@,
    }
}

pub open spec fn blocks_content(s: Seq<BlockView>) -> Seq<char>
    decreases s,
{
    if s.len() == 0 {
        Seq::empty()
    } else {
        block_content(s[0]) + blocks_content(s.drop_first())
    }
}

/// The characters of a row of documents, or of the items of a list.
pub open spec fn items_content(s: Seq<Seq<BlockView>>) -> Seq<char>
    decreases s,
{
    if s.len() == 0 {
        Seq::empty()
    } else {
        blocks_content(s[0]) + items_content(s.drop_first())
    }
}

proof fn lemma_inlines_concat(a: Seq<InlineView>, b: Seq<InlineView>)
    ensures
        inlines_content(a + b) == inlines_content(a) + inlines_content(b),
    decreases a.len(),
{
    if a.len() == 0 {
        assert(a + b =~= b);
        assert(inlines_content(a) + inlines_content(b) =~= inlines_content(b));
    } else {
        assert((a + b).drop_first() =~= a.drop_first() + b);
        lemma_inlines_concat(a.drop_first(), b);
        assert(inlines_content(a + b) =~= inlines_content(a) + inlines_content(b));
    }
}

proof fn lemma_inlines_one(x: InlineView)
    ensures
        inlines_content(seq![x]) == inline_content(x),
{
    assert(seq![x].drop_first() =~= Seq::empty());
    assert(inlines_content(seq![x]) =~= inline_content(x) + inlines_content(Seq::empty()));
    assert(inlines_content(seq![x]) =~= inline_content(x));
}

proof fn lemma_blocks_concat(a: Seq<BlockView>, b: Seq<BlockView>)
    ensures
        blocks_content(a + b) == blocks_content(a) + blocks_content(b),
    decreases a.len(),
{
    if a.len() == 0 {
        assert(a + b =~= b);
        assert(blocks_content(a) + blocks_content(b) =~= blocks_content(b));
    } else {
        assert((a + b).drop_first() =~= a.drop_first() + b);
        lemma_blocks_concat(a.drop_first(), b);
        assert(blocks_content(a + b) =~= blocks_content(a) + blocks_content(b));
    }
}

proof fn lemma_blocks_one(x: BlockView)
    ensures
        blocks_content(seq![x]) == block_content(x),
{
    assert(seq![x].drop_first() =~= Seq::empty());
    assert(blocks_content(seq![x]) =~= block_content(x) + blocks_content(Seq::empty()));
    assert(blocks_content(seq![x]) =~= block_content(x));
}

proof fn lemma_items_concat(a: Seq<Seq<BlockView>>, b: Seq<Seq<BlockView>>)
    ensures
        items_content(a + b) == items_content(a) + items_content(b),
    decreases a.len(),
{
    if a.len() == 0 {
        assert(a + b =~= b);
        assert(items_content(a) + items_content(b) =~= items_content(b));
    } else {
        assert((a + b).drop_first() =~= a.drop_first() + b);
        lemma_items_concat(a.drop_first(), b);
        assert(items_content(a + b) =~= items_content(a) + items_content(b));
    }
}

proof fn lemma_items_one(x: Seq<BlockView>)
    ensures
        items_content(seq![x]) == blocks_content(x),
{
    assert(seq![x].drop_first() =~= Seq::empty());
    assert(items_content(seq![x]) =~= blocks_content(x) + items_content(Seq::empty()));
    assert(items_content(seq![x]) =~= blocks_content(x));
}

proof fn lemma_leaves_content(code: bool, texts: Seq<Seq<char>>)
    ensures
        inlines_content(leaves(code, texts)) == flat(texts),
    decreases texts.len(),
{
    if texts.len() > 0 {
        lemma_leaves_content(code, texts.drop_first());
        assert(leaves(code, texts).drop_first() =~= leaves(code, texts.drop_first()));
        assert(leaves(code, texts)[0] == leaf(code, texts[0]));
        if code {
            assert(inline_content(InlineView::Code(texts[0])) == texts[0]);
        } else {
            assert(inline_content(InlineView::Text(texts[0])) == texts[0]);
        }
    }
}

proof fn lemma_pack_wrapped_content(
    kind: PendingBlockKind,
    w: WrapperView,
    parts: Seq<InlineView>,
    current: Seq<InlineView>,
    max: nat,
)
    ensures
        pack_wrapped(kind, w, parts, current, max) matches Some(r) ==> inlines_content(r)
            == inlines_content(current) + inlines_content(parts),
    decreases parts.len(),
{
    let closed: Seq<InlineView> = if current.len() == 0 {
        Seq::empty()
    } else {
        seq![wrapped(w, current)]
    };
    assert(inlines_content(closed) =~= inlines_content(current)) by {
        if current.len() > 0 {
            lemma_inlines_one(wrapped(w, current));
        }
    }
    if parts.len() == 0 {
        assert(inlines_content(current) + inlines_content(parts) =~= inlines_content(current));
    } else {
        let x = parts[0];
        let rest = parts.drop_first();
        assert(current.push(x) =~= current + seq![x]);
        lemma_inlines_concat(current, seq![x]);
        lemma_inlines_one(x);
        lemma_pack_wrapped_content(kind, w, rest, current.push(x), max);
        lemma_pack_wrapped_content(kind, w, rest, seq![x], max);
        if let Some(t) = pack_wrapped(kind, w, rest, seq![x], max) {
            lemma_inlines_concat(closed, t);
        }
        if let Some(r) = pack_wrapped(kind, w, parts, current, max) {
            assert(inlines_content(r) =~= inlines_content(current) + inlines_content(parts));
        }
    }
}

proof fn lemma_split_child_content(
    kind: PendingBlockKind,
    child: InlineView,
    max: nat,
    w: WrapperView,
)
    ensures
        split_child(kind, child, max, w) matches Some(r) ==> inlines_content(r) == inline_content(
            child,
        ),
    decreases child, 0int,
{
    lemma_inlines_one(child);
    match child {
        InlineView::Text(t) => {
            let m = MeasureView::Wrapped { kind, wrapper: w, code: false };
            pieces_cover_the_text(m, max, t);
            if let Some(texts) = pieces(m, max, t) {
                lemma_leaves_content(false, texts);
            }
        },
        InlineView::Code(t) => {
            let m = MeasureView::Wrapped { kind, wrapper: w, code: true };
            pieces_cover_the_text(m, max, t);
            if let Some(texts) = pieces(m, max, t) {
                lemma_leaves_content(true, texts);
            }
        },
        InlineView::LineBreak => {},
        InlineView::Emphasis(c) => {
            lemma_split_wrapped_content(kind, c, max, WrapperView::Emphasis);
        },
        InlineView::Strong(c) => {
            lemma_split_wrapped_content(kind, c, max, WrapperView::Strong);
        },
        InlineView::Strikethrough(c) => {
            lemma_split_wrapped_content(kind, c, max, WrapperView::Strikethrough);
        },
        InlineView::Link { url, content } => {
            lemma_split_wrapped_content(kind, content, max, WrapperView::Link(url));
        },
    }
}

proof fn lemma_split_children_content(
    kind: PendingBlockKind,
    children: Seq<InlineView>,
    max: nat,
    w: WrapperView,
)
    ensures
        split_children(kind, children, max, w) matches Some(r) ==> inlines_content(r)
            == inlines_content(children),
    decreases children, 0int,
{
    if children.len() > 0 {
        lemma_split_child_content(kind, children[0], max, w);
        lemma_split_children_content(kind, children.drop_first(), max, w);
        if let (Some(a), Some(b)) = (
            split_child(kind, children[0], max, w),
            split_children(kind, children.drop_first(), max, w),
        ) {
            lemma_inlines_concat(a, b);
        }
    }
}

proof fn lemma_split_wrapped_content(
    kind: PendingBlockKind,
    children: Seq<InlineView>,
    max: nat,
    w: WrapperView,
)
    ensures
        split_wrapped(kind, children, max, w) matches Some(r) ==> inlines_content(r)
            == inlines_content(children),
    decreases children, 1int,
{
    lemma_split_children_content(kind, children, max, w);
    if let Some(parts) = split_children(kind, children, max, w) {
        lemma_pack_wrapped_content(kind, w, parts, Seq::empty(), max);
        assert(inlines_content(Seq::<InlineView>::empty()) + inlines_content(parts)
            =~= inlines_content(parts));
    }
}

proof fn lemma_split_leaf_content(kind: PendingBlockKind, code: bool, t: Seq<char>, max: nat)
    ensures
        split_leaf(kind, code, t, max) matches Some(r) ==> inlines_content(r) == t,
{
    let m = MeasureView::Inline { kind, code };
    pieces_cover_the_text(m, max, t);
    if let Some(texts) = pieces(m, max, t) {
        lemma_leaves_content(code, texts);
    }
}

proof fn lemma_split_inline_content(kind: PendingBlockKind, x: InlineView, max: nat)
    ensures
        split_inline(kind, x, max) matches Some(r) ==> inlines_content(r) == inline_content(x),
{
    lemma_inlines_one(x);
    match x {
        InlineView::Text(t) => {
            lemma_split_leaf_content(kind, false, t, max);
        },
        InlineView::Code(t) => {
            lemma_split_leaf_content(kind, true, t, max);
        },
        InlineView::LineBreak => {},
        InlineView::Emphasis(c) => {
            lemma_split_wrapped_content(kind, c, max, WrapperView::Emphasis);
        },
        InlineView::Strong(c) => {
            lemma_split_wrapped_content(kind, c, max, WrapperView::Strong);
        },
        InlineView::Strikethrough(c) => {
            lemma_split_wrapped_content(kind, c, max, WrapperView::Strikethrough);
        },
        InlineView::Link { url, content } => {
            lemma_split_wrapped_content(kind, content, max, WrapperView::Link(url));
        },
    }
}

proof fn lemma_split_inlines_content(kind: PendingBlockKind, s: Seq<InlineView>, max: nat)
    ensures
        split_inlines(kind, s, max) matches Some(r) ==> inlines_content(r) == inlines_content(s),
    decreases s.len(),
{
    if s.len() > 0 {
        lemma_split_inline_content(kind, s[0], max);
        lemma_split_inlines_content(kind, s.drop_first(), max);
        if let (Some(a), Some(b)) = (
            split_inline(kind, s[0], max),
            split_inlines(kind, s.drop_first(), max),
        ) {
            lemma_inlines_concat(a, b);
        }
    }
}

proof fn lemma_pack_inlines_content(
    kind: PendingBlockKind,
    parts: Seq<InlineView>,
    current: Seq<InlineView>,
    max: nat,
)
    ensures
        pack_inlines(kind, parts, current, max) matches Some(r) ==> items_content(r)
            == inlines_content(current) + inlines_content(parts),
    decreases parts.len(),
{
    let closed: Seq<Seq<BlockView>> = if current.len() == 0 {
        Seq::empty()
    } else {
        seq![seq![inline_block(kind, current)]]
    };
    assert(items_content(closed) =~= inlines_content(current)) by {
        if current.len() > 0 {
            lemma_items_one(seq![inline_block(kind, current)]);
            lemma_blocks_one(inline_block(kind, current));
        }
    }
    if parts.len() == 0 {
        assert(inlines_content(current) + inlines_content(parts) =~= inlines_content(current));
    } else {
        let x = parts[0];
        let rest = parts.drop_first();
        assert(current.push(x) =~= current + seq![x]);
        lemma_inlines_concat(current, seq![x]);
        lemma_inlines_one(x);
        lemma_pack_inlines_content(kind, rest, current.push(x), max);
        lemma_pack_inlines_content(kind, rest, seq![x], max);
        if let Some(t) = pack_inlines(kind, rest, seq![x], max) {
            lemma_items_concat(closed, t);
        }
        if let Some(r) = pack_inlines(kind, parts, current, max) {
            assert(items_content(r) =~= inlines_content(current) + inlines_content(parts));
        }
    }
}

proof fn lemma_pack_items_content(
    start: Option<u64>,
    items: Seq<Seq<BlockView>>,
    index: nat,
    current_start: Option<u64>,
    current: Seq<Seq<BlockView>>,
    max: nat,
)
    ensures
        pack_items(start, items, index, current_start, current, max) matches Some(r)
            ==> items_content(r) == items_content(current) + items_content(items),
    decreases items.len(),
{
    let closed: Seq<Seq<BlockView>> = if current.len() == 0 {
        Seq::empty()
    } else {
        seq![seq![list_block(current_start, current)]]
    };
    assert(items_content(closed) =~= items_content(current)) by {
        if current.len() > 0 {
            lemma_items_one(seq![list_block(current_start, current)]);
            lemma_blocks_one(list_block(current_start, current));
        }
    }
    if items.len() == 0 {
        assert(items_content(current) + items_content(items) =~= items_content(current));
    } else {
        let x = items[0];
        let rest = items.drop_first();
        let next_start = if current.len() == 0 {
            current_start
        } else {
            match start {
                Some(n) => Some(item_number(n, index)),
                None => None,
            }
        };
        assert(current.push(x) =~= current + seq![x]);
        lemma_items_concat(current, seq![x]);
        lemma_items_one(x);
        lemma_pack_items_content(start, rest, index + 1, current_start, current.push(x), max);
        lemma_pack_items_content(start, rest, index + 1, next_start, seq![x], max);
        if let Some(t) = pack_items(start, rest, index + 1, next_start, seq![x], max) {
            lemma_items_concat(closed, t);
        }
        if let Some(r) = pack_items(start, items, index, current_start, current, max) {
            assert(items_content(r) =~= items_content(current) + items_content(items));
        }
    }
}

proof fn lemma_code_chunks_content(language: Option<Seq<char>>, texts: Seq<Seq<char>>)
    ensures
        items_content(code_chunks(language, texts)) == flat(texts),
    decreases texts.len(),
{
    if texts.len() > 0 {
        lemma_code_chunks_content(language, texts.drop_first());
        assert(code_chunks(language, texts).drop_first() =~= code_chunks(
            language,
            texts.drop_first(),
        ));
        lemma_blocks_one(BlockView::CodeBlock { language, code: texts[0] });
    }
}

proof fn lemma_quoted_content(chunks: Seq<Seq<BlockView>>)
    ensures
        items_content(quoted(chunks)) == items_content(chunks),
    decreases chunks.len(),
{
    if chunks.len() > 0 {
        lemma_quoted_content(chunks.drop_first());
        assert(quoted(chunks).drop_first() =~= quoted(chunks.drop_first()));
        lemma_blocks_one(BlockView::BlockQuote(chunks[0]));
    }
}

proof fn lemma_split_items_content(start: Option<u64>, items: Seq<Seq<BlockView>>, max: nat)
    ensures
        split_items(start, items, max) matches Some(r) ==> items_content(r) == items_content(
            items,
        ),
    decreases items, 0int,
{
    if items.len() > 0 {
        split_loses_nothing(items[0], max);
        lemma_split_items_content(start, items.drop_first(), max);
        lemma_items_one(items[0]);
        if let Some(b) = split_items(start, items.drop_first(), max) {
            lemma_items_concat(seq![items[0]], b);
            if let Some(a) = split_blocks(items[0], max) {
                lemma_items_concat(a, b);
            }
        }
    }
}

proof fn lemma_split_block_content(x: BlockView, max: nat)
    ensures
        split_block(x, max) matches Some(r) ==> items_content(r) == block_content(x),
    decreases x, 0int,
{
    lemma_items_one(seq![x]);
    lemma_blocks_one(x);
    match x {
        BlockView::Paragraph(c) => {
            let kind = PendingBlockKind::Paragraph;
            lemma_split_inlines_content(kind, c, max);
            if let Some(parts) = split_inlines(kind, c, max) {
                lemma_pack_inlines_content(kind, parts, Seq::empty(), max);
                assert(inlines_content(Seq::<InlineView>::empty()) + inlines_content(parts)
                    =~= inlines_content(parts));
            }
        },
        BlockView::Heading(c) => {
            let kind = PendingBlockKind::Heading;
            lemma_split_inlines_content(kind, c, max);
            if let Some(parts) = split_inlines(kind, c, max) {
                lemma_pack_inlines_content(kind, parts, Seq::empty(), max);
                assert(inlines_content(Seq::<InlineView>::empty()) + inlines_content(parts)
                    =~= inlines_content(parts));
            }
        },
        BlockView::BlockQuote(inner) => {
            split_loses_nothing(inner, max);
            if let Some(chunks) = split_blocks(inner, max) {
                lemma_quoted_content(chunks);
            }
        },
        BlockView::List { start, items } => {
            lemma_split_items_content(start, items, max);
            if let Some(parts) = split_items(start, items, max) {
                lemma_pack_items_content(start, parts, 0, start, Seq::empty(), max);
                assert(items_content(Seq::<Seq<BlockView>>::empty()) + items_content(parts)
                    =~= items_content(parts));
            }
        },
        BlockView::CodeBlock { language, code } => {
            let m = MeasureView::CodeBlock { language };
            pieces_cover_the_text(m, max, code);
            if let Some(texts) = pieces(m, max, code) {
                lemma_code_chunks_content(language, texts);
            }
        },
        BlockView::Table(_) => {},
        BlockView::ThematicBreak => {},
    }
}

proof fn lemma_split_each_content(s: Seq<BlockView>, max: nat)
    ensures
        split_each(s, max) matches Some(r) ==> items_content(r) == blocks_content(s),
    decreases s, 0int,
{
    if s.len() > 0 {
        lemma_split_block_content(s[0], max);
        lemma_split_each_content(s.drop_first(), max);
        if let (Some(a), Some(b)) = (split_block(s[0], max), split_each(s.drop_first(), max)) {
            lemma_items_concat(a, b);
        }
    }
}

proof fn lemma_pack_blocks_content(parts: Seq<Seq<BlockView>>, current: Seq<BlockView>, max: nat)
    ensures
        pack_blocks(parts, current, max) matches Some(r) ==> items_content(r) == blocks_content(
            current,
        ) + items_content(parts),
    decreases parts.len(),
{
    let closed: Seq<Seq<BlockView>> = if current.len() == 0 {
        Seq::empty()
    } else {
        seq![current]
    };
    assert(items_content(closed) =~= blocks_content(current)) by {
        if current.len() > 0 {
            lemma_items_one(current);
        }
    }
    if parts.len() == 0 {
        assert(blocks_content(current) + items_content(parts) =~= blocks_content(current));
    } else {
        let x = parts[0];
        let rest = parts.drop_first();
        lemma_blocks_concat(current, x);
        lemma_pack_blocks_content(rest, current + x, max);
        lemma_pack_blocks_content(rest, x, max);
        if let Some(t) = pack_blocks(rest, x, max) {
            lemma_items_concat(closed, t);
        }
        if let Some(r) = pack_blocks(parts, current, max) {
            assert(items_content(r) =~= blocks_content(current) + items_content(parts));
        }
    }
}

/// Cutting a document loses no character and changes no order: the parts together hold
/// what the document held.
pub proof fn split_loses_nothing(blocks: Seq<BlockView>, max: nat)
    ensures
        split_blocks(blocks, max) matches Some(chunks) ==> items_content(chunks)
            == blocks_content(blocks),
    decreases blocks, 1int,
{
    lemma_split_each_content(blocks, max);
    if let Some(parts) = split_each(blocks, max) {
        lemma_pack_blocks_content(parts, Seq::empty(), max);
        assert(blocks_content(Seq::<BlockView>::empty()) + items_content(parts)
            =~= items_content(parts));
    }
}

// ---------------------------------------------------------------------------
// Cutting plain text
// ---------------------------------------------------------------------------
/// The characters of a text that are not white space.
pub open spec fn visible(s: Seq<char>) -> Seq<char>
    decreases s.len(),
{
    if s.len() == 0 {
        Seq::empty()
    } else if is_space(s.last()) {
        visible(s.drop_last())
    } else {
        visible(s.drop_last()).push(s.last())
    }
}

proof fn lemma_visible_concat(a: Seq<char>, b: Seq<char>)
    ensures
        visible(a + b) == visible(a) + visible(b),
    decreases b.len(),
{
    if b.len() == 0 {
        assert(a + b =~= a);
        assert(visible(a) + visible(b) =~= visible(a));
    } else {
        assert((a + b).drop_last() =~= a + b.drop_last());
        lemma_visible_concat(a, b.drop_last());
        assert(visible(a + b) =~= visible(a) + visible(b));
    }
}

proof fn lemma_invisible(s: Seq<char>)
    requires
        forall|i: int| 0 <= i < s.len() ==> is_space(#[trigger] s[i]),
    ensures
        visible(s).len() == 0,
    decreases s.len(),
{
    if s.len() > 0 {
        assert(is_space(s[s.len() - 1]));
        lemma_invisible(s.drop_last());
    }
}

proof fn lemma_visible_trimmed(s: Seq<char>)
    ensures
        visible(trim_start_seq(s)) == visible(s),
        visible(trimmed(s)) == visible(s),
{
    let n = leading_space(s);
    lemma_position(s, |x: char| !is_space(x));
    let (a, t) = (s.take(n), trim_start_seq(s));
    assert(s =~= a + t);
    lemma_visible_concat(a, t);
    lemma_invisible(a);
    assert(visible(a) + visible(t) =~= visible(t));
    lemma_trim_end(t);
    let r = trim_end_seq(t);
    let b = t.skip(r.len() as int);
    assert(t =~= r + b);
    lemma_visible_concat(r, b);
    lemma_invisible(b);
    assert(visible(r) + visible(b) =~= visible(r));
}

proof fn lemma_search_range(
    m: MeasureView,
    max: nat,
    rest: Seq<char>,
    low: int,
    high: int,
    best: int,
)
    requires
        1 <= best <= rest.len(),
        1 <= low,
        high <= rest.len(),
    ensures
        1 <= search(m, max, rest, low, high, best) <= rest.len(),
    decreases high + 1 - low,
{
    if low <= high {
        let mid = low + (high - low) / 2;
        if measured(m, rest.take(mid)) <= max {
            lemma_search_range(m, max, rest, mid + 1, high, mid);
        } else {
            lemma_search_range(m, max, rest, low, mid - 1, best);
        }
    }
}

proof fn lemma_last_end(s: Seq<char>, needle: Seq<char>)
    ensures
        last_end(s, needle) matches Some(k) ==> needle.len() <= k <= s.len(),
    decreases s.len(),
{
    if !needle.is_suffix_of(s) && s.len() > 0 {
        lemma_last_end(s.drop_last(), needle);
    }
}

/// A message that is cut without regard to its structure keeps every character but white
/// space, in order, and no piece of it is blank.
pub proof fn plain_pieces_keep_every_character(max: nat, text: Seq<char>)
    ensures
        visible(flat(plain_pieces(max, text))) == visible(text),
        forall|i: int|
            0 <= i < plain_pieces(max, text).len() ==> (#[trigger] plain_pieces(
                max,
                text,
            )[i]).len() > 0,
    decreases text.len(),
{
    if text.len() == 0 {
        assert(flat(plain_pieces(max, text)) =~= Seq::empty());
        assert(text =~= Seq::empty());
    } else {
        let m = MeasureView::Markdown;
        let best = search(m, max, text, 1, text.len() as int, 1);
        lemma_search_range(m, max, text, 1, text.len() as int, 1);
        let end = piece_end(text, best, None);
        let front = text.take(best);
        reveal_strlit("\n\n");
        reveal_strlit("\n");
        reveal_strlit(" ");
        lemma_last_end(front, "\n\n"@);
        lemma_last_end(front, "\n"@);
        lemma_last_end(front, " "@);
        assert(0 < end <= text.len());
        let piece = trimmed(text.take(end));
        let rest = trim_start_seq(text.skip(end));
        lemma_position(text.skip(end), |x: char| !is_space(x));
        plain_pieces_keep_every_character(max, rest);
        let tail = plain_pieces(max, rest);
        let all = plain_pieces(max, text);
        lemma_visible_trimmed(text.take(end));
        lemma_visible_trimmed(text.skip(end));
        assert(text =~= text.take(end) + text.skip(end));
        lemma_visible_concat(text.take(end), text.skip(end));
        if piece.len() > 0 {
            assert(all.drop_first() =~= tail);
            lemma_visible_concat(piece, flat(tail));
            assert forall|i: int| 0 <= i < all.len() implies (#[trigger] all[i]).len() > 0 by {
                if i > 0 {
                    assert(all[i] == tail[i - 1]);
                }
            }
        } else {
            assert(piece =~= Seq::empty());
            assert(visible(piece) + visible(text.skip(end)) =~= visible(text.skip(end)));
        }
    }
}

// ---------------------------------------------------------------------------
// Every part keeps its style
// ---------------------------------------------------------------------------
/// Whether an element is of the kind that a wrapper names.
pub open spec fn is_of_style(w: WrapperView, x: InlineView) -> bool {
    match w {
        WrapperView::Emphasis => x is Emphasis,
        WrapperView::Strong => x is Strong,
        WrapperView::Strikethrough => x is Strikethrough,
        WrapperView::Link(to) => match x {
            InlineView::Link { url, .. } => url == to,
            _ => false,
        },
    }
}

proof fn lemma_pack_style(
    kind: PendingBlockKind,
    w: WrapperView,
    parts: Seq<InlineView>,
    current: Seq<InlineView>,
    max: nat,
)
    ensures
        pack_wrapped(kind, w, parts, current, max) matches Some(r) ==> forall|i: int|
            0 <= i < r.len() ==> is_of_style(w, #[trigger] r[i]),
    decreases parts.len(),
{
    if parts.len() > 0 {
        lemma_pack_style(kind, w, parts.drop_first(), current.push(parts[0]), max);
        lemma_pack_style(kind, w, parts.drop_first(), seq![parts[0]], max);
    }
}

/// Where text of a style is cut, every part has the style: emphasis stays emphasis, and a
/// link leads where it led.
pub proof fn parts_keep_their_style(
    kind: PendingBlockKind,
    c: Seq<InlineView>,
    url: Seq<char>,
    max: nat,
)
    ensures
        split_inline(kind, InlineView::Emphasis(c), max) matches Some(r) ==> forall|i: int|
            0 <= i < r.len() ==> (#[trigger] r[i]) is Emphasis,
        split_inline(kind, InlineView::Strong(c), max) matches Some(r) ==> forall|i: int|
            0 <= i < r.len() ==> (#[trigger] r[i]) is Strong,
        split_inline(kind, InlineView::Strikethrough(c), max) matches Some(r) ==> forall|i: int|
            0 <= i < r.len() ==> (#[trigger] r[i]) is Strikethrough,
        split_inline(kind, InlineView::Link { url, content: c }, max) matches Some(r) ==> forall|
            i: int,
        |
            0 <= i < r.len() ==> is_of_style(WrapperView::Link(url), #[trigger] r[i]),
{
    lemma_split_style(kind, c, max, WrapperView::Emphasis);
    lemma_split_style(kind, c, max, WrapperView::Strong);
    lemma_split_style(kind, c, max, WrapperView::Strikethrough);
    lemma_split_style(kind, c, max, WrapperView::Link(url));
    if let Some(r) = split_inline(kind, InlineView::Emphasis(c), max) {
        assert forall|i: int| 0 <= i < r.len() implies (#[trigger] r[i]) is Emphasis by {
            if r.len() != 1 || r[0] != InlineView::Emphasis(c) {
                assert(is_of_style(WrapperView::Emphasis, r[i]));
            }
        }
    }
    if let Some(r) = split_inline(kind, InlineView::Strong(c), max) {
        assert forall|i: int| 0 <= i < r.len() implies (#[trigger] r[i]) is Strong by {
            if r.len() != 1 || r[0] != InlineView::Strong(c) {
                assert(is_of_style(WrapperView::Strong, r[i]));
            }
        }
    }
    if let Some(r) = split_inline(kind, InlineView::Strikethrough(c), max) {
        assert forall|i: int| 0 <= i < r.len() implies (#[trigger] r[i]) is Strikethrough by {
            if r.len() != 1 || r[0] != InlineView::Strikethrough(c) {
                assert(is_of_style(WrapperView::Strikethrough, r[i]));
            }
        }
    }
}

proof fn lemma_split_style(
    kind: PendingBlockKind,
    c: Seq<InlineView>,
    max: nat,
    w: WrapperView,
)
    ensures
        split_wrapped(kind, c, max, w) matches Some(r) ==> forall|i: int|
            0 <= i < r.len() ==> is_of_style(w, #[trigger] r[i]),
{
    if let Some(parts) = split_children(kind, c, max, w) {
        lemma_pack_style(kind, w, parts, Seq::empty(), max);
    }
}

} // verus!

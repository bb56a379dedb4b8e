//! Cutting documents that are too long for one message.

use vstd::prelude::*;
use crate::text::{
    chars_of, index_of_nonspace, match_at, opt_copy, opt_view, string_range, trim,
    trim_is_idempotent, trim_start_seq, trimmed, views,
};
use super::copy::{copy_block, copy_blocks, copy_inline, copy_inlines, copy_items};
use super::markdown::parse_markdown_to_rich_document;
use super::parse_model::{inline_block, PendingBlockKind};
use super::render::{
    render_rich_document_to_telegram_entities, rendered_length_for_blocks,
    rendered_length_for_document, TelegramRenderedText,
};
use super::render_model::{render_document, Rendered};
use super::rich::{
    blocks_view, group_rich_views, inlines_view, items_view, BlockView, InlineView, RichBlock,
    RichDocument, RichInline,
};
use super::split_model::{
    all_items_fit, block_length, code_chunk, code_chunks, cut_at, inline_length, item_number,
    last_end, leaf, leaves, list_block, measured, message_documents, pack_blocks, pack_inlines,
    pack_items, pack_wrapped, parsed, piece_end, pieces, plain_pieces, preferred_cut, quoted,
    search, split_block, split_blocks, split_child, split_children, split_code, split_each,
    split_inline, split_inline_block, split_inlines, split_items, split_leaf, split_wrapped,
    wrapped, MeasureView, WrapperView,
};

verus! {

broadcast use group_rich_views;

#[derive(Debug)]
pub enum InlineWrapper {
    Emphasis,
    Strong,
    Strikethrough,
    Link(String),
}

impl InlineWrapper {
    pub open spec fn view(self) -> WrapperView {
        match self {
            InlineWrapper::Emphasis => WrapperView::Emphasis,
            InlineWrapper::Strong => WrapperView::Strong,
            InlineWrapper::Strikethrough => WrapperView::Strikethrough,
            InlineWrapper::Link(url) => WrapperView::Link(url@),
        }
    }

    fn copy(&self) -> (r: Self)
        ensures
            r@ == self@,
    {
        match self {
            InlineWrapper::Emphasis => InlineWrapper::Emphasis,
            InlineWrapper::Strong => InlineWrapper::Strong,
            InlineWrapper::Strikethrough => InlineWrapper::Strikethrough,
            InlineWrapper::Link(url) => InlineWrapper::Link(url.clone()),
        }
    }
}

/// What a piece of text stands in when its length is measured.
#[derive(Debug)]
pub enum Measure {
    Inline { kind: PendingBlockKind, code: bool },
    Wrapped { kind: PendingBlockKind, wrapper: InlineWrapper, code: bool },
    CodeBlock { language: Option<String> },
    Markdown,
}

fn single_inline(x: RichInline) -> (r: Vec<RichInline>)
    ensures
        inlines_view(r@) == seq![x@],
{
    let mut r: Vec<RichInline> = Vec::new();
    r.push(x);
    assert(inlines_view(r@) =~= seq![x@]);
    r
}

fn single_block(x: RichBlock) -> (r: Vec<RichBlock>)
    ensures
        blocks_view(r@) == seq![x@],
{
    let mut r: Vec<RichBlock> = Vec::new();
    r.push(x);
    assert(blocks_view(r@) =~= seq![x@]);
    r
}

fn single_item(x: Vec<RichBlock>) -> (r: Vec<Vec<RichBlock>>)
    ensures
        items_view(r@) == seq![blocks_view(x@)],
{
    let mut r: Vec<Vec<RichBlock>> = Vec::new();
    r.push(x);
    assert(items_view(r@) =~= seq![blocks_view(x@)]);
    r
}

fn make_leaf(code: bool, text: &str) -> (r: RichInline)
    ensures
        r@ == leaf(code, text@),
{
    if code {
        RichInline::Code(text.to_owned())
    } else {
        RichInline::Text(text.to_owned())
    }
}

fn apply_inline_wrapper(wrapper: &InlineWrapper, children: Vec<RichInline>) -> (r: RichInline)
    ensures
        r@ == wrapped(wrapper@, inlines_view(children@)),
{
    match wrapper {
        InlineWrapper::Emphasis => RichInline::Emphasis(children),
        InlineWrapper::Strong => RichInline::Strong(children),
        InlineWrapper::Strikethrough => RichInline::Strikethrough(children),
        InlineWrapper::Link(url) => RichInline::Link { url: url.clone(), content: children },
    }
}

fn inline_block_from_parts(kind: PendingBlockKind, inlines: Vec<RichInline>) -> (r: RichBlock)
    ensures
        r@ == inline_block(kind, inlines_view(inlines@)),
{
    match kind {
        PendingBlockKind::Paragraph => RichBlock::Paragraph(inlines),
        PendingBlockKind::Heading => RichBlock::Heading(inlines),
    }
}

fn rendered_length_for_block(block: RichBlock) -> (n: usize)
    ensures
        n == block_length(block@),
{
    let blocks: Vec<RichBlock> = single_block(block);
    rendered_length_for_blocks(&blocks)
}

fn rendered_length_for_inline_block(kind: PendingBlockKind, inlines: Vec<RichInline>) -> (n: usize)
    ensures
        n == inline_length(kind, inlines_view(inlines@)),
{
    rendered_length_for_block(inline_block_from_parts(kind, inlines))
}

impl Measure {
    pub open spec fn view(self) -> MeasureView {
        match self {
            Measure::Inline { kind, code } => MeasureView::Inline { kind, code },
            Measure::Wrapped { kind, wrapper, code } => MeasureView::Wrapped {
                kind,
                wrapper: wrapper@,
                code,
            },
            Measure::CodeBlock { language } => MeasureView::CodeBlock {
                language: opt_view(language),
            },
            Measure::Markdown => MeasureView::Markdown,
        }
    }

    /// The length of a text where it stands.
    pub fn length(&self, text: &str) -> (n: usize)
        ensures
            n == measured(self@, text@),
    {
        match self {
            Measure::Inline { kind, code } => rendered_length_for_inline_block(
                *kind,
                single_inline(make_leaf(*code, text)),
            ),
            Measure::Wrapped { kind, wrapper, code } => {
                let inner: Vec<RichInline> = single_inline(make_leaf(*code, text));
                let outer: RichInline = apply_inline_wrapper(wrapper, inner);
                rendered_length_for_inline_block(*kind, single_inline(outer))
            },
            Measure::CodeBlock { language } => rendered_length_for_block(
                RichBlock::CodeBlock { language: opt_copy(language), code: text.to_owned() },
            ),
            Measure::Markdown => {
                let document: RichDocument = parse_markdown_to_rich_document(text);
                rendered_length_for_document(&document)
            },
        }
    }
}

// ---------------------------------------------------------------------------
// Cutting text
// ---------------------------------------------------------------------------
proof fn lemma_search_range(
    m: MeasureView,
    max: nat,
    rest: Seq<char>,
    low: int,
    high: int,
    best: int,
)
    requires
        0 <= best <= rest.len(),
        1 <= low,
        high <= rest.len(),
    ensures
        best <= search(m, max, rest, low, high, best) <= rest.len() || search(
            m,
            max,
            rest,
            low,
            high,
            best,
        ) >= 1,
        0 <= search(m, max, rest, low, high, best) <= rest.len(),
        search(m, max, rest, low, high, best) != best ==> measured(
            m,
            rest.take(search(m, max, rest, low, high, best)),
        ) <= max,
        best >= 1 ==> search(m, max, rest, low, high, best) >= 1,
    decreases high + 1 - low,
{
    if low <= high {
        let mid = low + (high - low) / 2;
        if measured(m, rest.take(mid)) <= max {
            lemma_search_range(m, max, rest, mid + 1, high, mid);
        } else {
            lemma_search_range(m, max, rest, low, mid - 1, best);
        }
    }
}

/// The length of the piece that the search settles on.
fn search_prefix(measure: &Measure, max: usize, chars: &[char], cursor: usize, initial: usize) -> (r:
    usize)
    requires
        cursor < chars@.len(),
        initial <= 1,
    ensures
        r == search(
            measure@,
            max as nat,
            chars@.skip(cursor as int),
            1,
            chars@.len() - cursor,
            initial as int,
        ),
        r <= chars@.len() - cursor,
        initial == 1 ==> r >= 1,
{
    let ghost rest = chars@.skip(cursor as int);
    let total: usize = chars.len();
    let remaining: usize = total - cursor;
    let mut low: usize = 1;
    let mut high: usize = remaining;
    let mut best: usize = initial;
    proof {
        lemma_search_range(measure@, max as nat, rest, 1, remaining as int, initial as int);
    }
    while low <= high
        invariant
            rest == chars@.skip(cursor as int),
            remaining == rest.len(),
            cursor + remaining == total,
            total == chars@.len(),
            1 <= low,
            high <= remaining,
            best <= remaining,
            search(measure@, max as nat, rest, low as int, high as int, best as int) == search(
                measure@,
                max as nat,
                rest,
                1,
                remaining as int,
                initial as int,
            ),
        decreases high + 1 - low,
    {
        let mid: usize = low + (high - low) / 2;
        let candidate: String = string_range(chars, cursor, cursor + mid);
        assert(candidate@ =~= rest.take(mid as int));
        if measure.length(candidate.as_str()) <= max {
            best = mid;
            if mid == remaining {
                proof {
                    assert(search(
                        measure@,
                        max as nat,
                        rest,
                        mid + 1,
                        high as int,
                        mid as int,
                    ) == mid);
                }
                return best;
            }
            low = mid + 1;
        } else {
            high = mid - 1;
        }
    }
    best
}

proof fn lemma_last_end(s: Seq<char>, needle: Seq<char>)
    requires
        needle.len() > 0,
    ensures
        last_end(s, needle) matches Some(k) ==> needle.len() <= k <= s.len(),
    decreases s.len(),
{
    if !needle.is_suffix_of(s) && s.len() > 0 {
        lemma_last_end(s.drop_last(), needle);
    }
}

/// The end of the last occurrence of the needle.
fn find_last_end(chars: &[char], needle: &[char]) -> (r: Option<usize>)
    requires
        needle@.len() > 0,
    ensures
        match (r, last_end(chars@, needle@)) {
            (Some(a), Some(b)) => a == b && a <= chars@.len() && a > 0,
            (None, None) => true,
            _ => false,
        },
{
    let mut k: usize = chars.len();
    assert(chars@.take(k as int) =~= chars@);
    loop
        invariant
            k <= chars@.len(),
            needle@.len() > 0,
            last_end(chars@.take(k as int), needle@) == last_end(chars@, needle@),
        decreases k,
    {
        let ghost now = chars@.take(k as int);
        if needle.len() <= k {
            let at: usize = k - needle.len();
            let hit: bool = match_at(chars, at, needle);
            assert(chars@.subrange(at as int, at + needle@.len()) =~= now.subrange(
                now.len() - needle@.len(),
                now.len() as int,
            ));
            if hit {
                assert(needle@.is_suffix_of(now));
                return Some(k);
            }
            assert(!needle@.is_suffix_of(now));
        }
        if k == 0 {
            return None;
        }
        assert(now.drop_last() =~= chars@.take(k - 1));
        k -= 1;
    }
}

fn cut_behind(chars: &[char], needle: &str, min: usize, fit: Option<(&Measure, usize)>) -> (r:
    Option<usize>)
    requires
        needle@.len() > 0,
    ensures
        match (
            r,
            cut_at(
                chars@,
                needle@,
                min as int,
                match fit {
                    Some(f) => Some((f.0@, f.1 as nat)),
                    None => None,
                },
            ),
        ) {
            (Some(a), Some(b)) => a == b && 0 < a <= chars@.len(),
            (None, None) => true,
            _ => false,
        },
{
    let n: Vec<char> = chars_of(needle);
    match find_last_end(chars, n.as_slice()) {
        Some(k) => {
            let prefix: String = string_range(chars, 0, k);
            assert(prefix@ =~= chars@.take(k as int));
            let bytes: &[u8] = prefix.as_str().as_bytes();
            if bytes.len() < min {
                return None;
            }
            match fit {
                Some((measure, max)) => {
                    if measure.length(prefix.as_str()) <= max {
                        Some(k)
                    } else {
                        None
                    }
                },
                None => Some(k),
            }
        },
        None => None,
    }
}

fn prefer_split_boundary(chars: &[char], min: usize, fit: Option<(&Measure, usize)>) -> (r: Option<
    usize,
>)
    ensures
        match (
            r,
            preferred_cut(
                chars@,
                min as int,
                match fit {
                    Some(f) => Some((f.0@, f.1 as nat)),
                    None => None,
                },
            ),
        ) {
            (Some(a), Some(b)) => a == b && 0 < a <= chars@.len(),
            (None, None) => true,
            _ => false,
        },
{
    proof {
        reveal_strlit("\n\n");
        reveal_strlit("\n");
        reveal_strlit(" ");
    }
    match cut_behind(chars, "\n\n", min, fit) {
        Some(k) => Some(k),
        None => match cut_behind(chars, "\n", min, fit) {
            Some(k) => Some(k),
            None => cut_behind(chars, " ", min, fit),
        },
    }
}

fn end_of_piece(chars: &[char], cursor: usize, best: usize, fit: Option<(&Measure, usize)>) -> (end:
    usize)
    requires
        cursor < chars@.len(),
        0 < best <= chars@.len() - cursor,
    ensures
        end == cursor + piece_end(
            chars@.skip(cursor as int),
            best as int,
            match fit {
                Some(f) => Some((f.0@, f.1 as nat)),
                None => None,
            },
        ),
        cursor < end <= chars@.len(),
{
    let ghost rest = chars@.skip(cursor as int);
    if best < chars.len() - cursor {
        let slice: &[char] = vstd::slice::slice_subrange(chars, cursor, cursor + best);
        assert(slice@ =~= rest.take(best as int));
        match prefer_split_boundary(slice, best / 2, fit) {
            Some(k) => cursor + k,
            None => cursor + best,
        }
    } else {
        cursor + best
    }
}

pub open spec fn opt_views(r: Option<Vec<String>>) -> Option<Seq<Seq<char>>> {
    match r {
        Some(list) => Some(views(list@)),
        None => None,
    }
}

/// Cuts a text into pieces that fit where they stand.
pub fn split_text_to_fit(text: &str, measure: &Measure, max_chars: usize) -> (r: Option<
    Vec<String>,
>)
    ensures
        opt_views(r) == pieces(measure@, max_chars as nat, text@),
{
    let chars: Vec<char> = chars_of(text);
    let mut cursor: usize = 0;
    let mut chunks: Vec<String> = Vec::new();
    let ghost whole = pieces(measure@, max_chars as nat, text@);
    proof {
        assert(chars@.skip(0) =~= chars@);
        assert(views(chunks@) =~= Seq::empty());
        if let Some(t) = whole {
            assert(views(chunks@) + t =~= t);
        }
    }
    while cursor < chars.len()
        invariant
            cursor <= chars@.len(),
            chars@ == text@,
            whole == pieces(measure@, max_chars as nat, text@),
            match pieces(measure@, max_chars as nat, chars@.skip(cursor as int)) {
                Some(t) => whole == Some(views(chunks@) + t),
                None => whole is None,
            },
        decreases chars@.len() - cursor,
    {
        let ghost rest = chars@.skip(cursor as int);
        let best: usize = search_prefix(measure, max_chars, chars.as_slice(), cursor, 0);
        if best == 0 {
            return None;
        }
        let end: usize = end_of_piece(
            chars.as_slice(),
            cursor,
            best,
            Some((measure, max_chars)),
        );
        let chunk: String = string_range(chars.as_slice(), cursor, end);
        let ghost before = chunks@;
        chunks.push(chunk);
        proof {
            assert(chunk@ =~= rest.take(end - cursor));
            assert(rest.skip(end - cursor) =~= chars@.skip(end as int));
            if let Some(t) = pieces(measure@, max_chars as nat, chars@.skip(end as int)) {
                assert(views(before) + (seq![chunk@] + t) =~= views(chunks@) + t);
            }
        }
        cursor = end;
    }
    proof {
        assert(chars@.skip(cursor as int) =~= Seq::empty());
        assert(views(chunks@) + Seq::<Seq<char>>::empty() =~= views(chunks@));
    }
    Some(chunks)
}

/// Cuts markdown text without regard to its structure.
pub fn split_markdown_message_legacy(input: &str, max_chars: usize) -> (r: Vec<String>)
    ensures
        views(r@) == plain_pieces(max_chars as nat, trimmed(input@)),
{
    let text: &str = trim(input);
    let chars: Vec<char> = chars_of(text);
    let mut cursor: usize = 0;
    let mut chunks: Vec<String> = Vec::new();
    let ghost whole = plain_pieces(max_chars as nat, text@);
    proof {
        assert(chars@.skip(0) =~= chars@);
        assert(views(chunks@) + whole =~= whole);
    }
    while cursor < chars.len()
        invariant
            cursor <= chars@.len(),
            chars@ == text@,
            views(chunks@) + plain_pieces(max_chars as nat, chars@.skip(cursor as int)) == whole,
        decreases chars@.len() - cursor,
    {
        let ghost rest = chars@.skip(cursor as int);
        let measure: Measure = Measure::Markdown;
        let best: usize = search_prefix(&measure, max_chars, chars.as_slice(), cursor, 1);
        let end: usize = end_of_piece(chars.as_slice(), cursor, best, None);
        let piece: String = string_range(chars.as_slice(), cursor, end);
        let chunk: &str = trim(piece.as_str());
        let next: usize = index_of_nonspace(chars.as_slice(), end);
        proof {
            assert(piece@ =~= rest.take(end - cursor));
            assert(rest.skip(end - cursor) =~= chars@.skip(end as int));
            assert(trim_start_seq(chars@.skip(end as int)) =~= chars@.skip(next as int));
        }
        let ghost tail = plain_pieces(max_chars as nat, chars@.skip(next as int));
        let ghost before = chunks@;
        if !chunk.is_empty() {
            chunks.push(chunk.to_owned());
            assert(views(before) + (seq![chunk@] + tail) =~= views(chunks@) + tail);
        }
        cursor = next;
    }
    proof {
        assert(chars@.skip(cursor as int) =~= Seq::empty());
        assert(views(chunks@) + Seq::<Seq<char>>::empty() =~= views(chunks@));
    }
    chunks
}

// ---------------------------------------------------------------------------
// Cutting inlines
// ---------------------------------------------------------------------------
pub open spec fn opt_inlines(r: Option<Vec<RichInline>>) -> Option<Seq<InlineView>> {
    match r {
        Some(list) => Some(inlines_view(list@)),
        None => None,
    }
}

fn make_leaves(code: bool, texts: &Vec<String>) -> (r: Vec<RichInline>)
    ensures
        inlines_view(r@) == leaves(code, views(texts@)),
{
    let mut r: Vec<RichInline> = Vec::new();
    let mut i: usize = 0;
    let ghost all = leaves(code, views(texts@));
    while i < texts.len()
        invariant
            i <= texts@.len(),
            all == leaves(code, views(texts@)),
            inlines_view(r@) =~= all.take(i as int),
        decreases texts@.len() - i,
    {
        let x: RichInline = make_leaf(code, texts[i].as_str());
        r.push(x);
        i += 1;
    }
    assert(all.take(all.len() as int) =~= all);
    r
}

fn split_leaf_inline_text_to_fit(
    kind: PendingBlockKind,
    code: bool,
    text: &str,
    max_chars: usize,
) -> (r: Option<Vec<RichInline>>)
    ensures
        opt_inlines(r) == split_leaf(kind, code, text@, max_chars as nat),
{
    let measure: Measure = Measure::Inline { kind, code };
    match split_text_to_fit(text, &measure, max_chars) {
        Some(texts) => {
            if texts.len() == 0 {
                None
            } else {
                Some(make_leaves(code, &texts))
            }
        },
        None => None,
    }
}

/// Appends copies of the inlines of the second list.
fn append_inlines(list: &mut Vec<RichInline>, more: Vec<RichInline>)
    ensures
        inlines_view(final(list)@) == inlines_view(old(list)@) + inlines_view(more@),
{
    let mut rest: Vec<RichInline> = more;
    list.append(&mut rest);
    assert(inlines_view(list@) =~= inlines_view(old(list)@) + inlines_view(more@));
}

fn pack_wrapped_inlines(
    kind: PendingBlockKind,
    wrapper: &InlineWrapper,
    parts: &Vec<RichInline>,
    max_chars: usize,
) -> (r: Option<Vec<RichInline>>)
    ensures
        opt_inlines(r) == pack_wrapped(
            kind,
            wrapper@,
            inlines_view(parts@),
            Seq::empty(),
            max_chars as nat,
        ),
{
    let mut chunks: Vec<RichInline> = Vec::new();
    let mut current: Vec<RichInline> = Vec::new();
    let mut i: usize = 0;
    let ghost all = inlines_view(parts@);
    let ghost w = wrapper@;
    let ghost max = max_chars as nat;
    let ghost whole = pack_wrapped(kind, w, all, Seq::empty(), max);
    proof {
        assert(all.skip(0) =~= all);
        assert(inlines_view(current@) =~= Seq::empty());
        if let Some(t) = whole {
            assert(inlines_view(chunks@) + t =~= t);
        }
    }
    while i < parts.len()
        invariant
            i <= parts@.len(),
            all == inlines_view(parts@),
            w == wrapper@,
            max == max_chars,
            whole == pack_wrapped(kind, w, all, Seq::empty(), max),
            match pack_wrapped(kind, w, all.skip(i as int), inlines_view(current@), max) {
                Some(t) => whole == Some(inlines_view(chunks@) + t),
                None => whole is None,
            },
        decreases parts@.len() - i,
    {
        let ghost rest = all.skip(i as int);
        let ghost now = inlines_view(current@);
        let ghost done = inlines_view(chunks@);
        let ghost part = parts@[i as int]@;
        proof {
            assert(rest[0] == part);
            assert(rest.drop_first() =~= all.skip(i + 1));
        }
        let mut candidate: Vec<RichInline> = copy_inlines(&current);
        candidate.push(copy_inline(&parts[i]));
        assert(inlines_view(candidate@) == now.push(part));
        let whole_candidate: RichInline = apply_inline_wrapper(wrapper, copy_inlines(&candidate));
        if rendered_length_for_inline_block(kind, single_inline(whole_candidate)) <= max_chars {
            current = candidate;
        } else {
            let alone: RichInline = apply_inline_wrapper(
                wrapper,
                single_inline(copy_inline(&parts[i])),
            );
            if rendered_length_for_inline_block(kind, single_inline(alone)) > max_chars {
                return None;
            }
            if current.len() > 0 {
                chunks.push(apply_inline_wrapper(wrapper, current));
            }
            current = single_inline(copy_inline(&parts[i]));
            proof {
                let closed: Seq<InlineView> = if now.len() == 0 {
                    Seq::empty()
                } else {
                    seq![wrapped(w, now)]
                };
                assert(inlines_view(chunks@) =~= done + closed);
                if let Some(t) = pack_wrapped(kind, w, all.skip(i + 1), seq![part], max) {
                    assert(done + (closed + t) =~= inlines_view(chunks@) + t);
                }
            }
        }
        i += 1;
    }
    let ghost now = inlines_view(current@);
    let ghost done = inlines_view(chunks@);
    assert(all.skip(i as int) =~= Seq::empty());
    if current.len() > 0 {
        chunks.push(apply_inline_wrapper(wrapper, current));
    }
    proof {
        if now.len() == 0 {
            assert(done + Seq::<InlineView>::empty() =~= done);
        } else {
            assert(inlines_view(chunks@) =~= done + seq![wrapped(w, now)]);
        }
    }
    Some(chunks)
}

fn split_wrapped_inline_to_fit(
    kind: PendingBlockKind,
    children: &Vec<RichInline>,
    max_chars: usize,
    wrapper: &InlineWrapper,
) -> (r: Option<Vec<RichInline>>)
    ensures
        opt_inlines(r) == split_wrapped(
            kind,
            inlines_view(children@),
            max_chars as nat,
            wrapper@,
        ),
    decreases children,
{
    let mut parts: Vec<RichInline> = Vec::new();
    let mut i: usize = 0;
    let ghost all = inlines_view(children@);
    let ghost whole = split_children(kind, all, max_chars as nat, wrapper@);
    proof {
        assert(all.skip(0) =~= all);
        if let Some(t) = whole {
            assert(inlines_view(parts@) + t =~= t);
        }
    }
    while i < children.len()
        invariant
            i <= children@.len(),
            all == inlines_view(children@),
            whole == split_children(kind, all, max_chars as nat, wrapper@),
            match split_children(kind, all.skip(i as int), max_chars as nat, wrapper@) {
                Some(t) => whole == Some(inlines_view(parts@) + t),
                None => whole is None,
            },
        decreases children@.len() - i,
    {
        let ghost rest = all.skip(i as int);
        let ghost done = inlines_view(parts@);
        assert(rest[0] == children@[i as int]@);
        assert(rest.drop_first() =~= all.skip(i + 1));
        match split_child_for_wrapped_chunk(kind, &children[i], max_chars, wrapper) {
            Some(more) => {
                append_inlines(&mut parts, more);
                proof {
                    if let Some(t) = split_children(
                        kind,
                        all.skip(i + 1),
                        max_chars as nat,
                        wrapper@,
                    ) {
                        assert(done + (inlines_view(more@) + t) =~= inlines_view(parts@) + t);
                    }
                }
            },
            None => {
                return None;
            },
        }
        i += 1;
    }
    proof {
        assert(all.skip(i as int) =~= Seq::empty());
        assert(inlines_view(parts@) + Seq::<InlineView>::empty() =~= inlines_view(parts@));
    }
    pack_wrapped_inlines(kind, wrapper, &parts, max_chars)
}

fn split_child_for_wrapped_chunk(
    kind: PendingBlockKind,
    child: &RichInline,
    max_chars: usize,
    wrapper: &InlineWrapper,
) -> (r: Option<Vec<RichInline>>)
    ensures
        opt_inlines(r) == split_child(kind, child@, max_chars as nat, wrapper@),
    decreases child,
{
    let alone: RichInline = apply_inline_wrapper(wrapper, single_inline(copy_inline(child)));
    if rendered_length_for_inline_block(kind, single_inline(alone)) <= max_chars {
        return Some(single_inline(copy_inline(child)));
    }
    match child {
        RichInline::Text(text) => {
            let measure: Measure = Measure::Wrapped { kind, wrapper: wrapper.copy(), code: false };
            match split_text_to_fit(text.as_str(), &measure, max_chars) {
                Some(texts) => Some(make_leaves(false, &texts)),
                None => None,
            }
        },
        RichInline::Code(text) => {
            let measure: Measure = Measure::Wrapped { kind, wrapper: wrapper.copy(), code: true };
            match split_text_to_fit(text.as_str(), &measure, max_chars) {
                Some(texts) => Some(make_leaves(true, &texts)),
                None => None,
            }
        },
        RichInline::LineBreak => Some(single_inline(RichInline::LineBreak)),
        RichInline::Emphasis(c) => split_wrapped_inline_to_fit(
            kind,
            c,
            max_chars,
            &InlineWrapper::Emphasis,
        ),
        RichInline::Strong(c) => split_wrapped_inline_to_fit(
            kind,
            c,
            max_chars,
            &InlineWrapper::Strong,
        ),
        RichInline::Strikethrough(c) => split_wrapped_inline_to_fit(
            kind,
            c,
            max_chars,
            &InlineWrapper::Strikethrough,
        ),
        RichInline::Link { url, content } => split_wrapped_inline_to_fit(
            kind,
            content,
            max_chars,
            &InlineWrapper::Link(url.clone()),
        ),
    }
}

fn split_inline_to_fit(kind: PendingBlockKind, inline: &RichInline, max_chars: usize) -> (r: Option<
    Vec<RichInline>,
>)
    ensures
        opt_inlines(r) == split_inline(kind, inline@, max_chars as nat),
{
    if rendered_length_for_inline_block(kind, single_inline(copy_inline(inline))) <= max_chars {
        return Some(single_inline(copy_inline(inline)));
    }
    match inline {
        RichInline::Text(text) => split_leaf_inline_text_to_fit(
            kind,
            false,
            text.as_str(),
            max_chars,
        ),
        RichInline::Code(text) => split_leaf_inline_text_to_fit(
            kind,
            true,
            text.as_str(),
            max_chars,
        ),
        RichInline::LineBreak => Some(single_inline(RichInline::LineBreak)),
        RichInline::Emphasis(c) => split_wrapped_inline_to_fit(
            kind,
            c,
            max_chars,
            &InlineWrapper::Emphasis,
        ),
        RichInline::Strong(c) => split_wrapped_inline_to_fit(
            kind,
            c,
            max_chars,
            &InlineWrapper::Strong,
        ),
        RichInline::Strikethrough(c) => split_wrapped_inline_to_fit(
            kind,
            c,
            max_chars,
            &InlineWrapper::Strikethrough,
        ),
        RichInline::Link { url, content } => split_wrapped_inline_to_fit(
            kind,
            content,
            max_chars,
            &InlineWrapper::Link(url.clone()),
        ),
    }
}

fn split_all_inlines(kind: PendingBlockKind, inlines: &Vec<RichInline>, max_chars: usize) -> (r:
    Option<Vec<RichInline>>)
    ensures
        opt_inlines(r) == split_inlines(kind, inlines_view(inlines@), max_chars as nat),
{
    let mut parts: Vec<RichInline> = Vec::new();
    let mut i: usize = 0;
    let ghost all = inlines_view(inlines@);
    let ghost whole = split_inlines(kind, all, max_chars as nat);
    proof {
        assert(all.skip(0) =~= all);
        if let Some(t) = whole {
            assert(inlines_view(parts@) + t =~= t);
        }
    }
    while i < inlines.len()
        invariant
            i <= inlines@.len(),
            all == inlines_view(inlines@),
            whole == split_inlines(kind, all, max_chars as nat),
            match split_inlines(kind, all.skip(i as int), max_chars as nat) {
                Some(t) => whole == Some(inlines_view(parts@) + t),
                None => whole is None,
            },
        decreases inlines@.len() - i,
    {
        let ghost rest = all.skip(i as int);
        let ghost done = inlines_view(parts@);
        assert(rest[0] == inlines@[i as int]@);
        assert(rest.drop_first() =~= all.skip(i + 1));
        match split_inline_to_fit(kind, &inlines[i], max_chars) {
            Some(more) => {
                append_inlines(&mut parts, more);
                proof {
                    if let Some(t) = split_inlines(kind, all.skip(i + 1), max_chars as nat) {
                        assert(done + (inlines_view(more@) + t) =~= inlines_view(parts@) + t);
                    }
                }
            },
            None => {
                return None;
            },
        }
        i += 1;
    }
    proof {
        assert(all.skip(i as int) =~= Seq::empty());
        assert(inlines_view(parts@) + Seq::<InlineView>::empty() =~= inlines_view(parts@));
    }
    Some(parts)
}

// ---------------------------------------------------------------------------
// Cutting blocks
// ---------------------------------------------------------------------------
pub open spec fn opt_items(r: Option<Vec<Vec<RichBlock>>>) -> Option<Seq<Seq<BlockView>>> {
    match r {
        Some(list) => Some(items_view(list@)),
        None => None,
    }
}

fn split_inline_block_to_fit(kind: PendingBlockKind, inlines: &Vec<RichInline>, max_chars: usize) -> (r:
    Option<Vec<Vec<RichBlock>>>)
    ensures
        opt_items(r) == split_inline_block(kind, inlines_view(inlines@), max_chars as nat),
{
    let parts: Vec<RichInline> = match split_all_inlines(kind, inlines, max_chars) {
        Some(parts) => parts,
        None => {
            return None;
        },
    };
    let mut chunks: Vec<Vec<RichBlock>> = Vec::new();
    let mut current: Vec<RichInline> = Vec::new();
    let mut i: usize = 0;
    let ghost all = inlines_view(parts@);
    let ghost max = max_chars as nat;
    let ghost whole = pack_inlines(kind, all, Seq::empty(), max);
    proof {
        assert(all.skip(0) =~= all);
        assert(inlines_view(current@) =~= Seq::empty());
        if let Some(t) = whole {
            assert(items_view(chunks@) + t =~= t);
        }
    }
    while i < parts.len()
        invariant
            i <= parts@.len(),
            all == inlines_view(parts@),
            max == max_chars,
            whole == pack_inlines(kind, all, Seq::empty(), max),
            whole == split_inline_block(kind, inlines_view(inlines@), max),
            match pack_inlines(kind, all.skip(i as int), inlines_view(current@), max) {
                Some(t) => whole == Some(items_view(chunks@) + t),
                None => whole is None,
            },
        decreases parts@.len() - i,
    {
        let ghost rest = all.skip(i as int);
        let ghost now = inlines_view(current@);
        let ghost done = items_view(chunks@);
        let ghost part = parts@[i as int]@;
        proof {
            assert(rest[0] == part);
            assert(rest.drop_first() =~= all.skip(i + 1));
        }
        let mut candidate: Vec<RichInline> = copy_inlines(&current);
        candidate.push(copy_inline(&parts[i]));
        assert(inlines_view(candidate@) == now.push(part));
        if rendered_length_for_inline_block(kind, copy_inlines(&candidate)) <= max_chars {
            current = candidate;
        } else {
            if rendered_length_for_inline_block(kind, single_inline(copy_inline(&parts[i])))
                > max_chars {
                return None;
            }
            if current.len() > 0 {
                chunks.push(single_block(inline_block_from_parts(kind, current)));
            }
            current = single_inline(copy_inline(&parts[i]));
            proof {
                let closed: Seq<Seq<BlockView>> = if now.len() == 0 {
                    Seq::empty()
                } else {
                    seq![seq![inline_block(kind, now)]]
                };
                assert(items_view(chunks@) =~= done + closed);
                if let Some(t) = pack_inlines(kind, all.skip(i + 1), seq![part], max) {
                    assert(done + (closed + t) =~= items_view(chunks@) + t);
                }
            }
        }
        i += 1;
    }
    let ghost now = inlines_view(current@);
    let ghost done = items_view(chunks@);
    assert(all.skip(i as int) =~= Seq::empty());
    if current.len() > 0 {
        chunks.push(single_block(inline_block_from_parts(kind, current)));
    }
    proof {
        if now.len() == 0 {
            assert(done + Seq::<Seq<BlockView>>::empty() =~= done);
        } else {
            assert(items_view(chunks@) =~= done + seq![seq![inline_block(kind, now)]]);
        }
    }
    Some(chunks)
}

fn split_code_block_to_fit(language: &Option<String>, code: &str, max_chars: usize) -> (r: Option<
    Vec<Vec<RichBlock>>,
>)
    ensures
        opt_items(r) == split_code(opt_view(*language), code@, max_chars as nat),
{
    let measure: Measure = Measure::CodeBlock { language: opt_copy(language) };
    match split_text_to_fit(code, &measure, max_chars) {
        Some(texts) => {
            let mut chunks: Vec<Vec<RichBlock>> = Vec::new();
            let mut i: usize = 0;
            let ghost all = code_chunks(opt_view(*language), views(texts@));
            while i < texts.len()
                invariant
                    i <= texts@.len(),
                    all == code_chunks(opt_view(*language), views(texts@)),
                    items_view(chunks@) =~= all.take(i as int),
                decreases texts@.len() - i,
            {
                let block = RichBlock::CodeBlock {
                    language: opt_copy(language),
                    code: texts[i].clone(),
                };
                let chunk: Vec<RichBlock> = single_block(block);
                assert(all[i as int] == code_chunk(opt_view(*language), texts@[i as int]@));
                chunks.push(chunk);
                i += 1;
            }
            assert(all.take(all.len() as int) =~= all);
            Some(chunks)
        },
        None => None,
    }
}

fn append_items(list: &mut Vec<Vec<RichBlock>>, more: Vec<Vec<RichBlock>>)
    ensures
        items_view(final(list)@) == items_view(old(list)@) + items_view(more@),
{
    let mut rest: Vec<Vec<RichBlock>> = more;
    list.append(&mut rest);
    assert(items_view(list@) =~= items_view(old(list)@) + items_view(more@));
}

fn rendered_length_for_list(start: Option<u64>, items: Vec<Vec<RichBlock>>) -> (n: usize)
    ensures
        n == block_length(list_block(start, items_view(items@))),
{
    rendered_length_for_block(RichBlock::List { start, items })
}

fn items_fit(start: Option<u64>, items: &Vec<Vec<RichBlock>>, max_chars: usize) -> (b: bool)
    ensures
        b == all_items_fit(start, items_view(items@), max_chars as nat),
{
    let mut i: usize = 0;
    let ghost all = items_view(items@);
    while i < items.len()
        invariant
            i <= items@.len(),
            all == items_view(items@),
            forall|j: int|
                0 <= j < i ==> block_length(list_block(start, seq![#[trigger] all[j]]))
                    <= max_chars,
        decreases items@.len() - i,
    {
        assert(all[i as int] == blocks_view(items@[i as int]@));
        if rendered_length_for_list(start, single_item(copy_blocks(&items[i]))) > max_chars {
            return false;
        }
        i += 1;
    }
    true
}

fn split_list_items(start: Option<u64>, items: &Vec<Vec<RichBlock>>, max_chars: usize) -> (r:
    Option<Vec<Vec<RichBlock>>>)
    ensures
        opt_items(r) == split_items(start, items_view(items@), max_chars as nat),
    decreases items, 0int,
{
    let mut parts: Vec<Vec<RichBlock>> = Vec::new();
    let mut i: usize = 0;
    let ghost all = items_view(items@);
    let ghost max = max_chars as nat;
    let ghost whole = split_items(start, all, max);
    proof {
        assert(all.skip(0) =~= all);
        if let Some(t) = whole {
            assert(items_view(parts@) + t =~= t);
        }
    }
    while i < items.len()
        invariant
            i <= items@.len(),
            all == items_view(items@),
            max == max_chars,
            whole == split_items(start, all, max),
            match split_items(start, all.skip(i as int), max) {
                Some(t) => whole == Some(items_view(parts@) + t),
                None => whole is None,
            },
        decreases items@.len() - i,
    {
        let ghost rest = all.skip(i as int);
        let ghost done = items_view(parts@);
        let item: &Vec<RichBlock> = &items[i];
        assert(rest[0] == blocks_view(item@));
        assert(rest.drop_first() =~= all.skip(i + 1));
        let more: Vec<Vec<RichBlock>>;
        if rendered_length_for_list(start, single_item(copy_blocks(item))) <= max_chars {
            more = single_item(copy_blocks(item));
        } else {
            match split_blocks_to_fit(item, max_chars) {
                Some(chunks) => {
                    if !items_fit(start, &chunks, max_chars) {
                        return None;
                    }
                    more = chunks;
                },
                None => {
                    return None;
                },
            }
        }
        append_items(&mut parts, more);
        proof {
            if let Some(t) = split_items(start, all.skip(i + 1), max) {
                assert(done + (items_view(more@) + t) =~= items_view(parts@) + t);
            }
        }
        i += 1;
    }
    proof {
        assert(all.skip(i as int) =~= Seq::empty());
        assert(items_view(parts@) + Seq::<Seq<BlockView>>::empty() =~= items_view(parts@));
    }
    Some(parts)
}

fn pack_list_items(start: Option<u64>, items: &Vec<Vec<RichBlock>>, max_chars: usize) -> (r: Option<
    Vec<Vec<RichBlock>>,
>)
    ensures
        opt_items(r) == pack_items(
            start,
            items_view(items@),
            0,
            start,
            Seq::empty(),
            max_chars as nat,
        ),
{
    let mut chunks: Vec<Vec<RichBlock>> = Vec::new();
    let mut current: Vec<Vec<RichBlock>> = Vec::new();
    let mut current_start: Option<u64> = start;
    let mut i: usize = 0;
    let ghost all = items_view(items@);
    let ghost max = max_chars as nat;
    let ghost whole = pack_items(start, all, 0, start, Seq::empty(), max);
    proof {
        assert(all.skip(0) =~= all);
        assert(items_view(current@) =~= Seq::empty());
        if let Some(t) = whole {
            assert(items_view(chunks@) + t =~= t);
        }
    }
    while i < items.len()
        invariant
            i <= items@.len(),
            all == items_view(items@),
            max == max_chars,
            whole == pack_items(start, all, 0, start, Seq::empty(), max),
            match pack_items(
                start,
                all.skip(i as int),
                i as nat,
                current_start,
                items_view(current@),
                max,
            ) {
                Some(t) => whole == Some(items_view(chunks@) + t),
                None => whole is None,
            },
        decreases items@.len() - i,
    {
        let ghost rest = all.skip(i as int);
        let ghost now = items_view(current@);
        let ghost now_start = current_start;
        let ghost done = items_view(chunks@);
        let ghost part = blocks_view(items@[i as int]@);
        proof {
            assert(rest[0] == part);
            assert(rest.drop_first() =~= all.skip(i + 1));
        }
        let mut candidate: Vec<Vec<RichBlock>> = copy_items(&current);
        candidate.push(copy_blocks(&items[i]));
        assert(items_view(candidate@) == now.push(part));
        if rendered_length_for_list(current_start, copy_items(&candidate)) <= max_chars {
            current = candidate;
        } else {
            if current.len() > 0 {
                chunks.push(
                    single_block(RichBlock::List { start: current_start, items: current }),
                );
                current_start =
                match start {
                    Some(n) => {
                        let number: u64 = n.wrapping_add(i as u64);
                        assert(number == item_number(n, i as nat));
                        Some(number)
                    },
                    None => None,
                };
            }
            current = single_item(copy_blocks(&items[i]));
            if rendered_length_for_list(current_start, copy_items(&current)) > max_chars {
                return None;
            }
            proof {
                let closed: Seq<Seq<BlockView>> = if now.len() == 0 {
                    Seq::empty()
                } else {
                    seq![seq![list_block(now_start, now)]]
                };
                assert(items_view(chunks@) =~= done + closed);
                if let Some(t) = pack_items(
                    start,
                    all.skip(i + 1),
                    (i + 1) as nat,
                    current_start,
                    seq![part],
                    max,
                ) {
                    assert(done + (closed + t) =~= items_view(chunks@) + t);
                }
            }
        }
        i += 1;
    }
    let ghost now = items_view(current@);
    let ghost done = items_view(chunks@);
    assert(all.skip(i as int) =~= Seq::empty());
    if current.len() > 0 {
        chunks.push(single_block(RichBlock::List { start: current_start, items: current }));
    }
    proof {
        if now.len() == 0 {
            assert(done + Seq::<Seq<BlockView>>::empty() =~= done);
        } else {
            assert(items_view(chunks@) =~= done + seq![seq![list_block(current_start, now)]]);
        }
    }
    Some(chunks)
}

fn split_list_block_to_fit(start: Option<u64>, items: &Vec<Vec<RichBlock>>, max_chars: usize) -> (r:
    Option<Vec<Vec<RichBlock>>>)
    ensures
        opt_items(r) == match split_items(start, items_view(items@), max_chars as nat) {
            Some(parts) => pack_items(start, parts, 0, start, Seq::empty(), max_chars as nat),
            None => None,
        },
    decreases items, 1int,
{
    match split_list_items(start, items, max_chars) {
        Some(parts) => pack_list_items(start, &parts, max_chars),
        None => None,
    }
}

fn quote_chunks(chunks: Vec<Vec<RichBlock>>) -> (r: Vec<Vec<RichBlock>>)
    ensures
        items_view(r@) == quoted(items_view(chunks@)),
{
    let mut r: Vec<Vec<RichBlock>> = Vec::new();
    let mut i: usize = 0;
    let ghost all = quoted(items_view(chunks@));
    while i < chunks.len()
        invariant
            i <= chunks@.len(),
            all == quoted(items_view(chunks@)),
            items_view(r@) =~= all.take(i as int),
        decreases chunks@.len() - i,
    {
        let chunk: Vec<RichBlock> = single_block(RichBlock::BlockQuote(copy_blocks(&chunks[i])));
        assert(all[i as int] == seq![BlockView::BlockQuote(items_view(chunks@)[i as int])]);
        r.push(chunk);
        i += 1;
    }
    assert(all.take(all.len() as int) =~= all);
    r
}

fn split_block_to_fit(block: &RichBlock, max_chars: usize) -> (r: Option<Vec<Vec<RichBlock>>>)
    ensures
        opt_items(r) == split_block(block@, max_chars as nat),
    decreases block, 0int,
{
    if rendered_length_for_block(copy_block(block)) <= max_chars {
        return Some(single_item(single_block(copy_block(block))));
    }
    match block {
        RichBlock::Paragraph(inlines) => split_inline_block_to_fit(
            PendingBlockKind::Paragraph,
            inlines,
            max_chars,
        ),
        RichBlock::Heading(inlines) => split_inline_block_to_fit(
            PendingBlockKind::Heading,
            inlines,
            max_chars,
        ),
        RichBlock::BlockQuote(inner) => match split_blocks_to_fit(inner, max_chars) {
            Some(chunks) => Some(quote_chunks(chunks)),
            None => None,
        },
        RichBlock::List { start, items } => split_list_block_to_fit(*start, items, max_chars),
        RichBlock::CodeBlock { language, code } => split_code_block_to_fit(
            language,
            code.as_str(),
            max_chars,
        ),
        RichBlock::Table(_) => None,
        RichBlock::ThematicBreak => Some(single_item(single_block(RichBlock::ThematicBreak))),
    }
}

fn split_each_block(blocks: &Vec<RichBlock>, max_chars: usize) -> (r: Option<Vec<Vec<RichBlock>>>)
    ensures
        opt_items(r) == split_each(blocks_view(blocks@), max_chars as nat),
    decreases blocks, 0int,
{
    let mut parts: Vec<Vec<RichBlock>> = Vec::new();
    let mut i: usize = 0;
    let ghost all = blocks_view(blocks@);
    let ghost max = max_chars as nat;
    let ghost whole = split_each(all, max);
    proof {
        assert(all.skip(0) =~= all);
        if let Some(t) = whole {
            assert(items_view(parts@) + t =~= t);
        }
    }
    while i < blocks.len()
        invariant
            i <= blocks@.len(),
            all == blocks_view(blocks@),
            max == max_chars,
            whole == split_each(all, max),
            match split_each(all.skip(i as int), max) {
                Some(t) => whole == Some(items_view(parts@) + t),
                None => whole is None,
            },
        decreases blocks@.len() - i,
    {
        let ghost rest = all.skip(i as int);
        let ghost done = items_view(parts@);
        assert(rest[0] == blocks@[i as int]@);
        assert(rest.drop_first() =~= all.skip(i + 1));
        match split_block_to_fit(&blocks[i], max_chars) {
            Some(more) => {
                append_items(&mut parts, more);
                proof {
                    if let Some(t) = split_each(all.skip(i + 1), max) {
                        assert(done + (items_view(more@) + t) =~= items_view(parts@) + t);
                    }
                }
            },
            None => {
                return None;
            },
        }
        i += 1;
    }
    proof {
        assert(all.skip(i as int) =~= Seq::empty());
        assert(items_view(parts@) + Seq::<Seq<BlockView>>::empty() =~= items_view(parts@));
    }
    Some(parts)
}

fn pack_block_parts(parts: &Vec<Vec<RichBlock>>, max_chars: usize) -> (r: Option<
    Vec<Vec<RichBlock>>,
>)
    ensures
        opt_items(r) == pack_blocks(items_view(parts@), Seq::empty(), max_chars as nat),
{
    let mut chunks: Vec<Vec<RichBlock>> = Vec::new();
    let mut current: Vec<RichBlock> = Vec::new();
    let mut i: usize = 0;
    let ghost all = items_view(parts@);
    let ghost max = max_chars as nat;
    let ghost whole = pack_blocks(all, Seq::empty(), max);
    proof {
        assert(all.skip(0) =~= all);
        assert(blocks_view(current@) =~= Seq::empty());
        if let Some(t) = whole {
            assert(items_view(chunks@) + t =~= t);
        }
    }
    while i < parts.len()
        invariant
            i <= parts@.len(),
            all == items_view(parts@),
            max == max_chars,
            whole == pack_blocks(all, Seq::empty(), max),
            match pack_blocks(all.skip(i as int), blocks_view(current@), max) {
                Some(t) => whole == Some(items_view(chunks@) + t),
                None => whole is None,
            },
        decreases parts@.len() - i,
    {
        let ghost rest = all.skip(i as int);
        let ghost now = blocks_view(current@);
        let ghost done = items_view(chunks@);
        let ghost part = blocks_view(parts@[i as int]@);
        proof {
            assert(rest[0] == part);
            assert(rest.drop_first() =~= all.skip(i + 1));
        }
        let mut candidate: Vec<RichBlock> = copy_blocks(&current);
        let mut copy: Vec<RichBlock> = copy_blocks(&parts[i]);
        candidate.append(&mut copy);
        assert(blocks_view(candidate@) =~= now + part);
        if rendered_length_for_blocks(&candidate) <= max_chars {
            current = candidate;
        } else {
            if rendered_length_for_blocks(&parts[i]) > max_chars {
                return None;
            }
            if current.len() > 0 {
                chunks.push(current);
            }
            current = copy_blocks(&parts[i]);
            proof {
                let closed: Seq<Seq<BlockView>> = if now.len() == 0 {
                    Seq::empty()
                } else {
                    seq![now]
                };
                assert(items_view(chunks@) =~= done + closed);
                if let Some(t) = pack_blocks(all.skip(i + 1), part, max) {
                    assert(done + (closed + t) =~= items_view(chunks@) + t);
                }
            }
        }
        i += 1;
    }
    let ghost now = blocks_view(current@);
    let ghost done = items_view(chunks@);
    assert(all.skip(i as int) =~= Seq::empty());
    if current.len() > 0 {
        chunks.push(current);
    }
    proof {
        if now.len() == 0 {
            assert(done + Seq::<Seq<BlockView>>::empty() =~= done);
        } else {
            assert(items_view(chunks@) =~= done + seq![now]);
        }
    }
    Some(chunks)
}

/// Cuts blocks into documents that each fit into a message.
pub fn split_blocks_to_fit(blocks: &Vec<RichBlock>, max_chars: usize) -> (r: Option<
    Vec<Vec<RichBlock>>,
>)
    ensures
        opt_items(r) == split_blocks(blocks_view(blocks@), max_chars as nat),
    decreases blocks, 1int,
{
    match split_each_block(blocks, max_chars) {
        Some(parts) => pack_block_parts(&parts, max_chars),
        None => None,
    }
}

pub open spec fn documents_view(s: Seq<RichDocument>) -> Seq<Seq<BlockView>> {
    s.map_values(|d: RichDocument| blocks_view(d.blocks@))
}

/// The documents that a markdown message is sent as.
pub fn split_markdown_for_telegram_documents(input: &str, max_chars: usize) -> (r: Vec<
    RichDocument,
>)
    ensures
        documents_view(r@) == message_documents(input@, max_chars as nat),
{
    let text: &str = trim(input);
    let mut documents: Vec<RichDocument> = Vec::new();
    if text.is_empty() {
        assert(documents_view(documents@) =~= Seq::empty());
        return documents;
    }
    let document: RichDocument = parse_markdown_to_rich_document(text);
    if rendered_length_for_document(&document) <= max_chars {
        documents.push(document);
        assert(documents_view(documents@) =~= seq![parsed(text@)]);
        return documents;
    }
    match split_blocks_to_fit(&document.blocks, max_chars) {
        Some(chunks) => {
            let ghost all = items_view(chunks@);
            let mut i: usize = 0;
            while i < chunks.len()
                invariant
                    i <= chunks@.len(),
                    all == items_view(chunks@),
                    documents_view(documents@) =~= all.take(i as int),
                decreases chunks@.len() - i,
            {
                let blocks: Vec<RichBlock> = copy_blocks(&chunks[i]);
                let ghost before = documents@;
                documents.push(RichDocument { blocks });
                assert(documents_view(documents@) =~= documents_view(before).push(all[i as int]));
                i += 1;
            }
            assert(all.take(all.len() as int) =~= all);
            documents
        },
        None => {
            let pieces: Vec<String> = split_markdown_message_legacy(text, max_chars);
            proof {
                trim_is_idempotent(input@);
            }
            let ghost all = plain_pieces(max_chars as nat, text@).map_values(
                |p: Seq<char>| parsed(p),
            );
            let mut i: usize = 0;
            while i < pieces.len()
                invariant
                    i <= pieces@.len(),
                    views(pieces@) == plain_pieces(max_chars as nat, text@),
                    all == plain_pieces(max_chars as nat, text@).map_values(
                        |p: Seq<char>| parsed(p),
                    ),
                    documents_view(documents@) =~= all.take(i as int),
                decreases pieces@.len() - i,
            {
                let part: RichDocument = parse_markdown_to_rich_document(pieces[i].as_str());
                let ghost before = documents@;
                assert(views(pieces@)[i as int] == pieces@[i as int]@);
                documents.push(part);
                assert(documents_view(documents@) =~= documents_view(before).push(all[i as int]));
                i += 1;
            }
            assert(all.take(all.len() as int) =~= all);
            documents
        },
    }
}

pub open spec fn rendered_views(s: Seq<TelegramRenderedText>) -> Seq<Rendered> {
    s.map_values(|t: TelegramRenderedText| t@)
}

/// Renders a markdown message as the texts that it is sent as.
pub fn render_markdown_chunks_to_telegram_entities(input: &str, max_chars: usize) -> (r: Vec<
    TelegramRenderedText,
>)
    ensures
        rendered_views(r@) == message_documents(input@, max_chars as nat).map_values(
            |d: Seq<BlockView>| render_document(d),
        ),
{
    let documents: Vec<RichDocument> = split_markdown_for_telegram_documents(input, max_chars);
    let mut r: Vec<TelegramRenderedText> = Vec::new();
    let mut i: usize = 0;
    let ghost all = message_documents(input@, max_chars as nat).map_values(
        |d: Seq<BlockView>| render_document(d),
    );
    while i < documents.len()
        invariant
            i <= documents@.len(),
            documents_view(documents@) == message_documents(input@, max_chars as nat),
            all == message_documents(input@, max_chars as nat).map_values(
                |d: Seq<BlockView>| render_document(d),
            ),
            rendered_views(r@) =~= all.take(i as int),
        decreases documents@.len() - i,
    {
        let t: TelegramRenderedText = render_rich_document_to_telegram_entities(&documents[i]);
        let ghost before = r@;
        assert(documents_view(documents@)[i as int] == blocks_view(documents@[i as int].blocks@));
        r.push(t);
        assert(rendered_views(r@) =~= rendered_views(before).push(all[i as int]));
        i += 1;
    }
    assert(all.take(all.len() as int) =~= all);
    r
}

} // verus!

//! Laws of rendering: entities lie inside the text, cover some of it and come out in order,
//! and blocks are set apart once.

use vstd::prelude::*;
use crate::text::{
    find_char, is_char, is_space, leading_space, lemma_position, lemma_trim_end, trim_start_seq,
    trimmed,
};
use crate::utf16::{lemma_utf16_concat, lemma_utf16_split, units, utf16};
use super::render_model::{
    broken_text, deeper, entities_sorted, entity_before, entity_place, entity_within, preformatted,
    render_block, render_blocks, render_document, render_first, render_inline, render_inlines,
    render_item, render_items, EntityView, Rendered,
};
use super::rich::{BlockView, InlineView};

verus! {

/// What rendering keeps: entities stay inside the text and text is only added.
pub open spec fn extends(b: Rendered, r: Rendered) -> bool {
    &&& b.inside() ==> r.inside()
    &&& b.filled() ==> r.filled()
    &&& b.text.is_prefix_of(r.text)
}

proof fn lemma_extends_trans(a: Rendered, b: Rendered, c: Rendered)
    requires
        extends(a, b),
        extends(b, c),
    ensures
        extends(a, c),
{
    assert(c.text.take(a.text.len() as int) =~= b.text.take(a.text.len() as int));
}

proof fn lemma_push_extends(b: Rendered, t: Seq<char>)
    ensures
        extends(b, b.push(t)),
{
    lemma_utf16_concat(b.text, t);
    assert((b.text + t).take(b.text.len() as int) =~= b.text);
    if b.inside() {
        assert forall|i: int| 0 <= i < b.push(t).entities.len() implies entity_within(
            #[trigger] b.push(t).entities[i],
            0,
            utf16(b.push(t).text),
        ) by {
            assert(entity_within(b.entities[i], 0, utf16(b.text)));
        }
    }
}

proof fn lemma_entity_extends(
    b: Rendered,
    start: nat,
    kind: Seq<char>,
    url: Option<Seq<char>>,
    language: Option<Seq<char>>,
)
    requires
        start <= b.text.len(),
    ensures
        extends(b, b.entity(start, kind, url, language)),
{
    let slice = b.text.skip(start as int);
    let r = b.entity(start, kind, url, language);
    assert(b.text.take(b.text.len() as int) =~= b.text);
    if trimmed(slice).len() > 0 {
        lemma_position(slice, |x: char| !is_space(x));
        let a = start + leading_space(slice);
        let rest = trim_start_seq(slice);
        lemma_trim_end(rest);
        let n = trimmed(slice).len() as int;
        lemma_utf16_split(b.text, a);
        assert(b.text.skip(a) =~= rest);
        lemma_utf16_split(rest, n);
        assert(rest.take(n) == trimmed(slice));
        assert(utf16(trimmed(slice)) >= units(trimmed(slice)[0]));
        if b.inside() {
            assert forall|i: int| 0 <= i < r.entities.len() implies entity_within(
                #[trigger] r.entities[i],
                0,
                utf16(r.text),
            ) by {
                if i < b.entities.len() {
                    assert(entity_within(b.entities[i], 0, utf16(b.text)));
                }
            }
        }
    }
}

proof fn lemma_styled_extends(b: Rendered, start: nat, kind: Seq<char>)
    requires
        start <= b.text.len(),
    ensures
        extends(b, b.styled(start, kind)),
{
    lemma_entity_extends(b, start, kind, None, None);
    assert(b.text.take(b.text.len() as int) =~= b.text);
}

proof fn lemma_self_extends(b: Rendered)
    ensures
        extends(b, b),
{
    assert(b.text.take(b.text.len() as int) =~= b.text);
}

proof fn lemma_marks_extends(b: Rendered, depth: nat)
    ensures
        extends(b, b.quote_marks(depth)),
{
    lemma_self_extends(b);
    if depth > 1 {
        lemma_push_extends(b, super::render_model::repeated("> "@, (depth - 1) as nat));
    }
}

proof fn lemma_break_extends(b: Rendered, due: bool)
    ensures
        extends(b, b.block_break(due)),
{
    lemma_self_extends(b);
    lemma_push_extends(b, "\n"@);
    lemma_push_extends(b, "\n\n"@);
}

proof fn lemma_lines_extends(b: Rendered, t: Seq<char>, depth: nat)
    ensures
        extends(b, b.lines(t, depth)),
    decreases t.len(),
{
    lemma_self_extends(b);
    if t.len() > 0 {
        lemma_position(t, is_char('\n'));
        let i = find_char(t, '\n');
        let m = b.quote_marks(depth);
        lemma_marks_extends(b, depth);
        if i < t.len() {
            let p = m.push(t.take(i + 1));
            lemma_push_extends(m, t.take(i + 1));
            lemma_extends_trans(b, m, p);
            lemma_lines_extends(p, t.skip(i + 1), depth);
            lemma_extends_trans(b, p, p.lines(t.skip(i + 1), depth));
        } else {
            lemma_push_extends(m, t);
            lemma_extends_trans(b, m, m.push(t));
        }
    }
}

proof fn lemma_preformatted_extends(
    b: Rendered,
    t: Seq<char>,
    language: Option<Seq<char>>,
    fold: bool,
)
    ensures
        extends(b, preformatted(b, t, language, fold)),
{
    let start = b.text.len();
    let p = b.push(t);
    let r = p.entity(start, "pre"@, None, language);
    lemma_push_extends(b, t);
    lemma_entity_extends(p, start, "pre"@, None, language);
    lemma_extends_trans(b, p, r);
    if fold {
        let q = r.entity(start, "expandable_blockquote"@, None, None);
        lemma_entity_extends(r, start, "expandable_blockquote"@, None, None);
        lemma_extends_trans(b, r, q);
    }
}

proof fn lemma_inline_extends(x: InlineView, b: Rendered, depth: nat)
    ensures
        extends(b, render_inline(x, b, depth)),
    decreases x,
{
    let start = b.text.len();
    match x {
        InlineView::Text(t) => {
            lemma_lines_extends(b, t, depth);
        },
        InlineView::Emphasis(c) => {
            let r = render_inlines(c, b, depth);
            lemma_inlines_extends(c, b, depth);
            lemma_styled_extends(r, start, "italic"@);
            lemma_extends_trans(b, r, r.styled(start, "italic"@));
        },
        InlineView::Strong(c) => {
            let r = render_inlines(c, b, depth);
            lemma_inlines_extends(c, b, depth);
            lemma_styled_extends(r, start, "bold"@);
            lemma_extends_trans(b, r, r.styled(start, "bold"@));
        },
        InlineView::Strikethrough(c) => {
            let r = render_inlines(c, b, depth);
            lemma_inlines_extends(c, b, depth);
            lemma_styled_extends(r, start, "strikethrough"@);
            lemma_extends_trans(b, r, r.styled(start, "strikethrough"@));
        },
        InlineView::Link { url, content } => {
            let r = render_inlines(content, b, depth);
            lemma_inlines_extends(content, b, depth);
            lemma_entity_extends(r, start, "text_link"@, Some(url), None);
            lemma_extends_trans(b, r, r.entity(start, "text_link"@, Some(url), None));
        },
        InlineView::Code(t) => {
            let p = b.push(t);
            lemma_push_extends(b, t);
            lemma_entity_extends(p, start, "code"@, None, None);
            lemma_extends_trans(b, p, p.entity(start, "code"@, None, None));
        },
        InlineView::LineBreak => {
            lemma_push_extends(b, "\n"@);
        },
    }
}

proof fn lemma_inlines_extends(s: Seq<InlineView>, b: Rendered, depth: nat)
    ensures
        extends(b, render_inlines(s, b, depth)),
    decreases s,
{
    lemma_self_extends(b);
    if s.len() > 0 {
        let r = render_inline(s[0], b, depth);
        lemma_inline_extends(s[0], b, depth);
        lemma_inlines_extends(s.drop_first(), r, depth);
        lemma_extends_trans(b, r, render_inlines(s.drop_first(), r, depth));
    }
}

proof fn lemma_block_extends(x: BlockView, b: Rendered, due: bool, depth: nat)
    ensures
        extends(b, render_block(x, b, due, depth).0),
    decreases x, 0int,
{
    let at = b.block_break(due);
    let m = at.quote_marks(depth);
    lemma_break_extends(b, due);
    lemma_marks_extends(at, depth);
    lemma_extends_trans(b, at, m);
    let r = render_block(x, b, due, depth).0;
    match x {
        BlockView::Paragraph(c) => {
            lemma_inlines_extends(c, m, depth);
            lemma_extends_trans(b, m, r);
        },
        BlockView::Heading(c) => {
            let q = render_inlines(c, m, depth);
            lemma_inlines_extends(c, m, depth);
            lemma_styled_extends(q, m.text.len(), "bold"@);
            lemma_extends_trans(m, q, r);
            lemma_extends_trans(b, m, r);
        },
        BlockView::BlockQuote(inner) => {
            let q = render_blocks(inner, at, false, deeper(depth)).0;
            lemma_blocks_extends(inner, at, false, deeper(depth));
            lemma_extends_trans(b, at, q);
            if depth == 0 {
                let start = at.text.len();
                lemma_entity_extends(
                    q,
                    start,
                    super::render_model::quote_kind(q.text.skip(start as int)),
                    None,
                    None,
                );
                lemma_extends_trans(b, q, r);
            }
        },
        BlockView::List { start, items } => {
            lemma_items_extends(start, items, 0, m, depth);
            lemma_extends_trans(b, m, r);
        },
        BlockView::CodeBlock { language, code } => {
            lemma_preformatted_extends(
                m,
                code,
                language,
                depth == 0 && super::render_model::is_long_block(code),
            );
            lemma_extends_trans(b, m, r);
        },
        BlockView::Table(table) => {
            let t = super::render_model::table_text(table);
            lemma_preformatted_extends(
                m,
                t,
                None,
                depth == 0 && super::render_model::is_long_block(t),
            );
            lemma_extends_trans(b, m, r);
        },
        BlockView::ThematicBreak => {
            lemma_push_extends(m, "──────────"@);
            lemma_extends_trans(b, m, r);
        },
    }
}

proof fn lemma_blocks_extends(s: Seq<BlockView>, b: Rendered, due: bool, depth: nat)
    ensures
        extends(b, render_blocks(s, b, due, depth).0),
    decreases s, 0int,
{
    lemma_self_extends(b);
    if s.len() > 0 {
        let (r, next) = render_block(s[0], b, due, depth);
        lemma_block_extends(s[0], b, due, depth);
        lemma_blocks_extends(s.drop_first(), r, next, depth);
        lemma_extends_trans(b, r, render_blocks(s.drop_first(), r, next, depth).0);
    }
}

proof fn lemma_items_extends(
    start: Option<u64>,
    items: Seq<Seq<BlockView>>,
    index: nat,
    b: Rendered,
    depth: nat,
)
    ensures
        extends(b, render_items(start, items, index, b, depth)),
    decreases items, 0int,
{
    lemma_self_extends(b);
    if items.len() > 0 {
        let at = if index > 0 && !(b.text.len() > 0 && b.text.last() == '\n') {
            b.push("\n"@)
        } else {
            b
        };
        lemma_push_extends(b, "\n"@);
        let m = at.quote_marks(depth);
        lemma_marks_extends(at, depth);
        lemma_extends_trans(b, at, m);
        let mark = super::render_model::item_mark(start, index);
        let p = m.push(mark);
        lemma_push_extends(m, mark);
        lemma_extends_trans(b, m, p);
        let r = render_item(items[0], p, depth);
        lemma_item_extends(items[0], p, depth);
        lemma_extends_trans(b, p, r);
        lemma_items_extends(start, items.drop_first(), index + 1, r, depth);
        lemma_extends_trans(b, r, render_items(start, items.drop_first(), index + 1, r, depth));
    }
}

proof fn lemma_item_extends(item: Seq<BlockView>, b: Rendered, depth: nat)
    ensures
        extends(b, render_item(item, b, depth)),
    decreases item, 1int,
{
    lemma_self_extends(b);
    if item.len() > 0 {
        let f = render_first(item[0], b, depth);
        lemma_first_extends(item[0], b, depth);
        if item.len() > 1 {
            lemma_blocks_extends(item.drop_first(), f, true, depth);
            lemma_extends_trans(b, f, render_blocks(item.drop_first(), f, true, depth).0);
        }
    }
}

proof fn lemma_first_extends(x: BlockView, b: Rendered, depth: nat)
    ensures
        extends(b, render_first(x, b, depth)),
    decreases x, 0int,
{
    let p = b.push("\n"@);
    let m = p.quote_marks(depth);
    lemma_push_extends(b, "\n"@);
    lemma_marks_extends(p, depth);
    lemma_extends_trans(b, p, m);
    let r = render_first(x, b, depth);
    match x {
        BlockView::Paragraph(c) => {
            lemma_inlines_extends(c, b, depth);
        },
        BlockView::Heading(c) => {
            let q = render_inlines(c, b, depth);
            lemma_inlines_extends(c, b, depth);
            lemma_styled_extends(q, b.text.len(), "bold"@);
            lemma_extends_trans(b, q, r);
        },
        BlockView::CodeBlock { language, code } => {
            lemma_preformatted_extends(m, code, language, false);
            lemma_extends_trans(b, m, r);
        },
        BlockView::Table(table) => {
            lemma_preformatted_extends(m, super::render_model::table_text(table), None, false);
            lemma_extends_trans(b, m, r);
        },
        BlockView::ThematicBreak => {
            lemma_push_extends(b, "──────────"@);
        },
        BlockView::BlockQuote(inner) => {
            lemma_blocks_extends(inner, b, false, deeper(depth));
        },
        BlockView::List { start, items } => {
            lemma_items_extends(start, items, 0, p, depth);
            lemma_extends_trans(b, p, r);
        },
    }
}

pub open spec fn entities_ordered(s: Seq<EntityView>) -> bool {
    forall|i: int, j: int|
        0 <= i < j < s.len() ==> !entity_before(#[trigger] s[j], #[trigger] s[i])
}

proof fn lemma_entity_place(s: Seq<EntityView>, e: EntityView)
    requires
        entities_ordered(s),
    ensures
        0 <= entity_place(s, e) <= s.len(),
        forall|i: int| entity_place(s, e) <= i < s.len() ==> entity_before(e, #[trigger] s[i]),
        forall|i: int| 0 <= i < entity_place(s, e) ==> !entity_before(e, #[trigger] s[i]),
    decreases s.len(),
{
    if s.len() > 0 && entity_before(e, s.last()) {
        let t = s.drop_last();
        assert forall|i: int, j: int| 0 <= i < j < t.len() implies !entity_before(
            #[trigger] t[j],
            #[trigger] t[i],
        ) by {
            assert(!entity_before(s[j], s[i]));
        }
        lemma_entity_place(t, e);
        assert forall|i: int| entity_place(s, e) <= i < s.len() implies entity_before(
            e,
            #[trigger] s[i],
        ) by {
            if i < t.len() {
                assert(t[i] == s[i]);
            }
        }
        assert forall|i: int| 0 <= i < entity_place(s, e) implies !entity_before(
            e,
            #[trigger] s[i],
        ) by {
            assert(t[i] == s[i]);
        }
    } else {
        assert forall|i: int| 0 <= i < s.len() implies !entity_before(e, #[trigger] s[i]) by {
            if i < s.len() - 1 {
                assert(!entity_before(s[s.len() - 1], s[i]));
            }
        }
    }
}

/// Sorting puts entities in order and neither adds nor drops one.
pub proof fn entities_sorted_is_ordered(s: Seq<EntityView>)
    ensures
        entities_ordered(entities_sorted(s)),
        entities_sorted(s).to_multiset() == s.to_multiset(),
        entities_sorted(s).len() == s.len(),
    decreases s.len(),
{
    broadcast use vstd::seq_lib::group_to_multiset_ensures;

    if s.len() > 0 {
        let t = entities_sorted(s.drop_last());
        let e = s.last();
        entities_sorted_is_ordered(s.drop_last());
        lemma_entity_place(t, e);
        let p = entity_place(t, e);
        let r = t.insert(p, e);
        assert forall|i: int, j: int| 0 <= i < j < r.len() implies !entity_before(
            #[trigger] r[j],
            #[trigger] r[i],
        ) by {
            let a = if i < p {
                i
            } else {
                i - 1
            };
            let b = if j < p {
                j
            } else {
                j - 1
            };
            if i == p {
                assert(entity_before(e, t[b]));
            } else if j == p {
                assert(!entity_before(e, t[a]));
            } else {
                assert(!entity_before(t[b], t[a]));
            }
        }
        assert(s =~= s.drop_last().push(e));
        assert(r.to_multiset() == t.to_multiset().insert(e));
    }
}

/// Every entity of a rendered document lies inside its text.
pub proof fn entities_lie_inside_the_text(blocks: Seq<BlockView>)
    ensures
        render_document(blocks).inside(),
{
    broadcast use vstd::seq_lib::group_to_multiset_ensures;

    let b = Rendered::empty();
    let r = render_blocks(blocks, b, false, 0).0;
    lemma_blocks_extends(blocks, b, false, 0);
    entities_sorted_is_ordered(r.entities);
    let d = render_document(blocks);
    assert forall|i: int| 0 <= i < d.entities.len() implies entity_within(
        #[trigger] d.entities[i],
        0,
        utf16(d.text),
    ) by {
        assert(d.entities.to_multiset().count(d.entities[i]) > 0) by {
            assert(d.entities.contains(d.entities[i]));
        }
        assert(r.entities.contains(d.entities[i]));
        let k = choose|k: int| 0 <= k < r.entities.len() && r.entities[k] == d.entities[i];
        assert(entity_within(r.entities[k], 0, utf16(r.text)));
    }
}

/// Every entity of a rendered document covers some text.
pub proof fn entities_cover_some_text(blocks: Seq<BlockView>)
    ensures
        render_document(blocks).filled(),
{
    broadcast use vstd::seq_lib::group_to_multiset_ensures;

    let b = Rendered::empty();
    let r = render_blocks(blocks, b, false, 0).0;
    lemma_blocks_extends(blocks, b, false, 0);
    entities_sorted_is_ordered(r.entities);
    let d = render_document(blocks);
    assert forall|i: int| 0 <= i < d.entities.len() implies (#[trigger] d.entities[i]).length
        > 0 by {
        assert(d.entities.to_multiset().count(d.entities[i]) > 0) by {
            assert(d.entities.contains(d.entities[i]));
        }
        assert(r.entities.contains(d.entities[i]));
        let k = choose|k: int| 0 <= k < r.entities.len() && r.entities[k] == d.entities[i];
        assert(r.entities[k].length > 0);
    }
}

/// A row of line feeds.
pub open spec fn feeds(n: nat) -> Seq<char> {
    Seq::new(n, |i: int| '\n')
}

/// Whether a block can follow a text: the text is empty or ends its line, and it ends in an
/// empty line where one is due.
pub open spec fn is_broken(t: Seq<char>, due: bool) -> bool {
    t.len() > 0 ==> t.last() == '\n' && (due ==> "\n\n"@.is_suffix_of(t))
}

/// The break before a block adds the fewest line feeds after which the block can follow. A
/// second break, which is due no more, changes nothing.
pub proof fn block_break_is_made_once(t: Seq<char>, due: bool, n: nat)
    ensures
        broken_text(broken_text(t, due), false) == broken_text(t, due),
        is_broken(broken_text(t, due), due),
        t.len() <= broken_text(t, due).len(),
        broken_text(t, due) == t + feeds((broken_text(t, due).len() - t.len()) as nat),
        t.len() > 0 && is_broken(t + feeds(n), due) ==> broken_text(t, due).len() <= t.len() + n,
{
    reveal_strlit("\n");
    reveal_strlit("\n\n");
    let r = broken_text(t, due);
    let added = (r.len() - t.len()) as nat;
    assert(r =~= t + feeds(added));
    if t.len() > 0 {
        if due && "\n\n"@.is_suffix_of(t) {
            assert(t.subrange(t.len() - 2, t.len() as int)[1] == t.last());
        }
        assert(r.last() == '\n');
        if due {
            let end = r.subrange(r.len() - 2, r.len() as int);
            assert("\n\n"@.is_suffix_of(r)) by {
                if "\n\n"@.is_suffix_of(t) {
                } else {
                    assert(end =~= "\n\n"@);
                }
            }
        }
        let u = t + feeds(n);
        if n == 0 {
            assert(u =~= t);
        }
        if n == 1 && due && t.last() != '\n' {
            if "\n\n"@.is_suffix_of(u) {
                assert(u.subrange(u.len() - 2, u.len() as int)[0] == '\n');
                assert(u[u.len() - 2] == t.last());
            }
        }
    }
}

/// The entities of a rendered document come in order of their start, the longer first.
pub proof fn entities_come_in_order(blocks: Seq<BlockView>)
    ensures
        entities_ordered(render_document(blocks).entities),
{
    entities_sorted_is_ordered(render_blocks(blocks, Rendered::empty(), false, 0).0.entities);
}

} // verus!

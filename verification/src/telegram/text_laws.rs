//! Laws of the text of messages: what a document holds is shown, in order, with the marks of
//! lists and quotes, and styles lie on the text that they were put on.

use vstd::prelude::*;
use crate::number::decimal;
use crate::text::{
    find_char, is_char, is_space, leading_space, lemma_position_is, trimmed,
    trimming_drops_the_space_around,
};
use crate::utf16::utf16;
use crate::words::join_seq;
use super::render_model::{
    entity_within, item_mark, line_count, line_feeds, preformatted, render_block, render_blocks,
    render_document, render_inline, render_inlines, render_item, render_items, repeated, table_text,
    EntityView, Rendered,
};
use super::rich::{BlockView, InlineView, TableView};
use super::split_laws::{inline_content, inlines_content};

verus! {

// ---------------------------------------------------------------------------
// Text
// ---------------------------------------------------------------------------
proof fn lemma_plain_lines(b: Rendered, t: Seq<char>, depth: nat)
    requires
        depth <= 1,
    ensures
        b.lines(t, depth) == b.push(t),
    decreases t.len(),
{
    if t.len() == 0 {
        assert(b.text + t =~= b.text);
    } else {
        let i = find_char(t, '\n');
        if 0 <= i < t.len() {
            lemma_plain_lines(b.push(t.take(i + 1)), t.skip(i + 1), depth);
            assert(b.text + t.take(i + 1) + t.skip(i + 1) =~= b.text + t);
        }
    }
}

/// Outside of quotes inside quotes, the text of a paragraph is what its parts hold, in order:
/// styles and links change nothing of it.
pub proof fn paragraph_shows_its_text(s: Seq<InlineView>, b: Rendered, depth: nat)
    requires
        depth <= 1,
    ensures
        render_inlines(s, b, depth).text == b.text + inlines_content(s),
    decreases s,
{
    if s.len() == 0 {
        assert(b.text + inlines_content(s) =~= b.text);
    } else {
        let r = render_inline(s[0], b, depth);
        lemma_inline_text(s[0], b, depth);
        paragraph_shows_its_text(s.drop_first(), r, depth);
        assert(b.text + inline_content(s[0]) + inlines_content(s.drop_first()) =~= b.text
            + inlines_content(s));
    }
}

proof fn lemma_inline_text(x: InlineView, b: Rendered, depth: nat)
    requires
        depth <= 1,
    ensures
        render_inline(x, b, depth).text == b.text + inline_content(x),
    decreases x,
{
    match x {
        InlineView::Text(t) => {
            lemma_plain_lines(b, t, depth);
        },
        InlineView::Emphasis(c) => {
            paragraph_shows_its_text(c, b, depth);
        },
        InlineView::Strong(c) => {
            paragraph_shows_its_text(c, b, depth);
        },
        InlineView::Strikethrough(c) => {
            paragraph_shows_its_text(c, b, depth);
        },
        InlineView::Link { url, content } => {
            paragraph_shows_its_text(content, b, depth);
        },
        _ => {},
    }
}

// ---------------------------------------------------------------------------
// Styles
// ---------------------------------------------------------------------------
/// The range of a text that stands behind `before`, with a meaning.
pub open spec fn range_of(
    before: Seq<char>,
    t: Seq<char>,
    kind: Seq<char>,
    url: Option<Seq<char>>,
    language: Option<Seq<char>>,
) -> EntityView {
    EntityView { kind, offset: utf16(before), length: utf16(t), url, language }
}

/// Whether a text has no white space at its ends.
pub open spec fn is_tight(t: Seq<char>) -> bool {
    t.len() > 0 && !is_space(t[0]) && !is_space(t.last())
}

proof fn lemma_tight(t: Seq<char>)
    requires
        is_tight(t),
    ensures
        trimmed(t) == t,
        leading_space(t) == 0,
{
    let e = Seq::<char>::empty();
    trimming_drops_the_space_around(e, t, e);
    assert(e + t + e =~= t);
    lemma_position_is(t, |x: char| !is_space(x), 0);
}

proof fn lemma_utf16_grows(t: Seq<char>)
    ensures
        utf16(t) >= t.len(),
    decreases t.len(),
{
    if t.len() > 0 {
        lemma_utf16_grows(t.drop_first());
    }
}

proof fn lemma_no_entity_since(b: Rendered, t: Seq<char>)
    requires
        b.inside(),
        b.filled(),
    ensures
        !b.push(t).has_entity_since(b.text.len()),
        !b.push(t).has_code_since(b.text.len()),
{
    let r = b.push(t);
    assert(r.text.take(b.text.len() as int) =~= b.text);
    assert forall|i: int| 0 <= i < r.entities.len() implies !entity_within(
        #[trigger] r.entities[i],
        utf16(r.text.take(b.text.len() as int)),
        utf16(r.text),
    ) by {
        assert(entity_within(b.entities[i], 0, utf16(b.text)));
        assert(b.entities[i].length > 0);
    }
}

proof fn lemma_entity_on(
    b: Rendered,
    t: Seq<char>,
    kind: Seq<char>,
    url: Option<Seq<char>>,
    language: Option<Seq<char>>,
)
    requires
        is_tight(t),
    ensures
        b.push(t).entity(b.text.len(), kind, url, language) == (Rendered {
            text: b.text + t,
            entities: b.entities.push(range_of(b.text, t, kind, url, language)),
        }),
{
    let r = b.push(t);
    lemma_tight(t);
    assert(r.text.skip(b.text.len() as int) =~= t);
    assert(r.text.take(b.text.len() as int) =~= b.text);
}

proof fn lemma_one_text(t: Seq<char>, b: Rendered)
    ensures
        render_inlines(seq![InlineView::Text(t)], b, 0) == b.push(t),
{
    let s = seq![InlineView::Text(t)];
    lemma_plain_lines(b, t, 0);
    assert(render_inline(s[0], b, 0) == b.push(t));
    assert(s.drop_first() =~= Seq::empty());
    assert(render_inlines(s.drop_first(), b.push(t), 0) == b.push(t));
}

/// Each style marks the very text that it was put on, by its own name: emphasis as italic,
/// strong text as bold, struck text, code, and a link with its address.
pub proof fn style_lies_on_its_text(t: Seq<char>, url: Seq<char>, b: Rendered)
    requires
        is_tight(t),
        b.inside(),
        b.filled(),
    ensures
        ({
            let inner = seq![InlineView::Text(t)];
            let shown = b.text + t;
            &&& render_inline(InlineView::Strong(inner), b, 0) == (Rendered {
                text: shown,
                entities: b.entities.push(range_of(b.text, t, "bold"@, None, None)),
            })
            &&& render_inline(InlineView::Emphasis(inner), b, 0) == (Rendered {
                text: shown,
                entities: b.entities.push(range_of(b.text, t, "italic"@, None, None)),
            })
            &&& render_inline(InlineView::Strikethrough(inner), b, 0) == (Rendered {
                text: shown,
                entities: b.entities.push(range_of(b.text, t, "strikethrough"@, None, None)),
            })
            &&& render_inline(InlineView::Code(t), b, 0) == (Rendered {
                text: shown,
                entities: b.entities.push(range_of(b.text, t, "code"@, None, None)),
            })
            &&& render_inline(InlineView::Link { url, content: inner }, b, 0) == (Rendered {
                text: shown,
                entities: b.entities.push(range_of(b.text, t, "text_link"@, Some(url), None)),
            })
            &&& render_inline(InlineView::Text(t), b, 0) == (Rendered { text: shown, ..b })
        }),
{
    lemma_one_text(t, b);
    lemma_plain_lines(b, t, 0);
    lemma_no_entity_since(b, t);
    lemma_entity_on(b, t, "bold"@, None, None);
    lemma_entity_on(b, t, "italic"@, None, None);
    lemma_entity_on(b, t, "strikethrough"@, None, None);
    lemma_entity_on(b, t, "code"@, None, None);
    lemma_entity_on(b, t, "text_link"@, Some(url), None);
}

/// White space at the ends of a styled text is shown, and the style leaves it out.
pub proof fn style_leaves_out_the_space_around(
    before: Seq<char>,
    t: Seq<char>,
    after: Seq<char>,
    b: Rendered,
)
    requires
        is_tight(t),
        forall|i: int| 0 <= i < before.len() ==> is_space(#[trigger] before[i]),
        forall|i: int| 0 <= i < after.len() ==> is_space(#[trigger] after[i]),
        b.inside(),
        b.filled(),
    ensures
        ({
            let s = before + t + after;
            render_inline(InlineView::Strong(seq![InlineView::Text(s)]), b, 0) == (Rendered {
                text: b.text + s,
                entities: b.entities.push(range_of(b.text + before, t, "bold"@, None, None)),
            })
        }),
{
    let s = before + t + after;
    lemma_one_text(s, b);
    lemma_no_entity_since(b, s);
    let r = b.push(s);
    assert(r.text.skip(b.text.len() as int) =~= s);
    trimming_drops_the_space_around(before, t, after);
    lemma_position_is(s, |x: char| !is_space(x), before.len() as int);
    assert(r.text.take(b.text.len() as int + before.len()) =~= b.text + before);
}

// ---------------------------------------------------------------------------
// Blocks
// ---------------------------------------------------------------------------
proof fn lemma_one_block(x: BlockView)
    ensures
        render_blocks(seq![x], Rendered::empty(), false, 0) == render_block(
            x,
            Rendered::empty(),
            false,
            0,
        ),
{
    let s = seq![x];
    let (r, next) = render_block(x, Rendered::empty(), false, 0);
    assert(s.drop_first() =~= Seq::empty());
    assert(render_blocks(s.drop_first(), r, next, 0) == (r, next));
}

proof fn lemma_sorted_one(e: EntityView)
    ensures
        super::render_model::entities_sorted(seq![e]) == seq![e],
{
    let s = seq![e];
    let rest = s.drop_last();
    assert(rest =~= Seq::empty());
    assert(super::render_model::entities_sorted(rest) =~= Seq::empty());
    assert(super::render_model::entity_place(rest, e) == 0);
    assert(super::render_model::entities_sorted(s) =~= s);
}

/// A heading is shown in bold, a block of code and a table as preformatted text, and a quote
/// as a quote. A block of code keeps its language. A long block or quote can be folded.
pub proof fn block_is_marked_as_what_it_is(
    t: Seq<char>,
    language: Option<Seq<char>>,
    table: TableView,
)
    requires
        is_tight(t),
        is_tight(table_text(table)),
    ensures
        ({
            let nothing = Seq::<char>::empty();
            let inner = seq![InlineView::Text(t)];
            &&& render_document(seq![BlockView::Heading(inner)]) == (Rendered {
                text: t,
                entities: seq![range_of(nothing, t, "bold"@, None, None)],
            })
            &&& render_document(seq![BlockView::Paragraph(inner)]) == (Rendered {
                text: t,
                entities: Seq::empty(),
            })
            &&& t.len() < 600 && line_feeds(t) < 14 ==> render_document(
                seq![BlockView::CodeBlock { language, code: t }],
            ) == (Rendered {
                text: t,
                entities: seq![range_of(nothing, t, "pre"@, None, language)],
            })
            &&& table_text(table).len() < 600 && line_feeds(table_text(table)) < 14
                ==> render_document(seq![BlockView::Table(table)]) == (Rendered {
                text: table_text(table),
                entities: seq![range_of(nothing, table_text(table), "pre"@, None, None)],
            })
            &&& t.len() < 360 && line_feeds(t) < 5 ==> render_document(
                seq![BlockView::BlockQuote(seq![BlockView::Paragraph(inner)])],
            ) == (Rendered {
                text: t,
                entities: seq![range_of(nothing, t, "blockquote"@, None, None)],
            })
            &&& t.len() >= 360 || line_feeds(t) >= 5 ==> render_document(
                seq![BlockView::BlockQuote(seq![BlockView::Paragraph(inner)])],
            ) == (Rendered {
                text: t,
                entities: seq![range_of(nothing, t, "expandable_blockquote"@, None, None)],
            })
            &&& t.len() >= 600 || line_feeds(t) >= 14 ==> render_document(
                seq![BlockView::CodeBlock { language, code: t }],
            ).entities.contains(range_of(nothing, t, "expandable_blockquote"@, None, None))
        }),
{
    let nothing = Seq::<char>::empty();
    let b = Rendered::empty();
    let inner = seq![InlineView::Text(t)];
    let tt = table_text(table);
    assert(nothing + t =~= t);
    assert(nothing + tt =~= tt);
    assert(t.last() != '\n');
    assert(tt.last() != '\n');
    assert(b.push(t).text =~= t);
    lemma_no_entity_since(b, t);
    lemma_one_text(t, b);
    // A heading and a paragraph.
    lemma_one_block(BlockView::Heading(inner));
    lemma_one_block(BlockView::Paragraph(inner));
    lemma_entity_on(b, t, "bold"@, None, None);
    lemma_sorted_one(range_of(nothing, t, "bold"@, None, None));
    assert(b.entities.push(range_of(nothing, t, "bold"@, None, None)) =~= seq![
        range_of(nothing, t, "bold"@, None, None),
    ]);
    assert(super::render_model::entities_sorted(Seq::empty()) =~= Seq::empty());
    // Preformatted text.
    lemma_one_block(BlockView::CodeBlock { language, code: t });
    lemma_one_block(BlockView::Table(table));
    lemma_entity_on(b, t, "pre"@, None, language);
    lemma_entity_on(b, tt, "pre"@, None, None);
    lemma_sorted_one(range_of(nothing, t, "pre"@, None, language));
    lemma_sorted_one(range_of(nothing, tt, "pre"@, None, None));
    assert(b.entities.push(range_of(nothing, t, "pre"@, None, language)) =~= seq![
        range_of(nothing, t, "pre"@, None, language),
    ]);
    assert(b.entities.push(range_of(nothing, tt, "pre"@, None, None)) =~= seq![
        range_of(nothing, tt, "pre"@, None, None),
    ]);
    assert(b.push(tt).text =~= tt);
    // Quotes.
    let quote = BlockView::BlockQuote(seq![BlockView::Paragraph(inner)]);
    lemma_one_block(quote);
    let p = seq![BlockView::Paragraph(inner)];
    assert(super::render_model::deeper(0) == 1);
    lemma_plain_lines(b, t, 1);
    assert(inner.drop_first() =~= Seq::empty());
    assert(render_inlines(inner.drop_first(), b.push(t), 1) == b.push(t));
    assert(render_inline(inner[0], b, 1) == b.push(t));
    assert(render_inlines(inner, b, 1) == b.push(t));
    assert(render_block(BlockView::Paragraph(inner), b, false, 1) == (b.push(t), true));
    assert(p.drop_first() =~= Seq::empty());
    assert(render_blocks(p.drop_first(), b.push(t), true, 1) == (b.push(t), true));
    assert(render_blocks(p, b, false, 1) == (b.push(t), true));
    assert(b.push(t).text.skip(0) =~= t);
    lemma_entity_on(b, t, "blockquote"@, None, None);
    lemma_entity_on(b, t, "expandable_blockquote"@, None, None);
    lemma_sorted_one(range_of(nothing, t, "blockquote"@, None, None));
    lemma_sorted_one(range_of(nothing, t, "expandable_blockquote"@, None, None));
    assert(b.entities.push(range_of(nothing, t, "blockquote"@, None, None)) =~= seq![
        range_of(nothing, t, "blockquote"@, None, None),
    ]);
    assert(b.entities.push(range_of(nothing, t, "expandable_blockquote"@, None, None)) =~= seq![
        range_of(nothing, t, "expandable_blockquote"@, None, None),
    ]);
    // Folded code.
    if t.len() >= 600 || line_feeds(t) >= 14 {
        let pre = b.push(t).entity(0, "pre"@, None, language);
        let e = range_of(nothing, t, "expandable_blockquote"@, None, None);
        assert(pre.text.skip(0) =~= t);
        assert(pre.text.take(0) =~= nothing);
        lemma_tight(t);
        let all = pre.entities.push(e);
        assert(pre.entity(0, "expandable_blockquote"@, None, None).entities == all);
        super::render_laws::entities_sorted_is_ordered(all);
        broadcast use vstd::seq_lib::group_to_multiset_ensures;

        assert(all[all.len() - 1] == e);
        assert(all.to_multiset().count(e) > 0);
        assert(super::render_model::entities_sorted(all).to_multiset().count(e) > 0);
    }
}

/// Paragraphs follow each other with an empty line between each two.
pub proof fn paragraphs_are_set_apart(texts: Seq<Seq<char>>)
    requires
        texts.len() > 0,
        forall|i: int| 0 <= i < texts.len() ==> is_tight(#[trigger] texts[i]),
    ensures
        render_document(
            texts.map_values(|t: Seq<char>| BlockView::Paragraph(seq![InlineView::Text(t)])),
        ).text == join_seq(texts, "\n\n"@),
{
    let s = texts.map_values(|t: Seq<char>| BlockView::Paragraph(seq![InlineView::Text(t)]));
    lemma_paragraphs(texts, Rendered::empty(), false);
    assert(Seq::<char>::empty() + join_seq(texts, "\n\n"@) =~= join_seq(texts, "\n\n"@));
}

proof fn lemma_paragraphs(texts: Seq<Seq<char>>, b: Rendered, due: bool)
    requires
        texts.len() > 0,
        forall|i: int| 0 <= i < texts.len() ==> is_tight(#[trigger] texts[i]),
        b.text.len() > 0 ==> due && is_tight(b.text.subrange(b.text.len() - 1, b.text.len() as int)),
    ensures
        render_blocks(
            texts.map_values(|t: Seq<char>| BlockView::Paragraph(seq![InlineView::Text(t)])),
            b,
            due,
            0,
        ).0.text == b.text + (if b.text.len() == 0 {
            Seq::empty()
        } else {
            "\n\n"@
        }) + join_seq(texts, "\n\n"@),
    decreases texts.len(),
{
    reveal_strlit("\n\n");
    let f = |t: Seq<char>| BlockView::Paragraph(seq![InlineView::Text(t)]);
    let s = texts.map_values(f);
    let t = texts[0];
    let gap = if b.text.len() == 0 {
        Seq::empty()
    } else {
        "\n\n"@
    };
    let at = b.block_break(due);
    if b.text.len() > 0 {
        let last = b.text.subrange(b.text.len() - 1, b.text.len() as int);
        assert(last[0] == b.text.last());
        assert(b.text.last() != '\n');
        if "\n\n"@.is_suffix_of(b.text) {
            assert(b.text.subrange(b.text.len() - 2, b.text.len() as int)[1] == b.text.last());
        }
    }
    assert(at.text =~= b.text + gap);
    lemma_one_text(t, at);
    let (r, next) = render_block(s[0], b, due, 0);
    assert(r.text == at.text + t && next);
    assert(s.drop_first() =~= texts.drop_first().map_values(f));
    let rest = texts.drop_first();
    if rest.len() == 0 {
        assert(render_blocks(s.drop_first(), r, next, 0).0 == r);
        assert(r.text =~= b.text + gap + join_seq(texts, "\n\n"@));
    } else {
        assert forall|i: int| 0 <= i < rest.len() implies is_tight(#[trigger] rest[i]) by {
            assert(rest[i] == texts[i + 1]);
        }
        assert(r.text.subrange(r.text.len() - 1, r.text.len() as int)[0] == t.last());
        lemma_paragraphs(rest, r, next);
        assert(r.text + "\n\n"@ + join_seq(rest, "\n\n"@) =~= b.text + gap + join_seq(
            texts,
            "\n\n"@,
        ));
    }
}

// ---------------------------------------------------------------------------
// Lists
// ---------------------------------------------------------------------------
/// What stands before the item of a list with the given number of items before it: its
/// number, which goes on from the number of the first, or a bullet.
pub open spec fn mark_of(start: Option<u64>, before: nat) -> Seq<char> {
    match start {
        Some(n) => decimal(((n as int + before) % 0x1_0000_0000_0000_0000) as nat) + ". "@,
        None => "• "@,
    }
}

/// Each item of a list stands on a line of its own behind its mark, and the marks of an
/// ordered list count on from its first number.
pub proof fn list_items_are_marked_in_order(start: Option<u64>, texts: Seq<Seq<char>>)
    requires
        texts.len() > 0,
        forall|i: int| 0 <= i < texts.len() ==> is_tight(#[trigger] texts[i]),
    ensures
        render_document(
            seq![
                BlockView::List {
                    start,
                    items: texts.map_values(
                        |t: Seq<char>| seq![BlockView::Paragraph(seq![InlineView::Text(t)])],
                    ),
                },
            ],
        ).text == join_seq(
            Seq::new(texts.len(), |i: int| mark_of(start, i as nat) + texts[i]),
            "\n"@,
        ),
{
    let items = texts.map_values(
        |t: Seq<char>| seq![BlockView::Paragraph(seq![InlineView::Text(t)])],
    );
    lemma_one_block(BlockView::List { start, items });
    lemma_list_lines(start, texts, 0, Rendered::empty());
    let lines = Seq::new(texts.len(), |i: int| mark_of(start, (0 + i) as nat) + texts[i]);
    assert(lines =~= Seq::new(texts.len(), |i: int| mark_of(start, i as nat) + texts[i]));
    assert(Seq::<char>::empty() + Seq::<char>::empty() + join_seq(lines, "\n"@) =~= join_seq(
        lines,
        "\n"@,
    ));
}

proof fn lemma_list_lines(start: Option<u64>, texts: Seq<Seq<char>>, index: nat, b: Rendered)
    requires
        texts.len() > 0,
        forall|i: int| 0 <= i < texts.len() ==> is_tight(#[trigger] texts[i]),
        index > 0 ==> b.text.len() > 0 && b.text.last() != '\n',
    ensures
        render_items(
            start,
            texts.map_values(
                |t: Seq<char>| seq![BlockView::Paragraph(seq![InlineView::Text(t)])],
            ),
            index,
            b,
            0,
        ).text == b.text + (if index > 0 {
            "\n"@
        } else {
            Seq::empty()
        }) + join_seq(
            Seq::new(texts.len(), |i: int| mark_of(start, (index + i) as nat) + texts[i]),
            "\n"@,
        ),
    decreases texts.len(),
{
    let f = |t: Seq<char>| seq![BlockView::Paragraph(seq![InlineView::Text(t)])];
    let items = texts.map_values(f);
    let lines = Seq::new(texts.len(), |i: int| mark_of(start, (index + i) as nat) + texts[i]);
    let t = texts[0];
    let gap = if index > 0 {
        "\n"@
    } else {
        Seq::empty()
    };
    let at = if index > 0 {
        b.push("\n"@)
    } else {
        b
    };
    assert(at.text =~= b.text + gap);
    let marked = at.push(item_mark(start, index));
    assert(item_mark(start, index) == mark_of(start, index));
    lemma_one_text(t, marked);
    let item = seq![BlockView::Paragraph(seq![InlineView::Text(t)])];
    assert(items[0] == item);
    let r = render_item(item, marked, 0);
    assert(r == marked.push(t));
    let rest = texts.drop_first();
    assert(items.drop_first() =~= rest.map_values(f));
    let more = Seq::new(rest.len(), |i: int| mark_of(start, (index + 1 + i) as nat) + rest[i]);
    assert(lines.drop_first() =~= more);
    assert(lines[0] == mark_of(start, index) + t);
    if rest.len() == 0 {
        assert(render_items(start, items.drop_first(), index + 1, r, 0) == r);
        assert(r.text =~= b.text + gap + join_seq(lines, "\n"@));
    } else {
        assert forall|i: int| 0 <= i < rest.len() implies is_tight(#[trigger] rest[i]) by {
            assert(rest[i] == texts[i + 1]);
        }
        assert(r.text.last() == t.last());
        lemma_list_lines(start, rest, index + 1, r);
        assert(r.text + "\n"@ + join_seq(more, "\n"@) =~= b.text + gap + join_seq(lines, "\n"@));
    }
}

// ---------------------------------------------------------------------------
// Quotes inside quotes
// ---------------------------------------------------------------------------
/// Inside a quote inside a quote every line is marked, once for each quote but the first.
pub proof fn quoted_lines_are_marked(parts: Seq<Seq<char>>, depth: nat, b: Rendered)
    requires
        depth >= 2,
        parts.len() > 0,
        parts.last().len() > 0,
        forall|i: int| 0 <= i < parts.len() ==> !(#[trigger] parts[i]).contains('\n'),
        b.text.len() > 0 ==> b.text.last() == '\n',
    ensures
        b.lines(join_seq(parts, "\n"@), depth) == b.push(
            join_seq(
                parts.map_values(|p: Seq<char>| repeated("> "@, (depth - 1) as nat) + p),
                "\n"@,
            ),
        ),
    decreases parts.len(),
{
    reveal_strlit("\n");
    let marks = repeated("> "@, (depth - 1) as nat);
    let f = |p: Seq<char>| marks + p;
    let marked = parts.map_values(f);
    let t = join_seq(parts, "\n"@);
    let p = parts[0];
    if parts.len() == 1 {
        lemma_position_is(t, is_char('\n'), t.len() as int);
        assert(b.text + marks + t =~= b.text + (marks + p));
        assert(join_seq(marked, "\n"@) == marked[0]);
    } else {
        let rest = parts.drop_first();
        let n = p.len() as int;
        assert(t[n] == '\n');
        lemma_position_is(t, is_char('\n'), n);
        let next = b.quote_marks(depth).push(t.take(n + 1));
        assert(next.text.last() == '\n');
        assert(t.skip(n + 1) =~= join_seq(rest, "\n"@));
        assert forall|i: int| 0 <= i < rest.len() implies !(#[trigger] rest[i]).contains('\n') by {
            assert(rest[i] == parts[i + 1]);
        }
        quoted_lines_are_marked(rest, depth, next);
        assert(marked.drop_first() =~= rest.map_values(f));
        assert(t.take(n + 1) =~= p + "\n"@);
        assert(next.text + join_seq(rest.map_values(f), "\n"@) =~= b.text + join_seq(
            marked,
            "\n"@,
        ));
    }
}

/// The lines of a text are the parts between its line feeds.
pub proof fn lines_are_counted(parts: Seq<Seq<char>>)
    requires
        parts.len() > 0,
        parts.last().len() > 0,
        forall|i: int| 0 <= i < parts.len() ==> !(#[trigger] parts[i]).contains('\n'),
    ensures
        line_count(join_seq(parts, "\n"@)) == parts.len(),
        line_feeds(join_seq(parts, "\n"@)) == parts.len() - 1,
    decreases parts.len(),
{
    reveal_strlit("\n");
    let t = join_seq(parts, "\n"@);
    let p = parts[0];
    lemma_no_feeds(p);
    if parts.len() > 1 {
        let rest = parts.drop_first();
        assert forall|i: int| 0 <= i < rest.len() implies !(#[trigger] rest[i]).contains('\n') by {
            assert(rest[i] == parts[i + 1]);
        }
        lines_are_counted(rest);
        let tail = join_seq(rest, "\n"@);
        lemma_feeds_concat(p + "\n"@, tail);
        assert((p + "\n"@).drop_last() =~= p);
        assert(t =~= p + "\n"@ + tail);
        assert(line_count(tail) == line_feeds(tail) + 1);
        assert(t.last() == tail.last());
    } else {
        assert(p.contains(p.last()));
    }
}

proof fn lemma_no_feeds(p: Seq<char>)
    requires
        !p.contains('\n'),
    ensures
        line_feeds(p) == 0,
    decreases p.len(),
{
    if p.len() > 0 {
        assert(p.contains(p.last()));
        let q = p.drop_last();
        assert(!q.contains('\n')) by {
            if q.contains('\n') {
                let i = choose|i: int| 0 <= i < q.len() && q[i] == '\n';
                assert(p[i] == '\n');
            }
        }
        lemma_no_feeds(q);
    }
}

proof fn lemma_feeds_concat(a: Seq<char>, b: Seq<char>)
    ensures
        line_feeds(a + b) == line_feeds(a) + line_feeds(b),
    decreases b.len(),
{
    if b.len() == 0 {
        assert(a + b =~= a);
    } else {
        assert((a + b).drop_last() =~= a + b.drop_last());
        lemma_feeds_concat(a, b.drop_last());
    }
}

} // verus!

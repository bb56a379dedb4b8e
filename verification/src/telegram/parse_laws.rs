//! Laws of reading Markdown: the events that describe a document give the document back.

use vstd::prelude::*;
use crate::text::{is_space, trimming_drops_the_space_around};
use super::parse_model::{
    document_blocks, empty_table, finished, inline_block, normalized_cell, ContainerView, EventView,
    InlineStyle, MarkdownTagEnd, OpenInlineView, ParserView, PendingBlockKind, PendingTableView,
    PendingView, TagView,
};
use super::rich::{BlockView, InlineView, TableView};

verus! {

// ---------------------------------------------------------------------------
// The events of a document
// ---------------------------------------------------------------------------
/// The events between the start and the end of an element.
pub open spec fn enclosed(
    tag: TagView,
    inner: Seq<EventView>,
    end: MarkdownTagEnd,
) -> Seq<EventView> {
    seq![EventView::Start(tag)] + inner + seq![EventView::End(end)]
}

pub open spec fn inline_events(x: InlineView) -> Seq<EventView>
    decreases x,
{
    match x {
        InlineView::Text(t) => seq![EventView::Text(t)],
        InlineView::Code(t) => seq![EventView::Code(t)],
        InlineView::LineBreak => seq![EventView::SoftBreak],
        InlineView::Emphasis(c) => enclosed(
            TagView::Emphasis,
            inlines_events(c),
            MarkdownTagEnd::Emphasis,
        ),
        InlineView::Strong(c) => enclosed(
            TagView::Strong,
            inlines_events(c),
            MarkdownTagEnd::Strong,
        ),
        InlineView::Strikethrough(c) => enclosed(
            TagView::Strikethrough,
            inlines_events(c),
            MarkdownTagEnd::Strikethrough,
        ),
        InlineView::Link { url, content } => enclosed(
            TagView::Link(url),
            inlines_events(content),
            MarkdownTagEnd::Link,
        ),
    }
}

pub open spec fn inlines_events(s: Seq<InlineView>) -> Seq<EventView>
    decreases s,
{
    if s.len() == 0 {
        Seq::empty()
    } else {
        inline_events(s[0]) + inlines_events(s.drop_first())
    }
}

pub open spec fn cells_events(row: Seq<Seq<char>>) -> Seq<EventView>
    decreases row.len(),
{
    if row.len() == 0 {
        Seq::empty()
    } else {
        enclosed(TagView::TableCell, seq![EventView::Text(row[0])], MarkdownTagEnd::TableCell)
            + cells_events(row.drop_first())
    }
}

pub open spec fn rows_events(rows: Seq<Seq<Seq<char>>>) -> Seq<EventView>
    decreases rows.len(),
{
    if rows.len() == 0 {
        Seq::empty()
    } else {
        enclosed(TagView::TableRow, cells_events(rows[0]), MarkdownTagEnd::TableRow) + rows_events(
            rows.drop_first(),
        )
    }
}

pub open spec fn table_events(rows: Seq<Seq<Seq<char>>>) -> Seq<EventView> {
    enclosed(
        TagView::Table,
        enclosed(TagView::TableHead, cells_events(rows[0]), MarkdownTagEnd::TableHead)
            + rows_events(rows.drop_first()),
        MarkdownTagEnd::Table,
    )
}

pub open spec fn block_events(x: BlockView) -> Seq<EventView>
    decreases x,
{
    match x {
        BlockView::Paragraph(c) => enclosed(
            TagView::Paragraph,
            inlines_events(c),
            MarkdownTagEnd::Paragraph,
        ),
        BlockView::Heading(c) => enclosed(
            TagView::Heading,
            inlines_events(c),
            MarkdownTagEnd::Heading,
        ),
        BlockView::BlockQuote(inner) => enclosed(
            TagView::BlockQuote,
            blocks_events(inner),
            MarkdownTagEnd::BlockQuote,
        ),
        BlockView::List { start, items } => enclosed(
            TagView::List(start),
            items_events(items),
            MarkdownTagEnd::List,
        ),
        BlockView::CodeBlock { language, code } => enclosed(
            match language {
                Some(l) => TagView::Fence(l),
                None => TagView::IndentedCode,
            },
            seq![EventView::Text(code)],
            MarkdownTagEnd::CodeBlock,
        ),
        BlockView::Table(table) => table_events(table.rows),
        BlockView::ThematicBreak => seq![EventView::Rule],
    }
}

pub open spec fn blocks_events(s: Seq<BlockView>) -> Seq<EventView>
    decreases s,
{
    if s.len() == 0 {
        Seq::empty()
    } else {
        block_events(s[0]) + blocks_events(s.drop_first())
    }
}

pub open spec fn items_events(s: Seq<Seq<BlockView>>) -> Seq<EventView>
    decreases s,
{
    if s.len() == 0 {
        Seq::empty()
    } else {
        enclosed(TagView::Item, blocks_events(s[0]), MarkdownTagEnd::Item) + items_events(
            s.drop_first(),
        )
    }
}

/// Whether a block can come from Markdown: paragraphs and headings hold something, a language
/// has no white space around it, and a table has a head of one row and cells in which white
/// space is single.
pub open spec fn is_written(x: BlockView) -> bool
    decreases x,
{
    match x {
        BlockView::Paragraph(c) => c.len() > 0,
        BlockView::Heading(c) => c.len() > 0,
        BlockView::BlockQuote(inner) => all_written(inner),
        BlockView::List { start, items } => all_items_written(items),
        BlockView::CodeBlock { language, code } => language matches Some(l) ==> l.len() > 0
            && !is_space(l[0]) && !is_space(l.last()),
        BlockView::Table(table) => table.header_rows == 1 && table.rows.len() > 0 && forall|r: int|
            0 <= r < table.rows.len() ==> is_written_row(#[trigger] table.rows[r]),
        BlockView::ThematicBreak => true,
    }
}

pub open spec fn is_written_row(row: Seq<Seq<char>>) -> bool {
    row.len() > 0 && forall|c: int|
        0 <= c < row.len() ==> normalized_cell(#[trigger] row[c]) == row[c]
}

pub open spec fn all_written(s: Seq<BlockView>) -> bool
    decreases s,
{
    if s.len() == 0 {
        true
    } else {
        is_written(s[0]) && all_written(s.drop_first())
    }
}

pub open spec fn all_items_written(s: Seq<Seq<BlockView>>) -> bool
    decreases s,
{
    if s.len() == 0 {
        true
    } else {
        all_written(s[0]) && all_items_written(s.drop_first())
    }
}

// ---------------------------------------------------------------------------
// Inlines
// ---------------------------------------------------------------------------
proof fn lemma_run_concat(s: ParserView, a: Seq<EventView>, b: Seq<EventView>)
    ensures
        s.run(a + b) == s.run(a).run(b),
    decreases a.len(),
{
    if a.len() == 0 {
        assert(a + b =~= b);
    } else {
        assert((a + b).drop_first() =~= a.drop_first() + b);
        assert((a + b)[0] == a[0]);
        lemma_run_concat(s.step(a[0]), a.drop_first(), b);
    }
}

proof fn lemma_run_one(s: ParserView, e: EventView)
    ensures
        s.run(seq![e]) == s.step(e),
{
    assert(seq![e].drop_first() =~= Seq::empty());
    assert(s.step(e).run(seq![e].drop_first()) == s.step(e));
}

proof fn lemma_enclosed(s: ParserView, tag: TagView, inner: Seq<EventView>, end: MarkdownTagEnd)
    ensures
        s.run(enclosed(tag, inner, end)) == s.start(tag).run(inner).end(end),
{
    let a = seq![EventView::Start(tag)];
    let c = seq![EventView::End(end)];
    lemma_run_concat(s, a + inner, c);
    lemma_run_concat(s, a, inner);
    lemma_run_one(s, EventView::Start(tag));
    lemma_run_one(s.run(a + inner), EventView::End(end));
}

/// The state with inlines added to the innermost open element, or to the pending block.
spec fn grown(s: ParserView, c: Seq<InlineView>) -> ParserView {
    if s.open.len() > 0 {
        let top = s.open.last();
        ParserView {
            open: s.open.drop_last().push(OpenInlineView { inlines: top.inlines + c, ..top }),
            ..s
        }
    } else {
        ParserView {
            pending: match s.pending {
                Some(p) => Some(PendingView { inlines: p.inlines + c, ..p }),
                None => None,
            },
            ..s
        }
    }
}

spec fn takes_inlines(s: ParserView) -> bool {
    s.table is None && s.code is None && s.pending is Some
}

proof fn lemma_grown_one(s: ParserView, x: InlineView)
    requires
        takes_inlines(s),
    ensures
        s.add_inline(x) == grown(s, seq![x]),
{
    if s.open.len() > 0 {
        let top = s.open.last();
        assert(top.inlines.push(x) =~= top.inlines + seq![x]);
    } else {
        let p = s.pending->0;
        assert(p.inlines.push(x) =~= p.inlines + seq![x]);
    }
}

proof fn lemma_grown_twice(s: ParserView, a: Seq<InlineView>, b: Seq<InlineView>)
    requires
        takes_inlines(s),
    ensures
        grown(grown(s, a), b) == grown(s, a + b),
        takes_inlines(grown(s, a)),
{
    if s.open.len() > 0 {
        let top = s.open.last();
        assert(top.inlines + a + b =~= top.inlines + (a + b));
        assert(grown(s, a).open.drop_last() =~= s.open.drop_last());
    } else {
        let p = s.pending->0;
        assert(p.inlines + a + b =~= p.inlines + (a + b));
    }
}

proof fn lemma_style(
    s: ParserView,
    tag: TagView,
    style: InlineStyle,
    url: Option<Seq<char>>,
    c: Seq<InlineView>,
    end: MarkdownTagEnd,
)
    requires
        takes_inlines(s),
        s.start(tag) == s.open_inline(style, url),
        s.open_inline(style, url).run(inlines_events(c)) == grown(s.open_inline(style, url), c),
        end == MarkdownTagEnd::Emphasis || end == MarkdownTagEnd::Strong || end
            == MarkdownTagEnd::Strikethrough || end == MarkdownTagEnd::Link,
    ensures
        s.run(enclosed(tag, inlines_events(c), end)) == grown(
            s,
            seq![finished(OpenInlineView { style, url, inlines: c })],
        ),
{
    lemma_enclosed(s, tag, inlines_events(c), end);
    let opened = s.open_inline(style, url);
    let full = grown(opened, c);
    assert(Seq::<InlineView>::empty() + c =~= c);
    assert(full.open.last() == (OpenInlineView { style, url, inlines: c }));
    assert(full.open.drop_last() =~= s.open);
    let back = ParserView { open: full.open.drop_last(), ..full };
    assert(back == s);
    lemma_grown_one(s, finished(full.open.last()));
}

proof fn lemma_inline(s: ParserView, x: InlineView)
    requires
        takes_inlines(s),
    ensures
        s.run(inline_events(x)) == grown(s, seq![x]),
    decreases x,
{
    lemma_grown_one(s, x);
    match x {
        InlineView::Text(t) => {
            lemma_run_one(s, EventView::Text(t));
        },
        InlineView::Code(t) => {
            lemma_run_one(s, EventView::Code(t));
        },
        InlineView::LineBreak => {
            lemma_run_one(s, EventView::SoftBreak);
        },
        InlineView::Emphasis(c) => {
            lemma_inlines(s.open_inline(InlineStyle::Emphasis, None), c);
            lemma_style(
                s,
                TagView::Emphasis,
                InlineStyle::Emphasis,
                None,
                c,
                MarkdownTagEnd::Emphasis,
            );
        },
        InlineView::Strong(c) => {
            lemma_inlines(s.open_inline(InlineStyle::Strong, None), c);
            lemma_style(s, TagView::Strong, InlineStyle::Strong, None, c, MarkdownTagEnd::Strong);
        },
        InlineView::Strikethrough(c) => {
            lemma_inlines(s.open_inline(InlineStyle::Strikethrough, None), c);
            lemma_style(
                s,
                TagView::Strikethrough,
                InlineStyle::Strikethrough,
                None,
                c,
                MarkdownTagEnd::Strikethrough,
            );
        },
        InlineView::Link { url, content } => {
            lemma_inlines(s.open_inline(InlineStyle::Link, Some(url)), content);
            lemma_style(
                s,
                TagView::Link(url),
                InlineStyle::Link,
                Some(url),
                content,
                MarkdownTagEnd::Link,
            );
        },
    }
}

proof fn lemma_inlines(s: ParserView, c: Seq<InlineView>)
    requires
        takes_inlines(s),
    ensures
        s.run(inlines_events(c)) == grown(s, c),
    decreases c,
{
    if c.len() == 0 {
        assert(inlines_events(c) =~= Seq::empty());
        if s.open.len() > 0 {
            let top = s.open.last();
            assert(top.inlines + c =~= top.inlines);
            assert(s.open.drop_last().push(top) =~= s.open);
        } else {
            let p = s.pending->0;
            assert(p.inlines + c =~= p.inlines);
        }
    } else {
        let x = c[0];
        lemma_inline(s, x);
        lemma_run_concat(s, inline_events(x), inlines_events(c.drop_first()));
        lemma_grown_twice(s, seq![x], c.drop_first());
        lemma_inlines(grown(s, seq![x]), c.drop_first());
        assert(seq![x] + c.drop_first() =~= c);
    }
}

// ---------------------------------------------------------------------------
// Tables
// ---------------------------------------------------------------------------
proof fn lemma_cells(s: ParserView, t: PendingTableView, row: Seq<Seq<char>>)
    requires
        s.table == Some(t),
        forall|c: int| 0 <= c < row.len() ==> normalized_cell(#[trigger] row[c]) == row[c],
    ensures
        s.run(cells_events(row)) == s.with_table(
            PendingTableView {
                current_row: t.current_row + row,
                current_cell: if row.len() == 0 {
                    t.current_cell
                } else {
                    Seq::empty()
                },
                ..t
            },
        ),
    decreases row.len(),
{
    if row.len() == 0 {
        assert(t.current_row + row =~= t.current_row);
        assert(s.with_table(t) == s);
    } else {
        let x = row[0];
        let inner = seq![EventView::Text(x)];
        let rest = row.drop_first();
        lemma_run_concat(
            s,
            enclosed(TagView::TableCell, inner, MarkdownTagEnd::TableCell),
            cells_events(rest),
        );
        lemma_enclosed(s, TagView::TableCell, inner, MarkdownTagEnd::TableCell);
        let opened = s.start(TagView::TableCell);
        lemma_run_one(opened, EventView::Text(x));
        assert(Seq::<char>::empty() + x =~= x);
        assert(normalized_cell(row[0]) == row[0]);
        let t2 = PendingTableView {
            current_row: t.current_row.push(x),
            current_cell: Seq::empty(),
            ..t
        };
        let s2 = s.run(enclosed(TagView::TableCell, inner, MarkdownTagEnd::TableCell));
        assert(s2 == s.with_table(t2));
        assert forall|c: int| 0 <= c < rest.len() implies normalized_cell(#[trigger] rest[c])
            == rest[c] by {
            assert(rest[c] == row[c + 1]);
        }
        lemma_cells(s2, t2, rest);
        assert(t.current_row.push(x) + rest =~= t.current_row + row);
    }
}

proof fn lemma_rows(s: ParserView, t: PendingTableView, rows: Seq<Seq<Seq<char>>>)
    requires
        s.table == Some(t),
        t.current_row.len() == 0,
        t.current_cell.len() == 0,
        forall|r: int| 0 <= r < rows.len() ==> is_written_row(#[trigger] rows[r]),
    ensures
        s.run(rows_events(rows)) == s.with_table(PendingTableView { rows: t.rows + rows, ..t }),
    decreases rows.len(),
{
    if rows.len() == 0 {
        assert(t.rows + rows =~= t.rows);
        assert(s.with_table(t) == s);
    } else {
        let row = rows[0];
        let rest = rows.drop_first();
        assert(is_written_row(row));
        let e = enclosed(TagView::TableRow, cells_events(row), MarkdownTagEnd::TableRow);
        lemma_run_concat(s, e, rows_events(rest));
        lemma_enclosed(s, TagView::TableRow, cells_events(row), MarkdownTagEnd::TableRow);
        let empty = Seq::<Seq<char>>::empty();
        let opened = s.start(TagView::TableRow);
        let t1 = PendingTableView { current_row: empty, ..t };
        assert(opened == s.with_table(t1));
        lemma_cells(opened, t1, row);
        assert(empty + row =~= row);
        let t2 = PendingTableView { rows: t.rows.push(row), current_row: empty, ..t };
        assert(t.current_cell =~= Seq::empty());
        assert(s.run(e) == s.with_table(t2));
        assert forall|r: int| 0 <= r < rest.len() implies is_written_row(#[trigger] rest[r]) by {
            assert(rest[r] == rows[r + 1]);
        }
        assert(t.current_row =~= empty);
        lemma_rows(s.run(e), t2, rest);
        assert(t.rows.push(row) + rest =~= t.rows + rows);
    }
}

// ---------------------------------------------------------------------------
// Blocks
// ---------------------------------------------------------------------------
spec fn is_between(s: ParserView) -> bool {
    &&& s.table is None && s.code is None && s.pending is None && s.open.len() == 0
    &&& s.language is None
    &&& s.containers.len() > 0
}

spec fn takes_blocks(s: ParserView) -> bool {
    is_between(s) && !(s.containers.last() is List)
}

spec fn extended(c: ContainerView, b: Seq<BlockView>) -> ContainerView {
    match c {
        ContainerView::Root(blocks) => ContainerView::Root(blocks + b),
        ContainerView::BlockQuote(blocks) => ContainerView::BlockQuote(blocks + b),
        ContainerView::ListItem(blocks) => ContainerView::ListItem(blocks + b),
        ContainerView::List { start, items } => c,
    }
}

spec fn filled(s: ParserView, b: Seq<BlockView>) -> ParserView {
    ParserView {
        containers: s.containers.drop_last().push(extended(s.containers.last(), b)),
        ..s
    }
}

proof fn lemma_filled_one(s: ParserView, b: BlockView)
    requires
        takes_blocks(s),
    ensures
        s.add_block(b) == filled(s, seq![b]),
        s.flushed() == s,
{
    assert(s.close_inlines() == s);
    match s.containers.last() {
        ContainerView::Root(blocks) => {
            assert(blocks.push(b) =~= blocks + seq![b]);
        },
        ContainerView::BlockQuote(blocks) => {
            assert(blocks.push(b) =~= blocks + seq![b]);
        },
        ContainerView::ListItem(blocks) => {
            assert(blocks.push(b) =~= blocks + seq![b]);
        },
        _ => {},
    }
}

proof fn lemma_filled_twice(s: ParserView, a: Seq<BlockView>, b: Seq<BlockView>)
    requires
        takes_blocks(s),
    ensures
        filled(filled(s, a), b) == filled(s, a + b),
        takes_blocks(filled(s, a)),
{
    let one = filled(s, a);
    assert(one.containers.drop_last() =~= s.containers.drop_last());
    match s.containers.last() {
        ContainerView::Root(blocks) => {
            assert(blocks + a + b =~= blocks + (a + b));
        },
        ContainerView::BlockQuote(blocks) => {
            assert(blocks + a + b =~= blocks + (a + b));
        },
        ContainerView::ListItem(blocks) => {
            assert(blocks + a + b =~= blocks + (a + b));
        },
        _ => {},
    }
}

proof fn lemma_inline_block(
    s: ParserView,
    tag: TagView,
    kind: PendingBlockKind,
    c: Seq<InlineView>,
    end: MarkdownTagEnd,
)
    requires
        takes_blocks(s),
        c.len() > 0,
        s.start(tag) == s.begin_block(kind),
        end == MarkdownTagEnd::Paragraph || end == MarkdownTagEnd::Heading,
    ensures
        s.run(enclosed(tag, inlines_events(c), end)) == s.add_block(inline_block(kind, c)),
{
    lemma_filled_one(s, inline_block(kind, c));
    lemma_enclosed(s, tag, inlines_events(c), end);
    let opened = s.begin_block(kind);
    lemma_inlines(opened, c);
    assert(Seq::<InlineView>::empty() + c =~= c);
    let full = grown(opened, c);
    assert(full.close_inlines() == full);
    assert(full.pending == Some(PendingView { kind, inlines: c }));
    let closed = ParserView { pending: None, ..full };
    assert(closed == s);
}

proof fn lemma_block(s: ParserView, x: BlockView)
    requires
        takes_blocks(s),
        is_written(x),
    ensures
        s.run(block_events(x)) == filled(s, seq![x]),
    decreases x,
{
    lemma_filled_one(s, x);
    match x {
        BlockView::Paragraph(c) => {
            lemma_inline_block(
                s,
                TagView::Paragraph,
                PendingBlockKind::Paragraph,
                c,
                MarkdownTagEnd::Paragraph,
            );
        },
        BlockView::Heading(c) => {
            lemma_inline_block(
                s,
                TagView::Heading,
                PendingBlockKind::Heading,
                c,
                MarkdownTagEnd::Heading,
            );
        },
        BlockView::BlockQuote(inner) => {
            lemma_enclosed(
                s,
                TagView::BlockQuote,
                blocks_events(inner),
                MarkdownTagEnd::BlockQuote,
            );
            let opened = s.start(TagView::BlockQuote);
            lemma_blocks(opened, inner);
            let full = filled(opened, inner);
            assert(Seq::<BlockView>::empty() + inner =~= inner);
            assert(full.containers.last() == ContainerView::BlockQuote(inner));
            assert(full.close_inlines() == full);
            assert(full.containers.drop_last() =~= s.containers);
            assert(full.without_container() == s);
        },
        BlockView::List { start, items } => {
            lemma_enclosed(s, TagView::List(start), items_events(items), MarkdownTagEnd::List);
            let opened = s.start(TagView::List(start));
            lemma_items(opened, start, Seq::empty(), items);
            let full = ParserView {
                containers: opened.containers.drop_last().push(
                    ContainerView::List { start, items: Seq::empty() + items },
                ),
                ..opened
            };
            assert(Seq::<Seq<BlockView>>::empty() + items =~= items);
            assert(full.close_inlines() == full);
            assert(full.containers.drop_last() =~= s.containers);
            assert(full.without_container() == s);
        },
        BlockView::CodeBlock { language, code } => {
            let tag = match language {
                Some(l) => TagView::Fence(l),
                None => TagView::IndentedCode,
            };
            let inner = seq![EventView::Text(code)];
            lemma_enclosed(s, tag, inner, MarkdownTagEnd::CodeBlock);
            if let Some(l) = language {
                let e = Seq::<char>::empty();
                trimming_drops_the_space_around(e, l, e);
                assert(e + l + e =~= l);
            }
            let opened = s.start(tag);
            lemma_run_one(opened, EventView::Text(code));
            assert(Seq::<char>::empty() + code =~= code);
            let full = opened.run(inner);
            let closed = ParserView { language: None, code: None, ..full };
            assert(closed == s);
        },
        BlockView::Table(table) => {
            lemma_table(s, table);
        },
        BlockView::ThematicBreak => {
            lemma_run_one(s, EventView::Rule);
        },
    }
}

proof fn lemma_table(s: ParserView, table: TableView)
    requires
        takes_blocks(s),
        is_written(BlockView::Table(table)),
    ensures
        s.run(table_events(table.rows)) == s.add_block(BlockView::Table(table)),
{
    let rows = table.rows;
    let head = rows[0];
    let rest = rows.drop_first();
    assert(is_written_row(head));
    let h = enclosed(TagView::TableHead, cells_events(head), MarkdownTagEnd::TableHead);
    lemma_filled_one(s, BlockView::Table(table));
    lemma_enclosed(s, TagView::Table, h + rows_events(rest), MarkdownTagEnd::Table);
    let opened = s.start(TagView::Table);
    let t0 = empty_table();
    assert(opened.table == Some(t0));
    lemma_run_concat(opened, h, rows_events(rest));
    lemma_enclosed(opened, TagView::TableHead, cells_events(head), MarkdownTagEnd::TableHead);
    lemma_cells(opened, t0, head);
    let empty = Seq::<Seq<char>>::empty();
    assert(empty + head =~= head);
    let t1 = PendingTableView {
        rows: t0.rows.push(head),
        current_row: empty,
        current_cell: Seq::empty(),
        header_rows: 1,
    };
    assert(opened.run(h) == opened.with_table(t1));
    assert forall|r: int| 0 <= r < rest.len() implies is_written_row(#[trigger] rest[r]) by {
        assert(rest[r] == rows[r + 1]);
    }
    lemma_rows(opened.run(h), t1, rest);
    assert(t0.rows.push(head) + rest =~= rows);
    let full = opened.run(h + rows_events(rest));
    let closed = ParserView { table: None, ..full };
    assert(closed == s);
}

proof fn lemma_blocks(s: ParserView, b: Seq<BlockView>)
    requires
        takes_blocks(s),
        all_written(b),
    ensures
        s.run(blocks_events(b)) == filled(s, b),
    decreases b,
{
    if b.len() == 0 {
        assert(blocks_events(b) =~= Seq::empty());
        assert(s.containers.drop_last().push(s.containers.last()) =~= s.containers);
        match s.containers.last() {
            ContainerView::Root(blocks) => {
                assert(blocks + b =~= blocks);
            },
            ContainerView::BlockQuote(blocks) => {
                assert(blocks + b =~= blocks);
            },
            ContainerView::ListItem(blocks) => {
                assert(blocks + b =~= blocks);
            },
            _ => {},
        }
    } else {
        let x = b[0];
        lemma_block(s, x);
        lemma_run_concat(s, block_events(x), blocks_events(b.drop_first()));
        lemma_filled_twice(s, seq![x], b.drop_first());
        lemma_blocks(filled(s, seq![x]), b.drop_first());
        assert(seq![x] + b.drop_first() =~= b);
    }
}

proof fn lemma_items(
    s: ParserView,
    start: Option<u64>,
    before: Seq<Seq<BlockView>>,
    items: Seq<Seq<BlockView>>,
)
    requires
        is_between(s),
        s.containers.last() == (ContainerView::List { start, items: before }),
        all_items_written(items),
    ensures
        s.run(items_events(items)) == (ParserView {
            containers: s.containers.drop_last().push(
                ContainerView::List { start, items: before + items },
            ),
            ..s
        }),
    decreases items,
{
    if items.len() == 0 {
        assert(items_events(items) =~= Seq::empty());
        assert(before + items =~= before);
        assert(s.containers.drop_last().push(s.containers.last()) =~= s.containers);
    } else {
        let item = items[0];
        let e = enclosed(TagView::Item, blocks_events(item), MarkdownTagEnd::Item);
        lemma_run_concat(s, e, items_events(items.drop_first()));
        lemma_enclosed(s, TagView::Item, blocks_events(item), MarkdownTagEnd::Item);
        assert(s.close_inlines() == s);
        let opened = s.start(TagView::Item);
        lemma_blocks(opened, item);
        let full = filled(opened, item);
        assert(Seq::<BlockView>::empty() + item =~= item);
        assert(full.containers.last() == ContainerView::ListItem(item));
        assert(full.close_inlines() == full);
        assert(full.containers.drop_last() =~= s.containers);
        assert(full.without_container() == s);
        let next = s.run(e);
        assert(next == (ParserView {
            containers: s.containers.drop_last().push(
                ContainerView::List { start, items: before.push(item) },
            ),
            ..s
        }));
        lemma_items(next, start, before.push(item), items.drop_first());
        assert(before.push(item) + items.drop_first() =~= before + items);
        assert(next.containers.drop_last() =~= s.containers.drop_last());
    }
}

/// The events that describe a document give the document back: every paragraph, heading,
/// quote, list, table and block of code, with all that it holds, in order and nested as it
/// was.
pub proof fn document_is_read_back(blocks: Seq<BlockView>)
    requires
        all_written(blocks),
    ensures
        document_blocks(blocks_events(blocks)) == blocks,
{
    let s = ParserView::initial();
    lemma_blocks(s, blocks);
    let full = filled(s, blocks);
    assert(full.close_inlines() == full);
    assert(Seq::<BlockView>::empty() + blocks =~= blocks);
}

/// Formulas, raw HTML, footnotes and the boxes of tasks become text or code of their own.
pub proof fn other_events_become_text(t: Seq<char>, checked: bool)
    ensures
        document_blocks(seq![EventView::InlineMath(t)]) == seq![
            BlockView::Paragraph(seq![InlineView::Code(t)]),
        ],
        document_blocks(seq![EventView::DisplayMath(t)]) == seq![
            BlockView::CodeBlock { language: None, code: t },
        ],
        document_blocks(seq![EventView::Html(t)]) == seq![
            BlockView::Paragraph(seq![InlineView::Text(t)]),
        ],
        document_blocks(seq![EventView::InlineHtml(t)]) == seq![
            BlockView::Paragraph(seq![InlineView::Text(t)]),
        ],
        document_blocks(seq![EventView::FootnoteReference(t)]) == seq![
            BlockView::Paragraph(seq![InlineView::Text("["@ + t + "]"@)]),
        ],
        document_blocks(seq![EventView::TaskListMarker(checked)]) == seq![
            BlockView::Paragraph(
                seq![InlineView::Text(if checked { "☑ "@ } else { "☐ "@ })],
            ),
        ],
        document_blocks(seq![EventView::Text(t), EventView::HardBreak, EventView::Text(t)]) == seq![
            BlockView::Paragraph(
                seq![InlineView::Text(t), InlineView::LineBreak, InlineView::Text(t)],
            ),
        ],
{
    let s = ParserView::initial();
    lemma_run_one(s, EventView::InlineMath(t));
    lemma_run_one(s, EventView::DisplayMath(t));
    lemma_run_one(s, EventView::Html(t));
    lemma_run_one(s, EventView::InlineHtml(t));
    lemma_run_one(s, EventView::FootnoteReference(t));
    lemma_run_one(s, EventView::TaskListMarker(checked));
    lemma_lone(InlineView::Code(t));
    lemma_lone(InlineView::Text(t));
    lemma_lone(InlineView::Text("["@ + t + "]"@));
    lemma_lone(InlineView::Text(if checked { "☑ "@ } else { "☐ "@ }));
    assert(s.close_inlines() == s);
    let code = BlockView::CodeBlock { language: None, code: t };
    let shown = s.add_block(code);
    assert(shown.close_inlines() == shown);
    assert(shown.containers.last() == ContainerView::Root(seq![code])) by {
        assert(Seq::<BlockView>::empty().push(code) =~= seq![code]);
    }
    let events = seq![EventView::Text(t), EventView::HardBreak, EventView::Text(t)];
    let (a, b) = (seq![EventView::Text(t)], seq![EventView::HardBreak]);
    assert(events =~= a + b + a);
    lemma_run_concat(s, a + b, a);
    lemma_run_concat(s, a, b);
    let s1 = s.add_inline(InlineView::Text(t));
    let s2 = s1.add_inline(InlineView::LineBreak);
    let s3 = s2.add_inline(InlineView::Text(t));
    lemma_run_one(s, EventView::Text(t));
    lemma_run_one(s1, EventView::HardBreak);
    lemma_run_one(s2, EventView::Text(t));
    let c = seq![InlineView::Text(t), InlineView::LineBreak, InlineView::Text(t)];
    assert(s3.close_inlines() == s3);
    assert(s3.pending->0.inlines =~= c);
    let p = BlockView::Paragraph(c);
    assert(Seq::<BlockView>::empty().push(p) =~= seq![p]);
}

proof fn lemma_lone(x: InlineView)
    ensures
        ({
            let s = ParserView::initial().add_inline(x).flushed();
            s.containers.len() > 0 && s.containers.last() == ContainerView::Root(
                seq![BlockView::Paragraph(seq![x])],
            )
        }),
{
    let s = ParserView::initial().add_inline(x);
    assert(s.close_inlines() == s);
    assert(s.pending->0.inlines =~= seq![x]);
    let p = BlockView::Paragraph(seq![x]);
    assert(Seq::<BlockView>::empty().push(p) =~= seq![p]);
}

/// A line break in a cell of a table is one space between the texts around it.
pub proof fn break_in_a_cell_is_a_space(t: PendingTableView, a: Seq<char>, b: Seq<char>)
    requires
        t.current_cell.len() == 0,
        a.len() > 0 && a.last() != ' ',
    ensures
        t.with_text(a).with_break().with_text(b).current_cell == a + seq![' '] + b,
        t.with_text(a).with_break().with_break().with_text(b).current_cell == a + seq![' '] + b,
{
    assert(t.current_cell + a =~= a);
    assert(a.push(' ') =~= a + seq![' ']);
}

} // verus!

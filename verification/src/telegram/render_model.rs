//! What a rich document looks like as Telegram text with entities.

use vstd::prelude::*;
use crate::number::decimal;
use crate::text::{find_char, leading_space, trimmed};
use crate::utf16::utf16;
use crate::words::join_seq;
use super::rich::{BlockView, InlineView, TableView};

verus! {

/// A range of the text with a meaning; offset and length count UTF-16 code units.
pub struct EntityView {
    pub kind: Seq<char>,
    pub offset: nat,
    pub length: nat,
    pub url: Option<Seq<char>>,
    pub language: Option<Seq<char>>,
}

/// Text and its entities.
pub struct Rendered {
    pub text: Seq<char>,
    pub entities: Seq<EntityView>,
}

/// `s` repeated `n` times.
pub open spec fn repeated(s: Seq<char>, n: nat) -> Seq<char>
    decreases n,
{
    if n == 0 {
        Seq::empty()
    } else {
        repeated(s, (n - 1) as nat) + s
    }
}

/// The number of line feeds.
pub open spec fn line_feeds(s: Seq<char>) -> nat
    decreases s.len(),
{
    if s.len() == 0 {
        0
    } else {
        line_feeds(s.drop_last()) + (if s.last() == '\n' {
            1nat
        } else {
            0
        })
    }
}

/// The number of lines; a line feed at the end opens no further line.
pub open spec fn line_count(s: Seq<char>) -> nat {
    if s.len() == 0 || s.last() == '\n' {
        line_feeds(s)
    } else {
        line_feeds(s) + 1
    }
}

pub open spec fn entity_within(e: EntityView, from: nat, to: nat) -> bool {
    from <= e.offset && e.offset + e.length <= to
}

impl Rendered {
    pub open spec fn empty() -> Self {
        Rendered { text: Seq::empty(), entities: Seq::empty() }
    }

    pub open spec fn push(self, t: Seq<char>) -> Self {
        Rendered { text: self.text + t, ..self }
    }

    /// Every entity lies inside the text.
    pub open spec fn inside(self) -> bool {
        forall|i: int|
            0 <= i < self.entities.len() ==> entity_within(
                #[trigger] self.entities[i],
                0,
                utf16(self.text),
            )
    }

    /// Every entity covers some text.
    pub open spec fn filled(self) -> bool {
        forall|i: int|
            0 <= i < self.entities.len() ==> (#[trigger] self.entities[i]).length > 0
    }

    /// Adds an entity over the text since `start`, without the white space at its two
    /// ends; none when nothing else is there.
    pub open spec fn entity(
        self,
        start: nat,
        kind: Seq<char>,
        url: Option<Seq<char>>,
        language: Option<Seq<char>>,
    ) -> Self {
        let slice = self.text.skip(start as int);
        if trimmed(slice).len() == 0 {
            self
        } else {
            Rendered {
                entities: self.entities.push(
                    EntityView {
                        kind,
                        offset: utf16(self.text.take(start + leading_space(slice))),
                        length: utf16(trimmed(slice)),
                        url,
                        language,
                    },
                ),
                ..self
            }
        }
    }

    pub open spec fn has_entity_since(self, start: nat) -> bool {
        exists|i: int|
            0 <= i < self.entities.len() && entity_within(
                #[trigger] self.entities[i],
                utf16(self.text.take(start as int)),
                utf16(self.text),
            )
    }

    pub open spec fn has_code_since(self, start: nat) -> bool {
        exists|i: int|
            0 <= i < self.entities.len() && entity_within(
                #[trigger] self.entities[i],
                utf16(self.text.take(start as int)),
                utf16(self.text),
            ) && (self.entities[i].kind == "code"@ || self.entities[i].kind == "pre"@)
    }

    /// A bold, italic or struck range; not laid around code.
    pub open spec fn styled(self, start: nat, kind: Seq<char>) -> Self {
        if self.has_code_since(start) {
            self
        } else {
            self.entity(start, kind, None, None)
        }
    }

    /// The marks of a quote inside a quote, at the start of a line.
    pub open spec fn quote_marks(self, depth: nat) -> Self {
        if depth > 1 && (self.text.len() == 0 || self.text.last() == '\n') {
            self.push(repeated("> "@, (depth - 1) as nat))
        } else {
            self
        }
    }

    /// Text, with the quote marks before each of its lines.
    pub open spec fn lines(self, t: Seq<char>, depth: nat) -> Self
        decreases t.len(),
    {
        if t.len() == 0 {
            self
        } else {
            let i = find_char(t, '\n');
            if 0 <= i < t.len() {
                self.quote_marks(depth).push(t.take(i + 1)).lines(t.skip(i + 1), depth)
            } else {
                self.quote_marks(depth).push(t)
            }
        }
    }

    /// The break before a block.
    pub open spec fn block_break(self, due: bool) -> Self {
        Rendered { text: broken_text(self.text, due), ..self }
    }
}

/// A text with the break before a block: an empty line where one is due, else a new line.
pub open spec fn broken_text(t: Seq<char>, due: bool) -> Seq<char> {
    if t.len() == 0 {
        t
    } else if due {
        if "\n\n"@.is_suffix_of(t) {
            t
        } else if t.last() == '\n' {
            t + "\n"@
        } else {
            t + "\n\n"@
        }
    } else if t.last() != '\n' {
        t + "\n"@
    } else {
        t
    }
}

/// The depth inside one more quote.
pub open spec fn deeper(depth: nat) -> nat {
    if depth < usize::MAX {
        depth + 1
    } else {
        depth
    }
}

pub open spec fn render_inline(x: InlineView, b: Rendered, depth: nat) -> Rendered
    decreases x,
{
    let start = b.text.len();
    match x {
        InlineView::Text(t) => b.lines(t, depth),
        InlineView::Emphasis(c) => render_inlines(c, b, depth).styled(start, "italic"@),
        InlineView::Strong(c) => render_inlines(c, b, depth).styled(start, "bold"@),
        InlineView::Strikethrough(c) => render_inlines(c, b, depth).styled(
            start,
            "strikethrough"@,
        ),
        InlineView::Link { url, content } => {
            let r = render_inlines(content, b, depth);
            if r.has_entity_since(start) {
                r
            } else {
                r.entity(start, "text_link"@, Some(url), None)
            }
        },
        InlineView::Code(t) => b.push(t).entity(start, "code"@, None, None),
        InlineView::LineBreak => b.push("\n"@),
    }
}

pub open spec fn render_inlines(s: Seq<InlineView>, b: Rendered, depth: nat) -> Rendered
    decreases s,
{
    if s.len() == 0 {
        b
    } else {
        render_inlines(s.drop_first(), render_inline(s[0], b, depth), depth)
    }
}

// ---------------------------------------------------------------------------
// Tables
// ---------------------------------------------------------------------------
/// The number of columns: the length of the longest row.
pub open spec fn column_count(rows: Seq<Seq<Seq<char>>>) -> nat
    decreases rows.len(),
{
    if rows.len() == 0 {
        0
    } else {
        let n = column_count(rows.drop_last());
        if rows.last().len() > n {
            rows.last().len()
        } else {
            n
        }
    }
}

/// The cell of a row, empty where the row is short.
pub open spec fn cell(row: Seq<Seq<char>>, column: int) -> Seq<char> {
    if 0 <= column < row.len() {
        row[column]
    } else {
        Seq::empty()
    }
}

/// The width of a column: the length of its longest cell.
pub open spec fn column_width(rows: Seq<Seq<Seq<char>>>, column: int) -> nat
    decreases rows.len(),
{
    if rows.len() == 0 {
        0
    } else {
        let n = column_width(rows.drop_last(), column);
        if cell(rows.last(), column).len() > n {
            cell(rows.last(), column).len()
        } else {
            n
        }
    }
}

pub open spec fn column_widths(rows: Seq<Seq<Seq<char>>>) -> Seq<nat> {
    Seq::new(column_count(rows), |c: int| column_width(rows, c))
}

pub open spec fn padded(value: Seq<char>, width: nat) -> Seq<char> {
    if value.len() >= width {
        value
    } else {
        value + repeated(" "@, (width - value.len()) as nat)
    }
}

pub open spec fn row_cells(row: Seq<Seq<char>>, widths: Seq<nat>) -> Seq<Seq<char>> {
    Seq::new(widths.len(), |c: int| padded(cell(row, c), widths[c]))
}

pub open spec fn row_line(row: Seq<Seq<char>>, widths: Seq<nat>) -> Seq<char> {
    join_seq(row_cells(row, widths), " | "@)
}

pub open spec fn rule_cells(widths: Seq<nat>) -> Seq<Seq<char>> {
    Seq::new(widths.len(), |c: int| repeated("─"@, widths[c]))
}

pub open spec fn rule_line(widths: Seq<nat>) -> Seq<char> {
    join_seq(rule_cells(widths), "─┼─"@)
}

/// The lines of the first `n` rows, with a rule below the head.
pub open spec fn table_lines(table: TableView, widths: Seq<nat>, n: nat) -> Seq<Seq<char>>
    decreases n,
{
    if n == 0 {
        Seq::empty()
    } else {
        let lines = table_lines(table, widths, (n - 1) as nat).push(
            row_line(table.rows[n - 1], widths),
        );
        if table.header_rows == n {
            lines.push(rule_line(widths))
        } else {
            lines
        }
    }
}

pub open spec fn table_text(table: TableView) -> Seq<char> {
    if column_count(table.rows) == 0 {
        Seq::empty()
    } else {
        join_seq(table_lines(table, column_widths(table.rows), table.rows.len()), "\n"@)
    }
}

// ---------------------------------------------------------------------------
// Blocks
// ---------------------------------------------------------------------------
pub open spec fn is_long_block(t: Seq<char>) -> bool {
    line_count(t) >= 15 || t.len() >= 600
}

pub open spec fn quote_kind(t: Seq<char>) -> Seq<char> {
    if line_count(t) >= 6 || t.len() >= 360 {
        "expandable_blockquote"@
    } else {
        "blockquote"@
    }
}

/// Preformatted text; long text outside a quote can be folded.
pub open spec fn preformatted(
    b: Rendered,
    t: Seq<char>,
    language: Option<Seq<char>>,
    fold: bool,
) -> Rendered {
    let start = b.text.len();
    let r = b.push(t).entity(start, "pre"@, None, language);
    if fold {
        r.entity(start, "expandable_blockquote"@, None, None)
    } else {
        r
    }
}

/// Renders one block; `due` says whether an empty line is due before it. The second
/// result says so for the block that follows.
pub open spec fn render_block(x: BlockView, b: Rendered, due: bool, depth: nat) -> (Rendered, bool)
    decreases x,
{
    let at = b.block_break(due);
    let marked = at.quote_marks(depth);
    match x {
        BlockView::Paragraph(c) => (render_inlines(c, marked, depth), true),
        BlockView::Heading(c) => (
            render_inlines(c, marked, depth).styled(marked.text.len(), "bold"@),
            true,
        ),
        BlockView::BlockQuote(inner) => {
            let (r, next) = render_blocks(inner, at, false, deeper(depth));
            if depth == 0 {
                let start = at.text.len();
                (r.entity(start, quote_kind(r.text.skip(start as int)), None, None), next)
            } else {
                (r, next)
            }
        },
        BlockView::List { start, items } => (render_items(start, items, 0, marked, depth), true),
        BlockView::CodeBlock { language, code } => (
            preformatted(marked, code, language, depth == 0 && is_long_block(code)),
            true,
        ),
        BlockView::Table(table) => (
            preformatted(
                marked,
                table_text(table),
                None,
                depth == 0 && is_long_block(table_text(table)),
            ),
            true,
        ),
        BlockView::ThematicBreak => (marked.push("──────────"@), true),
    }
}

pub open spec fn render_blocks(s: Seq<BlockView>, b: Rendered, due: bool, depth: nat) -> (
    Rendered,
    bool,
)
    decreases s,
{
    if s.len() == 0 {
        (b, due)
    } else {
        let (r, next) = render_block(s[0], b, due, depth);
        render_blocks(s.drop_first(), r, next, depth)
    }
}

/// The mark of the list item at `index`: a bullet, or its number in an ordered list
/// (counted modulo 2^64).
pub open spec fn item_mark(start: Option<u64>, index: nat) -> Seq<char> {
    match start {
        Some(n) => decimal(((n + index) % 0x1_0000_0000_0000_0000) as nat) + ". "@,
        None => "• "@,
    }
}

/// Renders the items of a list, of which the first has the given index.
pub open spec fn render_items(
    start: Option<u64>,
    items: Seq<Seq<BlockView>>,
    index: nat,
    b: Rendered,
    depth: nat,
) -> Rendered
    decreases items,
{
    if items.len() == 0 {
        b
    } else {
        let at = if index > 0 && !(b.text.len() > 0 && b.text.last() == '\n') {
            b.push("\n"@)
        } else {
            b
        };
        let marked = at.quote_marks(depth).push(item_mark(start, index));
        render_items(
            start,
            items.drop_first(),
            index + 1,
            render_item(items[0], marked, depth),
            depth,
        )
    }
}

/// Renders one list item: its first block stands behind the mark.
pub open spec fn render_item(item: Seq<BlockView>, b: Rendered, depth: nat) -> Rendered
    decreases item,
{
    if item.len() == 0 {
        b
    } else if item.len() == 1 {
        render_first(item[0], b, depth)
    } else {
        render_blocks(item.drop_first(), render_first(item[0], b, depth), true, depth).0
    }
}

pub open spec fn render_first(x: BlockView, b: Rendered, depth: nat) -> Rendered
    decreases x,
{
    match x {
        BlockView::Paragraph(c) => render_inlines(c, b, depth),
        BlockView::Heading(c) => render_inlines(c, b, depth).styled(b.text.len(), "bold"@),
        BlockView::CodeBlock { language, code } => preformatted(
            b.push("\n"@).quote_marks(depth),
            code,
            language,
            false,
        ),
        BlockView::Table(table) => preformatted(
            b.push("\n"@).quote_marks(depth),
            table_text(table),
            None,
            false,
        ),
        BlockView::ThematicBreak => b.push("──────────"@),
        BlockView::BlockQuote(inner) => render_blocks(inner, b, false, deeper(depth)).0,
        BlockView::List { start, items } => render_items(start, items, 0, b.push("\n"@), depth),
    }
}

// ---------------------------------------------------------------------------
// The order of entities
// ---------------------------------------------------------------------------
/// Entities are ordered by where they start; of two that start together the longer
/// comes first.
pub open spec fn entity_before(a: EntityView, b: EntityView) -> bool {
    a.offset < b.offset || (a.offset == b.offset && a.length > b.length)
}

/// The place of `e` in an ordered row: behind everything that does not come after it.
pub open spec fn entity_place(s: Seq<EntityView>, e: EntityView) -> int
    decreases s.len(),
{
    if s.len() > 0 && entity_before(e, s.last()) {
        entity_place(s.drop_last(), e)
    } else {
        s.len() as int
    }
}

/// The entities in order; equal ones keep their order.
pub open spec fn entities_sorted(s: Seq<EntityView>) -> Seq<EntityView>
    decreases s.len(),
{
    if s.len() == 0 {
        s
    } else {
        let t = entities_sorted(s.drop_last());
        t.insert(entity_place(t, s.last()), s.last())
    }
}

/// A document as text and ordered entities.
pub open spec fn render_document(blocks: Seq<BlockView>) -> Rendered {
    let r = render_blocks(blocks, Rendered::empty(), false, 0).0;
    Rendered { text: r.text, entities: entities_sorted(r.entities) }
}

/// The length of a document as Telegram counts it.
pub open spec fn rendered_length(blocks: Seq<BlockView>) -> nat {
    utf16(render_blocks(blocks, Rendered::empty(), false, 0).0.text)
}

} // verus!

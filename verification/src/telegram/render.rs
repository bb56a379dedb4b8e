//! Rendering rich documents as Telegram text with entities.

use vstd::prelude::*;
use crate::number::decimal_text;
use crate::text::{
    cat2, chars_of, ends_with, ends_with_char, find_char, is_char, lemma_position, opt_copy,
    opt_view, string_range, text_eq, trim_range, views,
};
use crate::utf16::{utf16, utf16_len};
use crate::words::join;
use super::render_model::{
    broken_text, cell, column_count, column_width, column_widths, entities_sorted, entity_place, entity_within,
    is_long_block, item_mark, line_count, line_feeds, padded, preformatted, quote_kind,
    render_block, render_blocks, render_document, render_first, render_inline, render_inlines,
    render_item, render_items, rendered_length, repeated, row_cells, row_line, rule_cells,
    rule_line, table_lines, table_text, EntityView, Rendered,
};
use super::rich::{
    blocks_view, group_rich_views, inlines_view, items_view, rows_view, RichBlock, RichDocument,
    RichInline, RichTable,
};

verus! {

broadcast use group_rich_views;

/// A range of a message's text with a meaning, in UTF-16 code units.
#[derive(Debug)]
pub struct TelegramMessageEntity {
    pub kind: String,
    pub offset: usize,
    pub length: usize,
    pub url: Option<String>,
    pub language: Option<String>,
}

impl TelegramMessageEntity {
    pub open spec fn view(self) -> EntityView {
        EntityView {
            kind: self.kind@,
            offset: self.offset as nat,
            length: self.length as nat,
            url: opt_view(self.url),
            language: opt_view(self.language),
        }
    }
}

pub open spec fn entities_view(s: Seq<TelegramMessageEntity>) -> Seq<EntityView> {
    s.map_values(|e: TelegramMessageEntity| e@)
}

/// A message's text and its entities.
#[derive(Debug)]
pub struct TelegramRenderedText {
    pub text: String,
    pub entities: Vec<TelegramMessageEntity>,
}

impl TelegramRenderedText {
    pub open spec fn view(self) -> Rendered {
        Rendered { text: self.text@, entities: entities_view(self.entities@) }
    }
}

fn repeat_text(s: &str, n: usize) -> (r: String)
    ensures
        r@ == repeated(s@, n as nat),
{
    let mut r: String = String::new();
    let mut i: usize = 0;
    while i < n
        invariant
            i <= n,
            r@ == repeated(s@, i as nat),
        decreases n - i,
    {
        r.append(s);
        i += 1;
    }
    r
}

fn count_lines(text: &str) -> (n: usize)
    ensures
        n == line_count(text@),
{
    let chars: Vec<char> = chars_of(text);
    let mut n: usize = 0;
    let mut i: usize = 0;
    assert(text@.take(0) =~= Seq::empty());
    while i < chars.len()
        invariant
            i <= chars@.len(),
            chars@ == text@,
            n == line_feeds(text@.take(i as int)),
            n <= i,
        decreases chars@.len() - i,
    {
        assert(text@.take(i + 1).drop_last() =~= text@.take(i as int));
        if chars[i] == '\n' {
            n += 1;
        }
        i += 1;
    }
    assert(text@.take(text@.len() as int) =~= text@);
    if chars.len() == 0 || chars[chars.len() - 1] == '\n' {
        n
    } else {
        proof {
            assert(line_feeds(text@) == line_feeds(text@.drop_last()));
            lemma_line_feeds_bound(text@.drop_last());
        }
        n + 1
    }
}

proof fn lemma_line_feeds_bound(s: Seq<char>)
    ensures
        line_feeds(s) <= s.len(),
    decreases s.len(),
{
    if s.len() > 0 {
        lemma_line_feeds_bound(s.drop_last());
    }
}

fn is_long(text: &str) -> (b: bool)
    ensures
        b == is_long_block(text@),
{
    count_lines(text) >= 15 || text.unicode_len() >= 600
}

fn classify_blockquote_entity(text: &str) -> (r: &'static str)
    ensures
        r@ == quote_kind(text@),
{
    if count_lines(text) >= 6 || text.unicode_len() >= 360 {
        "expandable_blockquote"
    } else {
        "blockquote"
    }
}

// ---------------------------------------------------------------------------
// Tables
// ---------------------------------------------------------------------------
fn pad_table_cell(value: &str, width: usize) -> (r: String)
    ensures
        r@ == padded(value@, width as nat),
{
    let n: usize = value.unicode_len();
    if n >= width {
        value.to_owned()
    } else {
        let pad: String = repeat_text(" ", width - n);
        cat2(value, pad.as_str())
    }
}

fn count_columns(rows: &Vec<Vec<String>>) -> (n: usize)
    ensures
        n == column_count(rows_view(rows@)),
{
    let ghost all = rows_view(rows@);
    let mut n: usize = 0;
    let mut i: usize = 0;
    assert(all.take(0) =~= Seq::empty());
    while i < rows.len()
        invariant
            i <= rows@.len(),
            all == rows_view(rows@),
            n == column_count(all.take(i as int)),
        decreases rows@.len() - i,
    {
        assert(all.take(i + 1).drop_last() =~= all.take(i as int));
        assert(all.take(i + 1).last() == views(rows@[i as int]@));
        if rows[i].len() > n {
            n = rows[i].len();
        }
        i += 1;
    }
    assert(all.take(all.len() as int) =~= all);
    n
}

fn cell_of(row: &Vec<String>, column: usize) -> (r: &str)
    ensures
        r@ == cell(views(row@), column as int),
{
    if column < row.len() {
        row[column].as_str()
    } else {
        proof {
            reveal_strlit("");
            assert(""@ =~= Seq::empty());
        }
        ""
    }
}

fn width_of(rows: &Vec<Vec<String>>, column: usize) -> (n: usize)
    ensures
        n == column_width(rows_view(rows@), column as int),
{
    let ghost all = rows_view(rows@);
    let mut n: usize = 0;
    let mut i: usize = 0;
    assert(all.take(0) =~= Seq::empty());
    while i < rows.len()
        invariant
            i <= rows@.len(),
            all == rows_view(rows@),
            n == column_width(all.take(i as int), column as int),
        decreases rows@.len() - i,
    {
        assert(all.take(i + 1).drop_last() =~= all.take(i as int));
        assert(all.take(i + 1).last() == views(rows@[i as int]@));
        let w: usize = cell_of(&rows[i], column).unicode_len();
        if w > n {
            n = w;
        }
        i += 1;
    }
    assert(all.take(all.len() as int) =~= all);
    n
}

pub open spec fn nats(s: Seq<usize>) -> Seq<nat> {
    s.map_values(|n: usize| n as nat)
}

fn render_row(row: &Vec<String>, widths: &Vec<usize>) -> (r: String)
    ensures
        r@ == row_line(views(row@), nats(widths@)),
{
    let mut cells: Vec<String> = Vec::new();
    let mut c: usize = 0;
    let ghost all = row_cells(views(row@), nats(widths@));
    while c < widths.len()
        invariant
            c <= widths@.len(),
            all == row_cells(views(row@), nats(widths@)),
            views(cells@) =~= all.take(c as int),
        decreases widths@.len() - c,
    {
        let padded_cell: String = pad_table_cell(cell_of(row, c), widths[c]);
        cells.push(padded_cell);
        c += 1;
    }
    assert(all.take(all.len() as int) =~= all);
    join(cells.as_slice(), " | ")
}

fn render_rule(widths: &Vec<usize>) -> (r: String)
    ensures
        r@ == rule_line(nats(widths@)),
{
    let mut cells: Vec<String> = Vec::new();
    let mut c: usize = 0;
    let ghost all = rule_cells(nats(widths@));
    while c < widths.len()
        invariant
            c <= widths@.len(),
            all == rule_cells(nats(widths@)),
            views(cells@) =~= all.take(c as int),
        decreases widths@.len() - c,
    {
        cells.push(repeat_text("─", widths[c]));
        c += 1;
    }
    assert(all.take(all.len() as int) =~= all);
    join(cells.as_slice(), "─┼─")
}

/// The text of a table: padded columns, and a rule below the head.
pub fn render_table_text(table: &RichTable) -> (r: String)
    ensures
        r@ == table_text(table@),
{
    let ghost rows = rows_view(table.rows@);
    let n: usize = count_columns(&table.rows);
    if n == 0 {
        return String::new();
    }
    let mut widths: Vec<usize> = Vec::new();
    let mut c: usize = 0;
    while c < n
        invariant
            c <= n,
            rows == rows_view(table.rows@),
            n == column_count(rows),
            nats(widths@) =~= column_widths(rows).take(c as int),
        decreases n - c,
    {
        let w: usize = width_of(&table.rows, c);
        let ghost before = widths@;
        widths.push(w);
        assert(nats(widths@) =~= nats(before).push(w as nat));
        assert(column_widths(rows)[c as int] == w);
        c += 1;
    }
    assert(column_widths(rows).take(n as int) =~= column_widths(rows));
    let mut lines: Vec<String> = Vec::new();
    let mut i: usize = 0;
    while i < table.rows.len()
        invariant
            i <= table.rows@.len(),
            rows == rows_view(table.rows@),
            nats(widths@) == column_widths(rows),
            views(lines@) =~= table_lines(table@, column_widths(rows), i as nat),
        decreases table.rows@.len() - i,
    {
        assert(table@.rows[i as int] == views(table.rows@[i as int]@));
        let line: String = render_row(&table.rows[i], &widths);
        lines.push(line);
        i += 1;
        if table.header_rows == i {
            lines.push(render_rule(&widths));
        }
    }
    join(lines.as_slice(), "\n")
}

/// Ends the line, and leaves an empty one where a paragraph break is needed; it is needed
/// no longer afterwards.
pub fn ensure_block_break_text(output: &mut String, need_paragraph_break: &mut bool)
    ensures
        final(output)@ == broken_text(old(output)@, *old(need_paragraph_break)),
        !*final(need_paragraph_break),
{
    let due: bool = *need_paragraph_break;
    *need_paragraph_break = false;
    if output.as_str().is_empty() {
        return;
    }
    if due {
        if !ends_with(output.as_str(), "\n\n") {
            if ends_with_char(output.as_str(), '\n') {
                output.append("\n");
            } else {
                output.append("\n\n");
            }
        }
    } else if !ends_with_char(output.as_str(), '\n') {
        output.append("\n");
    }
}

// ---------------------------------------------------------------------------
// The builder
// ---------------------------------------------------------------------------
/// Text that is being rendered, with the entities found so far.
#[derive(Debug)]
pub struct TelegramEntityBuilder {
    pub text: String,
    pub entities: Vec<TelegramMessageEntity>,
}

impl TelegramEntityBuilder {
    pub open spec fn view(self) -> Rendered {
        Rendered { text: self.text@, entities: entities_view(self.entities@) }
    }

    pub fn new() -> (r: Self)
        ensures
            r@ == Rendered::empty(),
    {
        let r = TelegramEntityBuilder { text: String::new(), entities: Vec::new() };
        assert(r@.entities =~= Seq::empty());
        r
    }

    fn cursor(&self) -> (n: usize)
        ensures
            n == self.text@.len(),
    {
        self.text.as_str().unicode_len()
    }

    fn push_text(&mut self, value: &str)
        ensures
            final(self)@ == old(self)@.push(value@),
    {
        self.text.append(value);
    }

    fn push_entity_trimmed(
        &mut self,
        start: usize,
        kind: &str,
        url: Option<String>,
        language: Option<String>,
    )
        requires
            start <= old(self).text@.len(),
        ensures
            final(self)@ == old(self)@.entity(
                start as nat,
                kind@,
                opt_view(url),
                opt_view(language),
            ),
    {
        let chars: Vec<char> = chars_of(self.text.as_str());
        let n: usize = chars.len();
        let (a, b) = trim_range(chars.as_slice(), start, n);
        assert(chars@.subrange(start as int, n as int) =~= self.text@.skip(start as int));
        if a == b {
            return;
        }
        let ghost before = self.entities@;
        assert(self.text@.subrange(0, a as int) =~= self.text@.take(a as int));
        let offset: usize = utf16_len(self.text.as_str().substring_char(0, a));
        let length: usize = utf16_len(self.text.as_str().substring_char(a, b));
        let entity = TelegramMessageEntity { kind: kind.to_owned(), offset, length, url, language };
        self.entities.push(entity);
        assert(entities_view(self.entities@) =~= entities_view(before).push(entity@));
    }

    fn since(&self, start: usize) -> (r: (usize, usize))
        requires
            start <= self.text@.len(),
        ensures
            r.0 == utf16(self.text@.take(start as int)),
            r.1 == utf16(self.text@),
    {
        assert(self.text@.subrange(0, start as int) =~= self.text@.take(start as int));
        (utf16_len(self.text.as_str().substring_char(0, start)), utf16_len(self.text.as_str()))
    }

    fn has_entity_since(&self, start: usize, code_only: bool) -> (b: bool)
        requires
            start <= self.text@.len(),
        ensures
            !code_only ==> b == self@.has_entity_since(start as nat),
            code_only ==> b == self@.has_code_since(start as nat),
    {
        let (from, to) = self.since(start);
        let mut i: usize = 0;
        while i < self.entities.len()
            invariant
                i <= self.entities@.len(),
                from == utf16(self.text@.take(start as int)),
                to == utf16(self.text@),
                forall|j: int|
                    0 <= j < i ==> !(entity_within(
                        #[trigger] self@.entities[j],
                        from as nat,
                        to as nat,
                    ) && (!code_only || self@.entities[j].kind == "code"@
                        || self@.entities[j].kind == "pre"@)),
            decreases self.entities@.len() - i,
        {
            let e: &TelegramMessageEntity = &self.entities[i];
            assert(self@.entities[i as int] == e@);
            if from <= e.offset && e.offset <= to && e.length <= to - e.offset && (!code_only
                || text_eq(e.kind.as_str(), "code") || text_eq(e.kind.as_str(), "pre")) {
                assert(entity_within(self@.entities[i as int], from as nat, to as nat));
                return true;
            }
            i += 1;
        }
        false
    }

    fn push_styled(&mut self, start: usize, kind: &str)
        requires
            start <= old(self).text@.len(),
        ensures
            final(self)@ == old(self)@.styled(start as nat, kind@),
    {
        if !self.has_entity_since(start, true) {
            self.push_entity_trimmed(start, kind, None, None);
        }
    }

    fn quote_marks(&mut self, depth: usize)
        ensures
            final(self)@ == old(self)@.quote_marks(depth as nat),
    {
        if depth > 1 && (self.text.as_str().is_empty() || ends_with_char(self.text.as_str(), '\n')) {
            let marks: String = repeat_text("> ", depth - 1);
            self.push_text(marks.as_str());
        }
    }

    fn block_break(&mut self, due: bool)
        ensures
            final(self)@ == old(self)@.block_break(due),
    {
        let mut due: bool = due;
        ensure_block_break_text(&mut self.text, &mut due);
    }

    fn lines(&mut self, text: &str, depth: usize)
        ensures
            final(self)@ == old(self)@.lines(text@, depth as nat),
    {
        let chars: Vec<char> = chars_of(text);
        let mut start: usize = 0;
        assert(chars@.skip(0) =~= chars@);
        while start < chars.len()
            invariant
                start <= chars@.len(),
                chars@ == text@,
                self@.lines(chars@.skip(start as int), depth as nat) == old(self)@.lines(
                    text@,
                    depth as nat,
                ),
            decreases chars@.len() - start,
        {
            let ghost rest = chars@.skip(start as int);
            let mut i: usize = start;
            while i < chars.len() && chars[i] != '\n'
                invariant
                    start <= i <= chars@.len(),
                    rest == chars@.skip(start as int),
                    forall|j: int| 0 <= j < i - start ==> rest[j] != '\n',
                decreases chars@.len() - i,
            {
                i += 1;
            }
            proof {
                crate::text::lemma_position_is(rest, is_char('\n'), i - start);
            }
            self.quote_marks(depth);
            if i < chars.len() {
                let segment: String = string_range(chars.as_slice(), start, i + 1);
                assert(segment@ =~= rest.take(i - start + 1));
                assert(rest.skip(i - start + 1) =~= chars@.skip(i + 1));
                self.push_text(segment.as_str());
                start = i + 1;
            } else {
                let segment: String = string_range(chars.as_slice(), start, i);
                assert(segment@ =~= rest);
                self.push_text(segment.as_str());
                start = i;
                assert(chars@.skip(start as int) =~= Seq::empty());
            }
        }
        assert(chars@.skip(start as int) =~= Seq::empty());
    }

    fn preformatted(&mut self, text: &str, language: Option<String>, fold: bool)
        ensures
            final(self)@ == preformatted(old(self)@, text@, opt_view(language), fold),
    {
        let start: usize = self.cursor();
        self.push_text(text);
        self.push_entity_trimmed(start, "pre", None, language);
        if fold {
            self.push_entity_trimmed(start, "expandable_blockquote", None, None);
        }
    }

    fn inline(&mut self, inline: &RichInline, depth: usize)
        ensures
            final(self)@ == render_inline(inline@, old(self)@, depth as nat),
            final(self).text@.len() >= old(self).text@.len(),
        decreases inline,
    {
        let start: usize = self.cursor();
        match inline {
            RichInline::Text(text) => {
                self.lines(text.as_str(), depth);
                proof {
                    lemma_lines_grow(old(self)@, text@, depth as nat);
                }
            },
            RichInline::Emphasis(children) => {
                self.inlines(children, depth);
                self.push_styled(start, "italic");
            },
            RichInline::Strong(children) => {
                self.inlines(children, depth);
                self.push_styled(start, "bold");
            },
            RichInline::Strikethrough(children) => {
                self.inlines(children, depth);
                self.push_styled(start, "strikethrough");
            },
            RichInline::Link { url, content } => {
                self.inlines(content, depth);
                if !self.has_entity_since(start, false) {
                    self.push_entity_trimmed(start, "text_link", Some(url.clone()), None);
                }
            },
            RichInline::Code(code) => {
                self.push_text(code.as_str());
                self.push_entity_trimmed(start, "code", None, None);
            },
            RichInline::LineBreak => {
                self.push_text("\n");
            },
        }
    }

    fn inlines(&mut self, inlines: &Vec<RichInline>, depth: usize)
        ensures
            final(self)@ == render_inlines(inlines_view(inlines@), old(self)@, depth as nat),
            final(self).text@.len() >= old(self).text@.len(),
        decreases inlines,
    {
        let ghost all = inlines_view(inlines@);
        let mut i: usize = 0;
        assert(all.skip(0) =~= all);
        while i < inlines.len()
            invariant
                i <= inlines@.len(),
                all == inlines_view(inlines@),
                render_inlines(all.skip(i as int), self@, depth as nat) == render_inlines(
                    all,
                    old(self)@,
                    depth as nat,
                ),
                self.text@.len() >= old(self).text@.len(),
            decreases inlines@.len() - i,
        {
            assert(all.skip(i as int).drop_first() =~= all.skip(i + 1));
            assert(all.skip(i as int)[0] == inlines@[i as int]@);
            self.inline(&inlines[i], depth);
            i += 1;
        }
        assert(all.skip(i as int) =~= Seq::empty());
    }
}

impl TelegramEntityBuilder {
    fn block(&mut self, block: &RichBlock, due: bool, depth: usize) -> (next: bool)
        ensures
            (final(self)@, next) == render_block(block@, old(self)@, due, depth as nat),
            final(self).text@.len() >= old(self).text@.len(),
        decreases block, 0int,
    {
        self.block_break(due);
        match block {
            RichBlock::Paragraph(inlines) => {
                self.quote_marks(depth);
                self.inlines(inlines, depth);
                true
            },
            RichBlock::Heading(inlines) => {
                self.quote_marks(depth);
                let start: usize = self.cursor();
                self.inlines(inlines, depth);
                self.push_styled(start, "bold");
                true
            },
            RichBlock::BlockQuote(inner) => {
                let start: usize = self.cursor();
                let inner_depth: usize = if depth < usize::MAX {
                    depth + 1
                } else {
                    depth
                };
                let next: bool = self.blocks(inner, 0, false, inner_depth);
                if depth == 0 {
                    let end: usize = self.cursor();
                    let kind: &str = classify_blockquote_entity(
                        self.text.as_str().substring_char(start, end),
                    );
                    assert(self.text@.subrange(start as int, end as int) =~= self.text@.skip(
                        start as int,
                    ));
                    self.push_entity_trimmed(start, kind, None, None);
                }
                next
            },
            RichBlock::List { start, items } => {
                self.quote_marks(depth);
                self.list(*start, items, depth);
                true
            },
            RichBlock::CodeBlock { language, code } => {
                self.quote_marks(depth);
                let fold: bool = depth == 0 && is_long(code.as_str());
                self.preformatted(code.as_str(), opt_copy(language), fold);
                true
            },
            RichBlock::Table(table) => {
                self.quote_marks(depth);
                let text: String = render_table_text(table);
                let fold: bool = depth == 0 && is_long(text.as_str());
                self.preformatted(text.as_str(), None, fold);
                true
            },
            RichBlock::ThematicBreak => {
                self.quote_marks(depth);
                self.push_text("──────────");
                true
            },
        }
    }

    /// Renders the blocks from index `from` on.
    fn blocks(&mut self, blocks: &Vec<RichBlock>, from: usize, due: bool, depth: usize) -> (next:
        bool)
        requires
            from <= blocks@.len(),
        ensures
            (final(self)@, next) == render_blocks(
                blocks_view(blocks@).skip(from as int),
                old(self)@,
                due,
                depth as nat,
            ),
            from == 0 ==> (final(self)@, next) == render_blocks(
                blocks_view(blocks@),
                old(self)@,
                due,
                depth as nat,
            ),
            final(self).text@.len() >= old(self).text@.len(),
        decreases blocks, 0int,
    {
        let ghost all = blocks_view(blocks@);
        let mut i: usize = from;
        let mut next: bool = due;
        assert(from == 0 ==> all.skip(0) =~= all);
        while i < blocks.len()
            invariant
                from <= i <= blocks@.len(),
                all == blocks_view(blocks@),
                render_blocks(all.skip(i as int), self@, next, depth as nat) == render_blocks(
                    all.skip(from as int),
                    old(self)@,
                    due,
                    depth as nat,
                ),
                self.text@.len() >= old(self).text@.len(),
            decreases blocks@.len() - i,
        {
            assert(all.skip(i as int).drop_first() =~= all.skip(i + 1));
            assert(all.skip(i as int)[0] == blocks@[i as int]@);
            next = self.block(&blocks[i], next, depth);
            i += 1;
        }
        assert(all.skip(i as int) =~= Seq::empty());
        next
    }

    fn list(&mut self, start: Option<u64>, items: &Vec<Vec<RichBlock>>, depth: usize)
        ensures
            final(self)@ == render_items(
                start,
                items_view(items@),
                0,
                old(self)@,
                depth as nat,
            ),
            final(self).text@.len() >= old(self).text@.len(),
        decreases items, 0int,
    {
        let ghost all = items_view(items@);
        let mut i: usize = 0;
        assert(all.skip(0) =~= all);
        while i < items.len()
            invariant
                i <= items@.len(),
                all == items_view(items@),
                render_items(start, all.skip(i as int), i as nat, self@, depth as nat)
                    == render_items(start, all, 0, old(self)@, depth as nat),
                self.text@.len() >= old(self).text@.len(),
            decreases items@.len() - i,
        {
            assert(all.skip(i as int).drop_first() =~= all.skip(i + 1));
            assert(all.skip(i as int)[0] == blocks_view(items@[i as int]@));
            if i > 0 && !ends_with_char(self.text.as_str(), '\n') {
                self.push_text("\n");
            }
            self.quote_marks(depth);
            let mark: String = list_mark(start, i);
            self.push_text(mark.as_str());
            let item: &Vec<RichBlock> = &items[i];
            self.item(item, depth);
            i += 1;
        }
        assert(all.skip(i as int) =~= Seq::empty());
    }

    fn item(&mut self, item: &Vec<RichBlock>, depth: usize)
        ensures
            final(self)@ == render_item(blocks_view(item@), old(self)@, depth as nat),
            final(self).text@.len() >= old(self).text@.len(),
        decreases item, 1int,
    {
        if item.len() > 0 {
            let first: &RichBlock = &item[0];
            self.first_block(first, depth);
            if item.len() > 1 {
                assert(blocks_view(item@).skip(1) =~= blocks_view(item@).drop_first());
                let _ = self.blocks(item, 1, true, depth);
            }
        }
    }

    fn first_block(&mut self, block: &RichBlock, depth: usize)
        ensures
            final(self)@ == render_first(block@, old(self)@, depth as nat),
            final(self).text@.len() >= old(self).text@.len(),
        decreases block, 0int,
    {
        match block {
            RichBlock::Paragraph(inlines) => {
                self.inlines(inlines, depth);
            },
            RichBlock::Heading(inlines) => {
                let start: usize = self.cursor();
                self.inlines(inlines, depth);
                self.push_styled(start, "bold");
            },
            RichBlock::CodeBlock { language, code } => {
                self.push_text("\n");
                self.quote_marks(depth);
                self.preformatted(code.as_str(), opt_copy(language), false);
            },
            RichBlock::Table(table) => {
                self.push_text("\n");
                self.quote_marks(depth);
                let text: String = render_table_text(table);
                self.preformatted(text.as_str(), None, false);
            },
            RichBlock::ThematicBreak => {
                self.push_text("──────────");
            },
            RichBlock::BlockQuote(inner) => {
                let inner_depth: usize = if depth < usize::MAX {
                    depth + 1
                } else {
                    depth
                };
                let _ = self.blocks(inner, 0, false, inner_depth);
            },
            RichBlock::List { start, items } => {
                self.push_text("\n");
                self.list(*start, items, depth);
            },
        }
    }
}

fn list_mark(start: Option<u64>, index: usize) -> (r: String)
    ensures
        r@ == item_mark(start, index as nat),
{
    match start {
        Some(n) => {
            let number: u64 = n.wrapping_add(index as u64);
            assert(number as nat == ((n + index) % 0x1_0000_0000_0000_0000) as nat);
            let digits: String = decimal_text(number);
            cat2(digits.as_str(), ". ")
        },
        None => "• ".to_owned(),
    }
}

/// Orders entities by where they start, longer ones first; equal ones keep their order.
fn sort_entities(entities: Vec<TelegramMessageEntity>) -> (r: Vec<TelegramMessageEntity>)
    ensures
        entities_view(r@) == entities_sorted(entities_view(entities@)),
{
    let mut rest: Vec<TelegramMessageEntity> = entities;
    let ghost all = entities_view(entities@);
    let ghost n = all.len();
    let mut sorted: Vec<TelegramMessageEntity> = Vec::new();
    assert(all.take(0) =~= Seq::empty());
    assert(entities_view(sorted@) =~= Seq::empty());
    while rest.len() > 0
        invariant
            n == all.len(),
            rest@.len() <= n,
            entities_view(rest@) =~= all.skip(n - rest@.len()),
            entities_view(sorted@) == entities_sorted(all.take(n - rest@.len())),
        decreases rest@.len(),
    {
        let ghost done = n - rest@.len();
        let ghost before_rest = rest@;
        let e: TelegramMessageEntity = rest.remove(0);
        proof {
            assert(entities_view(before_rest)[0] == e@);
            assert(all.take(done + 1).drop_last() =~= all.take(done));
            assert(all.take(done + 1).last() == e@);
            assert forall|j: int| 0 <= j < rest@.len() implies entities_view(rest@)[j] == all.skip(
                done + 1,
            )[j] by {
                assert(rest@[j] == before_rest[j + 1]);
                assert(entities_view(before_rest)[j + 1] == all.skip(done)[j + 1]);
            }
        }
        let ghost s = entities_view(sorted@);
        let mut p: usize = sorted.len();
        assert(s.take(p as int) =~= s);
        while p > 0 && (e.offset < sorted[p - 1].offset || (e.offset == sorted[p - 1].offset
            && e.length > sorted[p - 1].length))
            invariant
                p <= sorted@.len(),
                s == entities_view(sorted@),
                entity_place(s.take(p as int), e@) == entity_place(s, e@),
            decreases p,
        {
            assert(s.take(p as int).last() == sorted@[p - 1]@);
            assert(s.take(p as int).drop_last() =~= s.take(p - 1));
            p -= 1;
        }
        proof {
            if p > 0 {
                assert(s.take(p as int).last() == sorted@[p - 1]@);
            }
            assert(entity_place(s, e@) == p);
        }
        let ghost before = sorted@;
        sorted.insert(p, e);
        assert(entities_view(sorted@) =~= s.insert(p as int, e@));
    }
    assert(all.take(n as int) =~= all);
    sorted
}

/// Renders a document as text with ordered entities.
pub fn render_rich_document_to_telegram_entities(document: &RichDocument) -> (r:
    TelegramRenderedText)
    ensures
        r@ == render_document(blocks_view(document.blocks@)),
{
    let builder: TelegramEntityBuilder = render_plain(&document.blocks);
    TelegramRenderedText { text: builder.text, entities: sort_entities(builder.entities) }
}

fn render_plain(blocks: &Vec<RichBlock>) -> (builder: TelegramEntityBuilder)
    ensures
        builder@ == render_blocks(blocks_view(blocks@), Rendered::empty(), false, 0).0,
{
    let mut builder: TelegramEntityBuilder = TelegramEntityBuilder::new();
    let _ = builder.blocks(blocks, 0, false, 0);
    builder
}

/// The length of a text as Telegram counts it.
pub fn telegram_text_len(value: &str) -> (n: usize)
    ensures
        n == utf16(value@),
{
    utf16_len(value)
}

pub fn rendered_length_for_blocks(blocks: &Vec<RichBlock>) -> (n: usize)
    ensures
        n == rendered_length(blocks_view(blocks@)),
{
    let builder: TelegramEntityBuilder = render_plain(blocks);
    telegram_text_len(builder.text.as_str())
}

pub fn rendered_length_for_document(document: &RichDocument) -> (n: usize)
    ensures
        n == rendered_length(blocks_view(document.blocks@)),
{
    rendered_length_for_blocks(&document.blocks)
}

proof fn lemma_lines_grow(b: Rendered, t: Seq<char>, depth: nat)
    ensures
        b.lines(t, depth).text.len() >= b.text.len(),
    decreases t.len(),
{
    if t.len() > 0 {
        lemma_position(t, is_char('\n'));
        let i = find_char(t, '\n');
        if i < t.len() {
            lemma_lines_grow(b.quote_marks(depth).push(t.take(i + 1)), t.skip(i + 1), depth);
        }
    }
}

} // verus!

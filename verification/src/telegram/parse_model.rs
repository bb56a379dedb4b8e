//! How a stream of markdown events builds a rich document: the state between two
//! events and what each event does to it.

use vstd::prelude::*;
use crate::text::{opt_view, trimmed, views};
use crate::words::{join_seq, words_seq};
use super::rich::{
    blocks_view, inlines_view, items_view, rows_view, BlockView, InlineView, RichBlock, RichInline,
    TableView,
};

verus! {

/// What opens a markdown element. `Fence` is a fenced code block with its info string.
#[derive(Debug)]
pub enum MarkdownTag {
    Paragraph,
    Heading,
    BlockQuote,
    IndentedCode,
    Fence(String),
    List(Option<u64>),
    Item,
    Table,
    TableHead,
    TableRow,
    TableCell,
    Emphasis,
    Strong,
    Strikethrough,
    Link(String),
    Other,
}

#[derive(Clone, Copy, Debug, PartialEq, Eq, Structural)]
pub enum MarkdownTagEnd {
    Paragraph,
    Heading,
    BlockQuote,
    CodeBlock,
    List,
    Item,
    Table,
    TableHead,
    TableRow,
    TableCell,
    Emphasis,
    Strong,
    Strikethrough,
    Link,
    Other,
}

/// One event of a markdown parser.
#[derive(Debug)]
pub enum MarkdownEvent {
    Start(MarkdownTag),
    End(MarkdownTagEnd),
    Text(String),
    Code(String),
    InlineMath(String),
    DisplayMath(String),
    Html(String),
    InlineHtml(String),
    FootnoteReference(String),
    SoftBreak,
    HardBreak,
    Rule,
    TaskListMarker(bool),
}

pub enum TagView {
    Paragraph,
    Heading,
    BlockQuote,
    IndentedCode,
    Fence(Seq<char>),
    List(Option<u64>),
    Item,
    Table,
    TableHead,
    TableRow,
    TableCell,
    Emphasis,
    Strong,
    Strikethrough,
    Link(Seq<char>),
    Other,
}

pub enum EventView {
    Start(TagView),
    End(MarkdownTagEnd),
    Text(Seq<char>),
    Code(Seq<char>),
    InlineMath(Seq<char>),
    DisplayMath(Seq<char>),
    Html(Seq<char>),
    InlineHtml(Seq<char>),
    FootnoteReference(Seq<char>),
    SoftBreak,
    HardBreak,
    Rule,
    TaskListMarker(bool),
}

impl MarkdownTag {
    pub open spec fn view(self) -> TagView {
        match self {
            MarkdownTag::Paragraph => TagView::Paragraph,
            MarkdownTag::Heading => TagView::Heading,
            MarkdownTag::BlockQuote => TagView::BlockQuote,
            MarkdownTag::IndentedCode => TagView::IndentedCode,
            MarkdownTag::Fence(t) => TagView::Fence(t@),
            MarkdownTag::List(start) => TagView::List(start),
            MarkdownTag::Item => TagView::Item,
            MarkdownTag::Table => TagView::Table,
            MarkdownTag::TableHead => TagView::TableHead,
            MarkdownTag::TableRow => TagView::TableRow,
            MarkdownTag::TableCell => TagView::TableCell,
            MarkdownTag::Emphasis => TagView::Emphasis,
            MarkdownTag::Strong => TagView::Strong,
            MarkdownTag::Strikethrough => TagView::Strikethrough,
            MarkdownTag::Link(url) => TagView::Link(url@),
            MarkdownTag::Other => TagView::Other,
        }
    }
}

impl MarkdownEvent {
    pub open spec fn view(self) -> EventView {
        match self {
            MarkdownEvent::Start(tag) => EventView::Start(tag@),
            MarkdownEvent::End(tag) => EventView::End(tag),
            MarkdownEvent::Text(t) => EventView::Text(t@),
            MarkdownEvent::Code(t) => EventView::Code(t@),
            MarkdownEvent::InlineMath(t) => EventView::InlineMath(t@),
            MarkdownEvent::DisplayMath(t) => EventView::DisplayMath(t@),
            MarkdownEvent::Html(t) => EventView::Html(t@),
            MarkdownEvent::InlineHtml(t) => EventView::InlineHtml(t@),
            MarkdownEvent::FootnoteReference(t) => EventView::FootnoteReference(t@),
            MarkdownEvent::SoftBreak => EventView::SoftBreak,
            MarkdownEvent::HardBreak => EventView::HardBreak,
            MarkdownEvent::Rule => EventView::Rule,
            MarkdownEvent::TaskListMarker(checked) => EventView::TaskListMarker(checked),
        }
    }
}

pub open spec fn events_view(events: Seq<MarkdownEvent>) -> Seq<EventView> {
    events.map_values(|e: MarkdownEvent| e@)
}

#[derive(Clone, Copy, Debug, PartialEq, Eq, Structural)]
pub enum PendingBlockKind {
    Paragraph,
    Heading,
}

#[derive(Clone, Copy, Debug, PartialEq, Eq, Structural)]
pub enum InlineStyle {
    Emphasis,
    Strong,
    Strikethrough,
    Link,
}

/// A paragraph or heading whose inlines are still being collected.
#[derive(Debug)]
pub struct PendingInlineBlock {
    pub kind: PendingBlockKind,
    pub inlines: Vec<RichInline>,
}

/// An inline element that has been opened and not yet closed.
#[derive(Debug)]
pub struct PendingInlineContainer {
    pub style: InlineStyle,
    pub url: Option<String>,
    pub inlines: Vec<RichInline>,
}

/// A table that is still being read.
#[derive(Debug)]
pub struct PendingTable {
    pub rows: Vec<Vec<String>>,
    pub current_row: Vec<String>,
    pub current_cell: String,
    pub header_rows: usize,
}

/// A block that holds blocks and has not been closed.
#[derive(Debug)]
pub enum BlockContainer {
    Root(Vec<RichBlock>),
    BlockQuote(Vec<RichBlock>),
    List { start: Option<u64>, items: Vec<Vec<RichBlock>> },
    ListItem(Vec<RichBlock>),
}

pub struct PendingView {
    pub kind: PendingBlockKind,
    pub inlines: Seq<InlineView>,
}

pub struct OpenInlineView {
    pub style: InlineStyle,
    pub url: Option<Seq<char>>,
    pub inlines: Seq<InlineView>,
}

pub struct PendingTableView {
    pub rows: Seq<Seq<Seq<char>>>,
    pub current_row: Seq<Seq<char>>,
    pub current_cell: Seq<char>,
    pub header_rows: nat,
}

pub enum ContainerView {
    Root(Seq<BlockView>),
    BlockQuote(Seq<BlockView>),
    List { start: Option<u64>, items: Seq<Seq<BlockView>> },
    ListItem(Seq<BlockView>),
}

impl PendingInlineBlock {
    pub open spec fn view(self) -> PendingView {
        PendingView { kind: self.kind, inlines: inlines_view(self.inlines@) }
    }
}

impl PendingInlineContainer {
    pub open spec fn view(self) -> OpenInlineView {
        OpenInlineView {
            style: self.style,
            url: opt_view(self.url),
            inlines: inlines_view(self.inlines@),
        }
    }
}

impl PendingTable {
    pub open spec fn view(self) -> PendingTableView {
        PendingTableView {
            rows: rows_view(self.rows@),
            current_row: views(self.current_row@),
            current_cell: self.current_cell@,
            header_rows: self.header_rows as nat,
        }
    }
}

impl BlockContainer {
    pub open spec fn view(self) -> ContainerView {
        match self {
            BlockContainer::Root(b) => ContainerView::Root(blocks_view(b@)),
            BlockContainer::BlockQuote(b) => ContainerView::BlockQuote(blocks_view(b@)),
            BlockContainer::List { start, items } => ContainerView::List {
                start,
                items: items_view(items@),
            },
            BlockContainer::ListItem(b) => ContainerView::ListItem(blocks_view(b@)),
        }
    }
}

pub open spec fn containers_view(s: Seq<BlockContainer>) -> Seq<ContainerView> {
    s.map_values(|c: BlockContainer| c@)
}

pub open spec fn open_inlines_view(s: Seq<PendingInlineContainer>) -> Seq<OpenInlineView> {
    s.map_values(|c: PendingInlineContainer| c@)
}

/// The state of the document builder between two events.
pub struct ParserView {
    pub containers: Seq<ContainerView>,
    pub pending: Option<PendingView>,
    pub open: Seq<OpenInlineView>,
    pub language: Option<Seq<char>>,
    pub code: Option<Seq<char>>,
    pub table: Option<PendingTableView>,
}

/// The inline that an opened element becomes when it is closed.
pub open spec fn finished(c: OpenInlineView) -> InlineView {
    match c.style {
        InlineStyle::Emphasis => InlineView::Emphasis(c.inlines),
        InlineStyle::Strong => InlineView::Strong(c.inlines),
        InlineStyle::Strikethrough => InlineView::Strikethrough(c.inlines),
        InlineStyle::Link => InlineView::Link {
            url: match c.url {
                Some(url) => url,
                None => Seq::empty(),
            },
            content: c.inlines,
        },
    }
}

/// The block that a pending paragraph or heading becomes.
pub open spec fn inline_block(kind: PendingBlockKind, inlines: Seq<InlineView>) -> BlockView {
    match kind {
        PendingBlockKind::Paragraph => BlockView::Paragraph(inlines),
        PendingBlockKind::Heading => BlockView::Heading(inlines),
    }
}

/// A container with one more block. A list takes items, not blocks.
pub open spec fn container_with(c: ContainerView, b: BlockView) -> ContainerView {
    match c {
        ContainerView::Root(blocks) => ContainerView::Root(blocks.push(b)),
        ContainerView::BlockQuote(blocks) => ContainerView::BlockQuote(blocks.push(b)),
        ContainerView::ListItem(blocks) => ContainerView::ListItem(blocks.push(b)),
        ContainerView::List { start, items } => c,
    }
}

pub open spec fn empty_table() -> PendingTableView {
    PendingTableView {
        rows: Seq::empty(),
        current_row: Seq::empty(),
        current_cell: Seq::empty(),
        header_rows: 0,
    }
}

/// The text of a table cell with each run of white space made one space.
pub open spec fn normalized_cell(s: Seq<char>) -> Seq<char> {
    join_seq(words_seq(s), " "@)
}

impl PendingTableView {
    pub open spec fn row_closed(self) -> Self {
        if self.current_row.len() > 0 {
            PendingTableView {
                rows: self.rows.push(self.current_row),
                current_row: Seq::empty(),
                ..self
            }
        } else {
            self
        }
    }

    pub open spec fn head_closed(self) -> Self {
        let t = self.row_closed();
        PendingTableView { header_rows: t.rows.len(), ..t }
    }

    pub open spec fn cell_closed(self) -> Self {
        PendingTableView {
            current_row: self.current_row.push(normalized_cell(self.current_cell)),
            current_cell: Seq::empty(),
            ..self
        }
    }

    pub open spec fn with_text(self, t: Seq<char>) -> Self {
        PendingTableView { current_cell: self.current_cell + t, ..self }
    }

    /// A line break in a cell is a space, unless the cell ends in one.
    pub open spec fn with_break(self) -> Self {
        if self.current_cell.len() > 0 && self.current_cell.last() == ' ' {
            self
        } else {
            PendingTableView { current_cell: self.current_cell.push(' '), ..self }
        }
    }
}

impl ParserView {
    pub open spec fn initial() -> Self {
        ParserView {
            containers: seq![ContainerView::Root(Seq::empty())],
            pending: None,
            open: Seq::empty(),
            language: None,
            code: None,
            table: None,
        }
    }

    /// Inlines outside any paragraph or heading open a paragraph.
    pub open spec fn with_block(self) -> Self {
        match self.pending {
            Some(_) => self,
            None => ParserView {
                pending: Some(
                    PendingView { kind: PendingBlockKind::Paragraph, inlines: Seq::empty() },
                ),
                ..self
            },
        }
    }

    /// Adds an inline to the innermost open element, or else to the pending block.
    pub open spec fn add_inline(self, x: InlineView) -> Self {
        let s = self.with_block();
        if s.open.len() > 0 {
            let top = s.open.last();
            ParserView {
                open: s.open.drop_last().push(
                    OpenInlineView { inlines: top.inlines.push(x), ..top },
                ),
                ..s
            }
        } else {
            match s.pending {
                Some(p) => ParserView {
                    pending: Some(PendingView { inlines: p.inlines.push(x), ..p }),
                    ..s
                },
                None => s,
            }
        }
    }

    /// Opens an inline element.
    pub open spec fn open_inline(self, style: InlineStyle, url: Option<Seq<char>>) -> Self {
        let s = self.with_block();
        ParserView {
            open: s.open.push(OpenInlineView { style, url, inlines: Seq::empty() }),
            ..s
        }
    }

    /// Closes the innermost open inline element, if there is one.
    pub open spec fn close_inline(self) -> Self {
        if self.open.len() > 0 {
            ParserView { open: self.open.drop_last(), ..self }.add_inline(
                finished(self.open.last()),
            )
        } else {
            self
        }
    }

    pub open spec fn close_inlines(self) -> Self
        decreases self.open.len(),
    {
        if self.open.len() > 0 {
            self.close_inline().close_inlines()
        } else {
            self
        }
    }

    /// Adds a block to the innermost container.
    pub open spec fn add_block(self, b: BlockView) -> Self {
        if self.containers.len() > 0 {
            ParserView {
                containers: self.containers.drop_last().push(
                    container_with(self.containers.last(), b),
                ),
                ..self
            }
        } else {
            self
        }
    }

    /// Closes the open inlines and adds the pending block, unless it is empty.
    pub open spec fn flushed(self) -> Self {
        let s = self.close_inlines();
        match s.pending {
            None => s,
            Some(p) => {
                let t = ParserView { pending: None, ..s };
                if p.inlines.len() == 0 {
                    t
                } else {
                    t.add_block(inline_block(p.kind, p.inlines))
                }
            },
        }
    }

    pub open spec fn begin_block(self, kind: PendingBlockKind) -> Self {
        ParserView {
            pending: Some(PendingView { kind, inlines: Seq::empty() }),
            ..self.flushed()
        }
    }

    pub open spec fn open_container(self, c: ContainerView) -> Self {
        let s = self.flushed();
        ParserView { containers: s.containers.push(c), ..s }
    }

    pub open spec fn begin_code(self, language: Option<Seq<char>>) -> Self {
        ParserView { language, code: Some(Seq::empty()), ..self.flushed() }
    }

    pub open spec fn without_container(self) -> Self {
        ParserView { containers: self.containers.drop_last(), ..self }
    }

    pub open spec fn end_quote(self) -> Self {
        let s = self.flushed();
        if s.containers.len() == 0 {
            s
        } else {
            match s.containers.last() {
                ContainerView::BlockQuote(blocks) => s.without_container().add_block(
                    BlockView::BlockQuote(blocks),
                ),
                _ => s.without_container(),
            }
        }
    }

    pub open spec fn end_list(self) -> Self {
        let s = self.flushed();
        if s.containers.len() == 0 {
            s
        } else {
            match s.containers.last() {
                ContainerView::List { start, items } => s.without_container().add_block(
                    BlockView::List { start, items },
                ),
                _ => s.without_container(),
            }
        }
    }

    /// A closed item goes to the list around it.
    pub open spec fn end_item(self) -> Self {
        let s = self.flushed();
        if s.containers.len() == 0 {
            s
        } else {
            let t = s.without_container();
            match s.containers.last() {
                ContainerView::ListItem(blocks) => {
                    if t.containers.len() == 0 {
                        t
                    } else {
                        match t.containers.last() {
                            ContainerView::List { start, items } => ParserView {
                                containers: t.containers.drop_last().push(
                                    ContainerView::List { start, items: items.push(blocks) },
                                ),
                                ..t
                            },
                            _ => t,
                        }
                    }
                },
                _ => t,
            }
        }
    }

    pub open spec fn end_code(self) -> Self {
        ParserView { language: None, code: None, ..self }.add_block(
            BlockView::CodeBlock {
                language: self.language,
                code: match self.code {
                    Some(code) => code,
                    None => Seq::empty(),
                },
            },
        )
    }

    pub open spec fn end_table(self) -> Self {
        match self.table {
            Some(t) => ParserView { table: None, ..self }.add_block(
                BlockView::Table(TableView { rows: t.rows, header_rows: t.header_rows }),
            ),
            None => self,
        }
    }

    pub open spec fn with_table(self, t: PendingTableView) -> Self {
        ParserView { table: Some(t), ..self }
    }

    pub open spec fn start(self, tag: TagView) -> Self {
        match tag {
            TagView::Table => self.flushed().with_table(empty_table()),
            TagView::TableRow => match self.table {
                Some(t) => self.with_table(PendingTableView { current_row: Seq::empty(), ..t }),
                None => self,
            },
            TagView::TableCell => match self.table {
                Some(t) => self.with_table(PendingTableView { current_cell: Seq::empty(), ..t }),
                None => self,
            },
            TagView::Paragraph => self.begin_block(PendingBlockKind::Paragraph),
            TagView::Heading => self.begin_block(PendingBlockKind::Heading),
            TagView::BlockQuote => self.open_container(ContainerView::BlockQuote(Seq::empty())),
            TagView::List(start) => self.open_container(
                ContainerView::List { start, items: Seq::empty() },
            ),
            TagView::Item => self.open_container(ContainerView::ListItem(Seq::empty())),
            TagView::Emphasis => self.open_inline(InlineStyle::Emphasis, None),
            TagView::Strong => self.open_inline(InlineStyle::Strong, None),
            TagView::Strikethrough => self.open_inline(InlineStyle::Strikethrough, None),
            TagView::Link(url) => self.open_inline(InlineStyle::Link, Some(url)),
            TagView::IndentedCode => self.begin_code(None),
            TagView::Fence(info) => self.begin_code(
                if trimmed(info).len() == 0 {
                    None
                } else {
                    Some(trimmed(info))
                },
            ),
            TagView::TableHead => self,
            TagView::Other => self,
        }
    }

    pub open spec fn end(self, tag: MarkdownTagEnd) -> Self {
        match tag {
            MarkdownTagEnd::Table => self.end_table(),
            MarkdownTagEnd::TableHead => match self.table {
                Some(t) => self.with_table(t.head_closed()),
                None => self,
            },
            MarkdownTagEnd::TableRow => match self.table {
                Some(t) => self.with_table(t.row_closed()),
                None => self,
            },
            MarkdownTagEnd::TableCell => match self.table {
                Some(t) => self.with_table(t.cell_closed()),
                None => self,
            },
            MarkdownTagEnd::Paragraph => self.flushed(),
            MarkdownTagEnd::Heading => self.flushed(),
            MarkdownTagEnd::BlockQuote => self.end_quote(),
            MarkdownTagEnd::List => self.end_list(),
            MarkdownTagEnd::Item => self.end_item(),
            MarkdownTagEnd::Emphasis => self.close_inline(),
            MarkdownTagEnd::Strong => self.close_inline(),
            MarkdownTagEnd::Strikethrough => self.close_inline(),
            MarkdownTagEnd::Link => self.close_inline(),
            MarkdownTagEnd::CodeBlock => self.end_code(),
            MarkdownTagEnd::Other => self,
        }
    }

    /// Text goes to the open table cell, else to the open code block, else inline.
    pub open spec fn text(self, t: Seq<char>) -> Self {
        match self.table {
            Some(table) => self.with_table(table.with_text(t)),
            None => match self.code {
                Some(code) => ParserView { code: Some(code + t), ..self },
                None => self.add_inline(InlineView::Text(t)),
            },
        }
    }

    pub open spec fn line_break(self) -> Self {
        match self.table {
            Some(table) => self.with_table(table.with_break()),
            None => match self.code {
                Some(code) => ParserView { code: Some(code.push('\n')), ..self },
                None => self.add_inline(InlineView::LineBreak),
            },
        }
    }

    /// What one event does to the state.
    pub open spec fn step(self, event: EventView) -> Self {
        match event {
            EventView::Start(tag) => self.start(tag),
            EventView::End(tag) => self.end(tag),
            EventView::Text(t) => self.text(t),
            EventView::Code(t) => match self.table {
                Some(table) => self.with_table(table.with_text(t)),
                None => self.add_inline(InlineView::Code(t)),
            },
            EventView::SoftBreak => self.line_break(),
            EventView::HardBreak => self.line_break(),
            EventView::Rule => self.flushed().add_block(BlockView::ThematicBreak),
            EventView::Html(t) => self.add_inline(InlineView::Text(t)),
            EventView::InlineHtml(t) => self.add_inline(InlineView::Text(t)),
            EventView::InlineMath(t) => self.add_inline(InlineView::Code(t)),
            EventView::DisplayMath(t) => self.flushed().add_block(
                BlockView::CodeBlock { language: None, code: t },
            ),
            EventView::FootnoteReference(t) => self.add_inline(
                InlineView::Text("["@ + t + "]"@),
            ),
            EventView::TaskListMarker(checked) => self.add_inline(
                InlineView::Text(
                    if checked {
                        "☑ "@
                    } else {
                        "☐ "@
                    },
                ),
            ),
        }
    }

    /// The state after a row of events.
    pub open spec fn run(self, events: Seq<EventView>) -> Self
        decreases events.len(),
    {
        if events.len() == 0 {
            self
        } else {
            self.step(events[0]).run(events.drop_first())
        }
    }
}

/// The blocks of the document that the events describe.
pub open spec fn document_blocks(events: Seq<EventView>) -> Seq<BlockView> {
    let s = ParserView::initial().run(events).flushed();
    if s.containers.len() == 0 {
        Seq::empty()
    } else {
        match s.containers.last() {
            ContainerView::Root(blocks) => blocks,
            _ => Seq::empty(),
        }
    }
}

pub broadcast proof fn lemma_containers_push(s: Seq<BlockContainer>, c: BlockContainer)
    ensures
        #[trigger] containers_view(s.push(c)) == containers_view(s).push(c@),
{
    assert(containers_view(s.push(c)) =~= containers_view(s).push(c@));
}

pub broadcast proof fn lemma_containers_pop(s: Seq<BlockContainer>, n: int)
    requires
        0 <= n <= s.len(),
    ensures
        #[trigger] containers_view(s.subrange(0, n)) == containers_view(s).subrange(0, n),
{
    assert(containers_view(s.subrange(0, n)) =~= containers_view(s).subrange(0, n));
}

pub broadcast proof fn lemma_open_push(s: Seq<PendingInlineContainer>, c: PendingInlineContainer)
    ensures
        #[trigger] open_inlines_view(s.push(c)) == open_inlines_view(s).push(c@),
{
    assert(open_inlines_view(s.push(c)) =~= open_inlines_view(s).push(c@));
}

pub broadcast proof fn lemma_open_pop(s: Seq<PendingInlineContainer>, n: int)
    requires
        0 <= n <= s.len(),
    ensures
        #[trigger] open_inlines_view(s.subrange(0, n)) == open_inlines_view(s).subrange(0, n),
{
    assert(open_inlines_view(s.subrange(0, n)) =~= open_inlines_view(s).subrange(0, n));
}

pub broadcast group group_parse_views {
    lemma_containers_push,
    lemma_containers_pop,
    lemma_open_push,
    lemma_open_pop,
}

} // verus!

//! Reading markdown into a rich document.

use vstd::prelude::*;
use pulldown_cmark::{
    Alignment, BlockQuoteKind, CodeBlockKind, CowStr, Event, HeadingLevel, LinkType,
    MetadataBlockKind, Options, Parser, Tag, TagEnd,
};
use crate::text::{cat3, ends_with_char, opt_view, trim};
use crate::words::{join, split_words};
use super::parse_model::{
    containers_view, document_blocks, events_view, group_parse_views, normalized_cell,
    open_inlines_view, BlockContainer, EventView, InlineStyle, MarkdownEvent, MarkdownTag,
    MarkdownTagEnd, ParserView, PendingBlockKind, PendingInlineBlock, PendingInlineContainer,
    PendingTable, TagView,
};
use super::rich::{blocks_view, group_rich_views, RichBlock, RichDocument, RichInline, RichTable};

verus! {

broadcast use {group_rich_views, group_parse_views};

/// `pulldown_cmark::CowStr`: a string that may be shared; it is carried through.
#[verifier::external_type_specification]
#[verifier::external_body]
pub struct ExCowStr<'a>(CowStr<'a>);

/// `pulldown_cmark::TagEnd`: the end of an element.
#[verifier::external_type_specification]
pub struct ExTagEnd(TagEnd);

/// `pulldown_cmark::HeadingLevel`: the level of a heading.
#[verifier::external_type_specification]
pub struct ExHeadingLevel(HeadingLevel);

/// `pulldown_cmark::BlockQuoteKind`: the kind of a quotation.
#[verifier::external_type_specification]
pub struct ExBlockQuoteKind(BlockQuoteKind);

/// `pulldown_cmark::MetadataBlockKind`: the kind of a block of metadata.
#[verifier::external_type_specification]
pub struct ExMetadataBlockKind(MetadataBlockKind);

/// `pulldown_cmark::Alignment`: the alignment of a column.
#[verifier::external_type_specification]
pub struct ExAlignment(Alignment);

/// `pulldown_cmark::LinkType`: the form of a link.
#[verifier::external_type_specification]
pub struct ExLinkType(LinkType);

/// `pulldown_cmark::CodeBlockKind`: whether code is fenced, and how.
#[verifier::external_type_specification]
pub struct ExCodeBlockKind<'a>(CodeBlockKind<'a>);

/// `pulldown_cmark::Tag`: the start of an element.
#[verifier::external_type_specification]
pub struct ExTag<'a>(Tag<'a>);

/// `pulldown_cmark::Event`: what the parser yields.
#[verifier::external_type_specification]
pub struct ExEvent<'a>(Event<'a>);

/// The characters of a `pulldown_cmark::CowStr`.
pub uninterp spec fn cow_text(text: CowStr<'_>) -> Seq<char>;

/// `CowStr::into_string` gives the characters of the shared string.
pub assume_specification<'a>[ CowStr::<'a>::into_string ](text: CowStr<'a>) -> (r: String)
    ensures
        r@ == cow_text(text),
;

pub open spec fn outside_tag(tag: Tag<'_>) -> TagView {
    match tag {
        Tag::Paragraph => TagView::Paragraph,
        Tag::Heading { level, id, classes, attrs } => TagView::Heading,
        Tag::BlockQuote(_) => TagView::BlockQuote,
        Tag::CodeBlock(CodeBlockKind::Indented) => TagView::IndentedCode,
        Tag::CodeBlock(CodeBlockKind::Fenced(info)) => TagView::Fence(cow_text(info)),
        Tag::List(start) => TagView::List(start),
        Tag::Item => TagView::Item,
        Tag::Table(_) => TagView::Table,
        Tag::TableHead => TagView::TableHead,
        Tag::TableRow => TagView::TableRow,
        Tag::TableCell => TagView::TableCell,
        Tag::Emphasis => TagView::Emphasis,
        Tag::Strong => TagView::Strong,
        Tag::Strikethrough => TagView::Strikethrough,
        Tag::Link { link_type, dest_url, title, id } => TagView::Link(cow_text(dest_url)),
        _ => TagView::Other,
    }
}

pub open spec fn outside_tag_end(tag: TagEnd) -> MarkdownTagEnd {
    match tag {
        TagEnd::Paragraph => MarkdownTagEnd::Paragraph,
        TagEnd::Heading(_) => MarkdownTagEnd::Heading,
        TagEnd::BlockQuote(_) => MarkdownTagEnd::BlockQuote,
        TagEnd::CodeBlock => MarkdownTagEnd::CodeBlock,
        TagEnd::List(_) => MarkdownTagEnd::List,
        TagEnd::Item => MarkdownTagEnd::Item,
        TagEnd::Table => MarkdownTagEnd::Table,
        TagEnd::TableHead => MarkdownTagEnd::TableHead,
        TagEnd::TableRow => MarkdownTagEnd::TableRow,
        TagEnd::TableCell => MarkdownTagEnd::TableCell,
        TagEnd::Emphasis => MarkdownTagEnd::Emphasis,
        TagEnd::Strong => MarkdownTagEnd::Strong,
        TagEnd::Strikethrough => MarkdownTagEnd::Strikethrough,
        TagEnd::Link => MarkdownTagEnd::Link,
        _ => MarkdownTagEnd::Other,
    }
}

pub open spec fn outside_event(event: Event<'_>) -> EventView {
    match event {
        Event::Start(tag) => EventView::Start(outside_tag(tag)),
        Event::End(tag) => EventView::End(outside_tag_end(tag)),
        Event::Text(t) => EventView::Text(cow_text(t)),
        Event::Code(t) => EventView::Code(cow_text(t)),
        Event::InlineMath(t) => EventView::InlineMath(cow_text(t)),
        Event::DisplayMath(t) => EventView::DisplayMath(cow_text(t)),
        Event::Html(t) => EventView::Html(cow_text(t)),
        Event::InlineHtml(t) => EventView::InlineHtml(cow_text(t)),
        Event::FootnoteReference(t) => EventView::FootnoteReference(cow_text(t)),
        Event::SoftBreak => EventView::SoftBreak,
        Event::HardBreak => EventView::HardBreak,
        Event::Rule => EventView::Rule,
        Event::TaskListMarker(checked) => EventView::TaskListMarker(checked),
    }
}

pub open spec fn outside_events(events: Seq<Event<'_>>) -> Seq<EventView> {
    events.map_values(|e: Event<'_>| outside_event(e))
}

/// The events that `pulldown_cmark::Parser` yields for a text with every option on.
pub uninterp spec fn markdown_events_of(input: Seq<char>) -> Seq<EventView>;

/// Runs `pulldown_cmark::Parser::new_ext` with all options to its end. The events
/// depend on the characters of the input alone.
#[verifier::external_body]
fn parse_events(input: &str) -> (events: Vec<Event<'_>>)
    ensures
        outside_events(events@) == markdown_events_of(input@),
{
    Parser::new_ext(input, Options::all()).collect()
}

fn tag_from(tag: Tag<'_>) -> (r: MarkdownTag)
    ensures
        r@ == outside_tag(tag),
{
    match tag {
        Tag::Paragraph => MarkdownTag::Paragraph,
        Tag::Heading { .. } => MarkdownTag::Heading,
        Tag::BlockQuote(_) => MarkdownTag::BlockQuote,
        Tag::CodeBlock(CodeBlockKind::Indented) => MarkdownTag::IndentedCode,
        Tag::CodeBlock(CodeBlockKind::Fenced(info)) => MarkdownTag::Fence(info.into_string()),
        Tag::List(start) => MarkdownTag::List(start),
        Tag::Item => MarkdownTag::Item,
        Tag::Table(_) => MarkdownTag::Table,
        Tag::TableHead => MarkdownTag::TableHead,
        Tag::TableRow => MarkdownTag::TableRow,
        Tag::TableCell => MarkdownTag::TableCell,
        Tag::Emphasis => MarkdownTag::Emphasis,
        Tag::Strong => MarkdownTag::Strong,
        Tag::Strikethrough => MarkdownTag::Strikethrough,
        Tag::Link { dest_url, .. } => MarkdownTag::Link(dest_url.into_string()),
        _ => MarkdownTag::Other,
    }
}

fn tag_end_from(tag: TagEnd) -> (r: MarkdownTagEnd)
    ensures
        r == outside_tag_end(tag),
{
    match tag {
        TagEnd::Paragraph => MarkdownTagEnd::Paragraph,
        TagEnd::Heading(_) => MarkdownTagEnd::Heading,
        TagEnd::BlockQuote(_) => MarkdownTagEnd::BlockQuote,
        TagEnd::CodeBlock => MarkdownTagEnd::CodeBlock,
        TagEnd::List(_) => MarkdownTagEnd::List,
        TagEnd::Item => MarkdownTagEnd::Item,
        TagEnd::Table => MarkdownTagEnd::Table,
        TagEnd::TableHead => MarkdownTagEnd::TableHead,
        TagEnd::TableRow => MarkdownTagEnd::TableRow,
        TagEnd::TableCell => MarkdownTagEnd::TableCell,
        TagEnd::Emphasis => MarkdownTagEnd::Emphasis,
        TagEnd::Strong => MarkdownTagEnd::Strong,
        TagEnd::Strikethrough => MarkdownTagEnd::Strikethrough,
        TagEnd::Link => MarkdownTagEnd::Link,
        _ => MarkdownTagEnd::Other,
    }
}

fn event_from(event: Event<'_>) -> (r: MarkdownEvent)
    ensures
        r@ == outside_event(event),
{
    match event {
        Event::Start(tag) => MarkdownEvent::Start(tag_from(tag)),
        Event::End(tag) => MarkdownEvent::End(tag_end_from(tag)),
        Event::Text(t) => MarkdownEvent::Text(t.into_string()),
        Event::Code(t) => MarkdownEvent::Code(t.into_string()),
        Event::InlineMath(t) => MarkdownEvent::InlineMath(t.into_string()),
        Event::DisplayMath(t) => MarkdownEvent::DisplayMath(t.into_string()),
        Event::Html(t) => MarkdownEvent::Html(t.into_string()),
        Event::InlineHtml(t) => MarkdownEvent::InlineHtml(t.into_string()),
        Event::FootnoteReference(t) => MarkdownEvent::FootnoteReference(t.into_string()),
        Event::SoftBreak => MarkdownEvent::SoftBreak,
        Event::HardBreak => MarkdownEvent::HardBreak,
        Event::Rule => MarkdownEvent::Rule,
        Event::TaskListMarker(checked) => MarkdownEvent::TaskListMarker(checked),
    }
}

/// The markdown events of a text.
pub fn markdown_events(input: &str) -> (events: Vec<MarkdownEvent>)
    ensures
        events_view(events@) == markdown_events_of(input@),
{
    let mut outside: Vec<Event<'_>> = parse_events(input);
    let ghost all = outside@;
    let mut reversed: Vec<MarkdownEvent> = Vec::new();
    let mut events: Vec<MarkdownEvent> = Vec::new();
    let n: usize = outside.len();
    while outside.len() > 0
        invariant
            outside@.len() + reversed@.len() == all.len(),
            outside@ == all.take(outside@.len() as int),
            forall|j: int|
                0 <= j < reversed@.len() ==> (#[trigger] reversed@[j])@ == outside_event(
                    all[all.len() - 1 - j],
                ),
        decreases outside@.len(),
    {
        let ghost before = outside@;
        match outside.pop() {
            Some(event) => {
                assert(event == all[before.len() - 1]);
                reversed.push(event_from(event));
            },
            None => {},
        }
    }
    while reversed.len() > 0
        invariant
            events@.len() + reversed@.len() == all.len(),
            forall|j: int|
                0 <= j < reversed@.len() ==> (#[trigger] reversed@[j])@ == outside_event(
                    all[all.len() - 1 - j],
                ),
            forall|j: int|
                0 <= j < events@.len() ==> (#[trigger] events@[j])@ == outside_event(all[j]),
        decreases reversed@.len(),
    {
        match reversed.pop() {
            Some(event) => {
                events.push(event);
            },
            None => {},
        }
    }
    assert(events_view(events@) =~= outside_events(all));
    events
}

/// A cell's text with each run of white space made one space.
pub fn normalize_table_cell(value: &str) -> (r: String)
    ensures
        r@ == normalized_cell(value@),
{
    let words: Vec<String> = split_words(value);
    join(words.as_slice(), " ")
}

/// Builds a document from markdown events, one at a time.
#[derive(Debug)]
pub struct DocumentBuilder {
    pub block_stack: Vec<BlockContainer>,
    pub pending_inline_block: Option<PendingInlineBlock>,
    pub inline_stack: Vec<PendingInlineContainer>,
    pub code_block_language: Option<String>,
    pub code_block_buffer: Option<String>,
    pub pending_table: Option<PendingTable>,
}

impl DocumentBuilder {
    pub open spec fn view(self) -> ParserView {
        ParserView {
            containers: containers_view(self.block_stack@),
            pending: match self.pending_inline_block {
                Some(p) => Some(p@),
                None => None,
            },
            open: open_inlines_view(self.inline_stack@),
            language: opt_view(self.code_block_language),
            code: opt_view(self.code_block_buffer),
            table: match self.pending_table {
                Some(t) => Some(t@),
                None => None,
            },
        }
    }

    pub fn new() -> (r: Self)
        ensures
            r@ == ParserView::initial(),
    {
        let mut block_stack: Vec<BlockContainer> = Vec::new();
        block_stack.push(BlockContainer::Root(Vec::new()));
        let r = DocumentBuilder {
            block_stack,
            pending_inline_block: None,
            inline_stack: Vec::new(),
            code_block_language: None,
            code_block_buffer: None,
            pending_table: None,
        };
        assert(r@.containers =~= ParserView::initial().containers);
        assert(r@.open =~= Seq::empty());
        r
    }

    fn ensure_inline_block(&mut self)
        ensures
            final(self)@ == old(self)@.with_block(),
    {
        if self.pending_inline_block.is_none() {
            self.pending_inline_block =
            Some(PendingInlineBlock { kind: PendingBlockKind::Paragraph, inlines: Vec::new() });
        }
    }

    fn push_inline(&mut self, inline: RichInline)
        ensures
            final(self)@ == old(self)@.add_inline(inline@),
    {
        self.ensure_inline_block();
        match self.inline_stack.pop() {
            Some(mut container) => {
                container.inlines.push(inline);
                self.inline_stack.push(container);
            },
            None => {
                match self.pending_inline_block.take() {
                    Some(mut block) => {
                        block.inlines.push(inline);
                        self.pending_inline_block = Some(block);
                    },
                    None => {},
                }
            },
        }
    }

    fn open_inline(&mut self, style: InlineStyle, url: Option<String>)
        ensures
            final(self)@ == old(self)@.open_inline(style, opt_view(url)),
    {
        self.ensure_inline_block();
        self.inline_stack.push(PendingInlineContainer { style, url, inlines: Vec::new() });
    }

    fn close_inline(&mut self)
        ensures
            final(self)@ == old(self)@.close_inline(),
            old(self).inline_stack@.len() > 0 ==> final(self).inline_stack@.len()
                == old(self).inline_stack@.len() - 1,
    {
        match self.inline_stack.pop() {
            Some(container) => {
                let inline: RichInline = match container.style {
                    InlineStyle::Emphasis => RichInline::Emphasis(container.inlines),
                    InlineStyle::Strong => RichInline::Strong(container.inlines),
                    InlineStyle::Strikethrough => RichInline::Strikethrough(container.inlines),
                    InlineStyle::Link => RichInline::Link {
                        url: match container.url {
                            Some(url) => url,
                            None => String::new(),
                        },
                        content: container.inlines,
                    },
                };
                let ghost before = self@;
                self.push_inline(inline);
                assert(self@.open.len() == before.open.len());
            },
            None => {},
        }
    }

    fn push_block(&mut self, block: RichBlock)
        ensures
            final(self)@ == old(self)@.add_block(block@),
    {
        match self.block_stack.pop() {
            Some(container) => {
                let next: BlockContainer = match container {
                    BlockContainer::Root(mut blocks) => {
                        blocks.push(block);
                        BlockContainer::Root(blocks)
                    },
                    BlockContainer::BlockQuote(mut blocks) => {
                        blocks.push(block);
                        BlockContainer::BlockQuote(blocks)
                    },
                    BlockContainer::ListItem(mut blocks) => {
                        blocks.push(block);
                        BlockContainer::ListItem(blocks)
                    },
                    BlockContainer::List { start, items } => BlockContainer::List { start, items },
                };
                self.block_stack.push(next);
            },
            None => {},
        }
    }

    fn flush_inline_block(&mut self)
        ensures
            final(self)@ == old(self)@.flushed(),
    {
        while self.inline_stack.len() > 0
            invariant
                self@.close_inlines() == old(self)@.close_inlines(),
            decreases self.inline_stack@.len(),
        {
            self.close_inline();
        }
        match self.pending_inline_block.take() {
            Some(block) => {
                if block.inlines.len() > 0 {
                    let rich: RichBlock = match block.kind {
                        PendingBlockKind::Paragraph => RichBlock::Paragraph(block.inlines),
                        PendingBlockKind::Heading => RichBlock::Heading(block.inlines),
                    };
                    self.push_block(rich);
                }
            },
            None => {},
        }
    }

    fn open_container(&mut self, container: BlockContainer)
        ensures
            final(self)@ == old(self)@.open_container(container@),
    {
        self.flush_inline_block();
        self.block_stack.push(container);
    }

    fn begin_block(&mut self, kind: PendingBlockKind)
        ensures
            final(self)@ == old(self)@.begin_block(kind),
    {
        self.flush_inline_block();
        self.pending_inline_block = Some(PendingInlineBlock { kind, inlines: Vec::new() });
    }

    fn begin_code(&mut self, language: Option<String>)
        ensures
            final(self)@ == old(self)@.begin_code(opt_view(language)),
    {
        self.flush_inline_block();
        self.code_block_language = language;
        self.code_block_buffer = Some(String::new());
    }

    fn end_quote(&mut self)
        ensures
            final(self)@ == old(self)@.end_quote(),
    {
        self.flush_inline_block();
        match self.block_stack.pop() {
            Some(BlockContainer::BlockQuote(blocks)) => {
                self.push_block(RichBlock::BlockQuote(blocks));
            },
            _ => {},
        }
    }

    fn end_list(&mut self)
        ensures
            final(self)@ == old(self)@.end_list(),
    {
        self.flush_inline_block();
        match self.block_stack.pop() {
            Some(BlockContainer::List { start, items }) => {
                self.push_block(RichBlock::List { start, items });
            },
            _ => {},
        }
    }

    fn end_item(&mut self)
        ensures
            final(self)@ == old(self)@.end_item(),
    {
        self.flush_inline_block();
        match self.block_stack.pop() {
            Some(BlockContainer::ListItem(blocks)) => {
                let ghost mid = self.block_stack@;
                match self.block_stack.pop() {
                    Some(BlockContainer::List { start, mut items }) => {
                        items.push(blocks);
                        self.block_stack.push(BlockContainer::List { start, items });
                    },
                    Some(other) => {
                        self.block_stack.push(other);
                        assert(self.block_stack@ =~= mid);
                    },
                    None => {},
                }
            },
            _ => {},
        }
    }

    fn end_code(&mut self)
        ensures
            final(self)@ == old(self)@.end_code(),
    {
        let code: String = match self.code_block_buffer.take() {
            Some(code) => code,
            None => String::new(),
        };
        let language: Option<String> = self.code_block_language.take();
        self.push_block(RichBlock::CodeBlock { language, code });
    }

    fn end_table(&mut self)
        ensures
            final(self)@ == old(self)@.end_table(),
    {
        match self.pending_table.take() {
            Some(table) => {
                self.push_block(
                    RichBlock::Table(
                        RichTable { rows: table.rows, header_rows: table.header_rows },
                    ),
                );
            },
            None => {},
        }
    }

    fn table_row_closed(table: PendingTable) -> (r: PendingTable)
        ensures
            r@ == table@.row_closed(),
    {
        let mut t: PendingTable = table;
        if t.current_row.len() > 0 {
            t.rows.push(t.current_row);
            t.current_row = Vec::new();
            assert(t@.current_row =~= Seq::empty());
        }
        t
    }

    fn start(&mut self, tag: &MarkdownTag)
        ensures
            final(self)@ == old(self)@.start(tag@),
    {
        match tag {
            MarkdownTag::Table => {
                self.flush_inline_block();
                let t = PendingTable {
                    rows: Vec::new(),
                    current_row: Vec::new(),
                    current_cell: String::new(),
                    header_rows: 0,
                };
                assert(t@.rows =~= Seq::empty());
                assert(t@.current_row =~= Seq::empty());
                self.pending_table = Some(t);
            },
            MarkdownTag::TableRow => {
                match self.pending_table.take() {
                    Some(mut t) => {
                        t.current_row = Vec::new();
                        assert(t@.current_row =~= Seq::empty());
                        self.pending_table = Some(t);
                    },
                    None => {},
                }
            },
            MarkdownTag::TableCell => {
                match self.pending_table.take() {
                    Some(mut t) => {
                        t.current_cell = String::new();
                        self.pending_table = Some(t);
                    },
                    None => {},
                }
            },
            MarkdownTag::Paragraph => {
                self.begin_block(PendingBlockKind::Paragraph);
            },
            MarkdownTag::Heading => {
                self.begin_block(PendingBlockKind::Heading);
            },
            MarkdownTag::BlockQuote => {
                self.open_container(BlockContainer::BlockQuote(Vec::new()));
            },
            MarkdownTag::List(start) => {
                self.open_container(BlockContainer::List { start: *start, items: Vec::new() });
            },
            MarkdownTag::Item => {
                self.open_container(BlockContainer::ListItem(Vec::new()));
            },
            MarkdownTag::Emphasis => {
                self.open_inline(InlineStyle::Emphasis, None);
            },
            MarkdownTag::Strong => {
                self.open_inline(InlineStyle::Strong, None);
            },
            MarkdownTag::Strikethrough => {
                self.open_inline(InlineStyle::Strikethrough, None);
            },
            MarkdownTag::Link(url) => {
                self.open_inline(InlineStyle::Link, Some(url.clone()));
            },
            MarkdownTag::IndentedCode => {
                self.begin_code(None);
            },
            MarkdownTag::Fence(info) => {
                let language: &str = trim(info.as_str());
                if language.is_empty() {
                    self.begin_code(None);
                } else {
                    self.begin_code(Some(language.to_owned()));
                }
            },
            MarkdownTag::TableHead => {},
            MarkdownTag::Other => {},
        }
    }

    fn end(&mut self, tag: MarkdownTagEnd)
        ensures
            final(self)@ == old(self)@.end(tag),
    {
        match tag {
            MarkdownTagEnd::Table => {
                self.end_table();
            },
            MarkdownTagEnd::TableHead => {
                match self.pending_table.take() {
                    Some(t) => {
                        let mut closed: PendingTable = Self::table_row_closed(t);
                        closed.header_rows = closed.rows.len();
                        self.pending_table = Some(closed);
                    },
                    None => {},
                }
            },
            MarkdownTagEnd::TableRow => {
                match self.pending_table.take() {
                    Some(t) => {
                        self.pending_table = Some(Self::table_row_closed(t));
                    },
                    None => {},
                }
            },
            MarkdownTagEnd::TableCell => {
                match self.pending_table.take() {
                    Some(mut t) => {
                        let cell: String = normalize_table_cell(t.current_cell.as_str());
                        t.current_row.push(cell);
                        t.current_cell = String::new();
                        self.pending_table = Some(t);
                    },
                    None => {},
                }
            },
            MarkdownTagEnd::Paragraph | MarkdownTagEnd::Heading => {
                self.flush_inline_block();
            },
            MarkdownTagEnd::BlockQuote => {
                self.end_quote();
            },
            MarkdownTagEnd::List => {
                self.end_list();
            },
            MarkdownTagEnd::Item => {
                self.end_item();
            },
            MarkdownTagEnd::Emphasis
            | MarkdownTagEnd::Strong
            | MarkdownTagEnd::Strikethrough
            | MarkdownTagEnd::Link => {
                self.close_inline();
            },
            MarkdownTagEnd::CodeBlock => {
                self.end_code();
            },
            MarkdownTagEnd::Other => {},
        }
    }

    fn text(&mut self, text: &str)
        ensures
            final(self)@ == old(self)@.text(text@),
    {
        match self.pending_table.take() {
            Some(mut t) => {
                t.current_cell.append(text);
                self.pending_table = Some(t);
            },
            None => {
                match self.code_block_buffer.take() {
                    Some(mut code) => {
                        code.append(text);
                        self.code_block_buffer = Some(code);
                    },
                    None => {
                        self.push_inline(RichInline::Text(text.to_owned()));
                    },
                }
            },
        }
    }

    fn line_break(&mut self)
        ensures
            final(self)@ == old(self)@.line_break(),
    {
        match self.pending_table.take() {
            Some(mut t) => {
                if !ends_with_char(t.current_cell.as_str(), ' ') {
                    t.current_cell.push(' ');
                }
                self.pending_table = Some(t);
            },
            None => {
                match self.code_block_buffer.take() {
                    Some(mut code) => {
                        code.push('\n');
                        self.code_block_buffer = Some(code);
                    },
                    None => {
                        self.push_inline(RichInline::LineBreak);
                    },
                }
            },
        }
    }

    /// Takes in one event.
    pub fn step(&mut self, event: &MarkdownEvent)
        ensures
            final(self)@ == old(self)@.step(event@),
    {
        match event {
            MarkdownEvent::Start(tag) => {
                self.start(tag);
            },
            MarkdownEvent::End(tag) => {
                self.end(*tag);
            },
            MarkdownEvent::Text(t) => {
                self.text(t.as_str());
            },
            MarkdownEvent::Code(t) => {
                match self.pending_table.take() {
                    Some(mut table) => {
                        table.current_cell.append(t.as_str());
                        self.pending_table = Some(table);
                    },
                    None => {
                        self.push_inline(RichInline::Code(t.clone()));
                    },
                }
            },
            MarkdownEvent::SoftBreak | MarkdownEvent::HardBreak => {
                self.line_break();
            },
            MarkdownEvent::Rule => {
                self.flush_inline_block();
                self.push_block(RichBlock::ThematicBreak);
            },
            MarkdownEvent::Html(t) | MarkdownEvent::InlineHtml(t) => {
                self.push_inline(RichInline::Text(t.clone()));
            },
            MarkdownEvent::InlineMath(t) => {
                self.push_inline(RichInline::Code(t.clone()));
            },
            MarkdownEvent::DisplayMath(t) => {
                self.flush_inline_block();
                self.push_block(RichBlock::CodeBlock { language: None, code: t.clone() });
            },
            MarkdownEvent::FootnoteReference(t) => {
                self.push_inline(RichInline::Text(cat3("[", t.as_str(), "]")));
            },
            MarkdownEvent::TaskListMarker(checked) => {
                let mark: &str = if *checked {
                    "☑ "
                } else {
                    "☐ "
                };
                self.push_inline(RichInline::Text(mark.to_owned()));
            },
        }
    }
}

/// The document that a row of markdown events describes.
pub fn document_from_events(events: &Vec<MarkdownEvent>) -> (document: RichDocument)
    ensures
        blocks_view(document.blocks@) == document_blocks(events_view(events@)),
{
    let mut builder: DocumentBuilder = DocumentBuilder::new();
    let ghost all = events_view(events@);
    let mut i: usize = 0;
    assert(all.skip(0) =~= all);
    while i < events.len()
        invariant
            i <= events@.len(),
            all == events_view(events@),
            builder@.run(all.skip(i as int)) == ParserView::initial().run(all),
        decreases events@.len() - i,
    {
        assert(all.skip(i as int).drop_first() =~= all.skip(i + 1));
        assert(all.skip(i as int)[0] == events@[i as int]@);
        builder.step(&events[i]);
        i += 1;
    }
    assert(all.skip(i as int) =~= Seq::empty());
    builder.flush_inline_block();
    match builder.block_stack.pop() {
        Some(BlockContainer::Root(blocks)) => RichDocument { blocks },
        _ => {
            let blocks: Vec<RichBlock> = Vec::new();
            RichDocument { blocks }
        },
    }
}

/// Reads markdown into a document.
pub fn parse_markdown_to_rich_document(input: &str) -> (document: RichDocument)
    ensures
        blocks_view(document.blocks@) == document_blocks(markdown_events_of(input@)),
{
    let events: Vec<MarkdownEvent> = markdown_events(input);
    document_from_events(&events)
}

/// Every element is read as what it is, and a link with its address.
pub proof fn outside_tags_keep_their_meaning(tag: Tag<'_>)
    ensures
        tag is Paragraph <==> outside_tag(tag) is Paragraph,
        tag is Heading <==> outside_tag(tag) is Heading,
        tag is BlockQuote <==> outside_tag(tag) is BlockQuote,
        tag is Item <==> outside_tag(tag) is Item,
        tag is Table <==> outside_tag(tag) is Table,
        tag is TableHead <==> outside_tag(tag) is TableHead,
        tag is TableRow <==> outside_tag(tag) is TableRow,
        tag is TableCell <==> outside_tag(tag) is TableCell,
        tag is Emphasis <==> outside_tag(tag) is Emphasis,
        tag is Strong <==> outside_tag(tag) is Strong,
        tag is Strikethrough <==> outside_tag(tag) is Strikethrough,
        tag is CodeBlock <==> outside_tag(tag) is Fence || outside_tag(tag) is IndentedCode,
        tag matches Tag::List(start) ==> outside_tag(tag) == TagView::List(start),
        tag matches Tag::Link { link_type, dest_url, title, id } ==> outside_tag(tag)
            == TagView::Link(cow_text(dest_url)),
        tag matches Tag::CodeBlock(CodeBlockKind::Fenced(info)) ==> outside_tag(tag)
            == TagView::Fence(cow_text(info)),
{
}

/// Every event is read as what it is, with its text.
pub proof fn outside_events_keep_their_meaning(event: Event<'_>)
    ensures
        event matches Event::Text(t) ==> outside_event(event) == EventView::Text(cow_text(t)),
        event matches Event::Code(t) ==> outside_event(event) == EventView::Code(cow_text(t)),
        event matches Event::InlineMath(t) ==> outside_event(event) == EventView::InlineMath(
            cow_text(t),
        ),
        event matches Event::DisplayMath(t) ==> outside_event(event) == EventView::DisplayMath(
            cow_text(t),
        ),
        event matches Event::Html(t) ==> outside_event(event) == EventView::Html(cow_text(t)),
        event matches Event::InlineHtml(t) ==> outside_event(event) == EventView::InlineHtml(
            cow_text(t),
        ),
        event matches Event::FootnoteReference(t) ==> outside_event(event)
            == EventView::FootnoteReference(cow_text(t)),
        event is SoftBreak ==> outside_event(event) == EventView::SoftBreak,
        event is HardBreak ==> outside_event(event) == EventView::HardBreak,
        event is Rule ==> outside_event(event) == EventView::Rule,
        event matches Event::TaskListMarker(c) ==> outside_event(event)
            == EventView::TaskListMarker(c),
        event matches Event::Start(tag) ==> outside_event(event) == EventView::Start(
            outside_tag(tag),
        ),
        event matches Event::End(TagEnd::Strong) ==> outside_event(event) == EventView::End(
            MarkdownTagEnd::Strong,
        ),
        event matches Event::End(TagEnd::Emphasis) ==> outside_event(event) == EventView::End(
            MarkdownTagEnd::Emphasis,
        ),
        event matches Event::End(TagEnd::Link) ==> outside_event(event) == EventView::End(
            MarkdownTagEnd::Link,
        ),
        event matches Event::End(TagEnd::CodeBlock) ==> outside_event(event) == EventView::End(
            MarkdownTagEnd::CodeBlock,
        ),
        event matches Event::End(TagEnd::Item) ==> outside_event(event) == EventView::End(
            MarkdownTagEnd::Item,
        ),
        event matches Event::End(TagEnd::TableCell) ==> outside_event(event) == EventView::End(
            MarkdownTagEnd::TableCell,
        ),
        event matches Event::End(TagEnd::TableRow) ==> outside_event(event) == EventView::End(
            MarkdownTagEnd::TableRow,
        ),
{
}

} // verus!

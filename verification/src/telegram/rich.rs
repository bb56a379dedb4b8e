//! Rich documents: the block and inline structure that messages are rendered from.

use vstd::prelude::*;
use crate::text::{opt_view, views};

verus! {

/// A document is a list of blocks.
#[derive(Debug)]
pub struct RichDocument {
    pub blocks: Vec<RichBlock>,
}

#[derive(Debug)]
pub enum RichBlock {
    Paragraph(Vec<RichInline>),
    Heading(Vec<RichInline>),
    BlockQuote(Vec<RichBlock>),
    List { start: Option<u64>, items: Vec<Vec<RichBlock>> },
    CodeBlock { language: Option<String>, code: String },
    Table(RichTable),
    ThematicBreak,
}

/// A table of cells; the first `header_rows` rows are its head.
#[derive(Debug)]
pub struct RichTable {
    pub rows: Vec<Vec<String>>,
    pub header_rows: usize,
}

#[derive(Debug)]
pub enum RichInline {
    Text(String),
    Emphasis(Vec<RichInline>),
    Strong(Vec<RichInline>),
    Strikethrough(Vec<RichInline>),
    Link { url: String, content: Vec<RichInline> },
    Code(String),
    LineBreak,
}

/// The mathematical value of an inline.
pub enum InlineView {
    Text(Seq<char>),
    Emphasis(Seq<InlineView>),
    Strong(Seq<InlineView>),
    Strikethrough(Seq<InlineView>),
    Link { url: Seq<char>, content: Seq<InlineView> },
    Code(Seq<char>),
    LineBreak,
}

/// The mathematical value of a table.
pub struct TableView {
    pub rows: Seq<Seq<Seq<char>>>,
    pub header_rows: nat,
}

/// The mathematical value of a block.
pub enum BlockView {
    Paragraph(Seq<InlineView>),
    Heading(Seq<InlineView>),
    BlockQuote(Seq<BlockView>),
    List { start: Option<u64>, items: Seq<Seq<BlockView>> },
    CodeBlock { language: Option<Seq<char>>, code: Seq<char> },
    Table(TableView),
    ThematicBreak,
}

impl RichInline {
    pub open spec fn view(self) -> InlineView
        decreases self,
    {
        match self {
            RichInline::Text(t) => InlineView::Text(t@),
            RichInline::Emphasis(c) => InlineView::Emphasis(inlines_view(c@)),
            RichInline::Strong(c) => InlineView::Strong(inlines_view(c@)),
            RichInline::Strikethrough(c) => InlineView::Strikethrough(inlines_view(c@)),
            RichInline::Link { url, content } => InlineView::Link {
                url: url@,
                content: inlines_view(content@),
            },
            RichInline::Code(t) => InlineView::Code(t@),
            RichInline::LineBreak => InlineView::LineBreak,
        }
    }
}

pub open spec fn inlines_view(s: Seq<RichInline>) -> Seq<InlineView>
    decreases s,
{
    if s.len() == 0 {
        Seq::empty()
    } else {
        inlines_view(s.drop_last()).push(s.last().view())
    }
}

pub open spec fn rows_view(rows: Seq<Vec<String>>) -> Seq<Seq<Seq<char>>> {
    rows.map_values(|row: Vec<String>| views(row@))
}

impl RichTable {
    pub open spec fn view(self) -> TableView {
        TableView { rows: rows_view(self.rows@), header_rows: self.header_rows as nat }
    }
}

impl RichBlock {
    pub open spec fn view(self) -> BlockView
        decreases self,
    {
        match self {
            RichBlock::Paragraph(c) => BlockView::Paragraph(inlines_view(c@)),
            RichBlock::Heading(c) => BlockView::Heading(inlines_view(c@)),
            RichBlock::BlockQuote(c) => BlockView::BlockQuote(blocks_view(c@)),
            RichBlock::List { start, items } => BlockView::List { start, items: items_view(items@) },
            RichBlock::CodeBlock { language, code } => BlockView::CodeBlock {
                language: opt_view(language),
                code: code@,
            },
            RichBlock::Table(t) => BlockView::Table(t@),
            RichBlock::ThematicBreak => BlockView::ThematicBreak,
        }
    }
}

pub open spec fn blocks_view(s: Seq<RichBlock>) -> Seq<BlockView>
    decreases s,
{
    if s.len() == 0 {
        Seq::empty()
    } else {
        blocks_view(s.drop_last()).push(s.last().view())
    }
}

pub open spec fn items_view(s: Seq<Vec<RichBlock>>) -> Seq<Seq<BlockView>>
    decreases s,
{
    if s.len() == 0 {
        Seq::empty()
    } else {
        items_view(s.drop_last()).push(blocks_view(s.last()@))
    }
}

pub broadcast proof fn lemma_inlines_view_index(s: Seq<RichInline>)
    ensures
        (#[trigger] inlines_view(s)).len() == s.len(),
        forall|i: int| 0 <= i < s.len() ==> (#[trigger] inlines_view(s)[i]) == s[i].view(),
    decreases s.len(),
{
    if s.len() > 0 {
        lemma_inlines_view_index(s.drop_last());
    }
}

pub broadcast proof fn lemma_blocks_view_index(s: Seq<RichBlock>)
    ensures
        (#[trigger] blocks_view(s)).len() == s.len(),
        forall|i: int| 0 <= i < s.len() ==> (#[trigger] blocks_view(s)[i]) == s[i].view(),
    decreases s.len(),
{
    if s.len() > 0 {
        lemma_blocks_view_index(s.drop_last());
    }
}

pub broadcast proof fn lemma_items_view_index(s: Seq<Vec<RichBlock>>)
    ensures
        (#[trigger] items_view(s)).len() == s.len(),
        forall|i: int| 0 <= i < s.len() ==> (#[trigger] items_view(s)[i]) == blocks_view(s[i]@),
    decreases s.len(),
{
    if s.len() > 0 {
        lemma_items_view_index(s.drop_last());
    }
}

pub broadcast proof fn lemma_inlines_view_push(s: Seq<RichInline>, x: RichInline)
    ensures
        #[trigger] inlines_view(s.push(x)) == inlines_view(s).push(x.view()),
{
    assert(s.push(x).drop_last() =~= s);
}

pub broadcast proof fn lemma_blocks_view_push(s: Seq<RichBlock>, x: RichBlock)
    ensures
        #[trigger] blocks_view(s.push(x)) == blocks_view(s).push(x.view()),
{
    assert(s.push(x).drop_last() =~= s);
}

pub broadcast proof fn lemma_items_view_push(s: Seq<Vec<RichBlock>>, x: Vec<RichBlock>)
    ensures
        #[trigger] items_view(s.push(x)) == items_view(s).push(blocks_view(x@)),
{
    assert(s.push(x).drop_last() =~= s);
}

pub broadcast proof fn lemma_rows_view_push(s: Seq<Vec<String>>, x: Vec<String>)
    ensures
        #[trigger] rows_view(s.push(x)) == rows_view(s).push(views(x@)),
{
    assert(rows_view(s.push(x)) =~= rows_view(s).push(views(x@)));
}

pub broadcast proof fn lemma_views_push(s: Seq<String>, x: String)
    ensures
        #[trigger] views(s.push(x)) == views(s).push(x@),
{
    assert(views(s.push(x)) =~= views(s).push(x@));
}

pub broadcast group group_rich_views {
    lemma_inlines_view_index,
    lemma_blocks_view_index,
    lemma_items_view_index,
    lemma_inlines_view_push,
    lemma_blocks_view_push,
    lemma_items_view_push,
    lemma_rows_view_push,
    lemma_views_push,
}

} // verus!

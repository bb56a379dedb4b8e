//! Copies of rich documents, equal to what they were made from.

use vstd::prelude::*;
use crate::text::{opt_copy, views_copy};
use super::rich::{
    blocks_view, group_rich_views, inlines_view, items_view, rows_view, RichBlock, RichInline,
    RichTable,
};

verus! {

broadcast use group_rich_views;

pub fn copy_inline(x: &RichInline) -> (r: RichInline)
    ensures
        r.view() == x.view(),
    decreases x,
{
    match x {
        RichInline::Text(t) => RichInline::Text(t.clone()),
        RichInline::Emphasis(c) => RichInline::Emphasis(copy_inlines(c)),
        RichInline::Strong(c) => RichInline::Strong(copy_inlines(c)),
        RichInline::Strikethrough(c) => RichInline::Strikethrough(copy_inlines(c)),
        RichInline::Link { url, content } => RichInline::Link {
            url: url.clone(),
            content: copy_inlines(content),
        },
        RichInline::Code(t) => RichInline::Code(t.clone()),
        RichInline::LineBreak => RichInline::LineBreak,
    }
}

pub fn copy_inlines(list: &Vec<RichInline>) -> (r: Vec<RichInline>)
    ensures
        inlines_view(r@) == inlines_view(list@),
    decreases list,
{
    let mut r: Vec<RichInline> = Vec::new();
    let mut i: usize = 0;
    while i < list.len()
        invariant
            i <= list@.len(),
            inlines_view(r@) =~= inlines_view(list@).take(i as int),
        decreases list@.len() - i,
    {
        let x: RichInline = copy_inline(&list[i]);
        r.push(x);
        i += 1;
    }
    assert(inlines_view(list@).take(list@.len() as int) =~= inlines_view(list@));
    r
}

pub fn copy_table(table: &RichTable) -> (r: RichTable)
    ensures
        r@ == table@,
{
    let mut rows: Vec<Vec<String>> = Vec::new();
    let mut i: usize = 0;
    while i < table.rows.len()
        invariant
            i <= table.rows@.len(),
            rows_view(rows@) =~= rows_view(table.rows@).take(i as int),
        decreases table.rows@.len() - i,
    {
        let row: Vec<String> = views_copy(&table.rows[i]);
        rows.push(row);
        i += 1;
    }
    assert(rows_view(table.rows@).take(table.rows@.len() as int) =~= rows_view(table.rows@));
    RichTable { rows, header_rows: table.header_rows }
}

pub fn copy_block(x: &RichBlock) -> (r: RichBlock)
    ensures
        r.view() == x.view(),
    decreases x,
{
    match x {
        RichBlock::Paragraph(c) => RichBlock::Paragraph(copy_inlines(c)),
        RichBlock::Heading(c) => RichBlock::Heading(copy_inlines(c)),
        RichBlock::BlockQuote(c) => RichBlock::BlockQuote(copy_blocks(c)),
        RichBlock::List { start, items } => RichBlock::List {
            start: *start,
            items: copy_items(items),
        },
        RichBlock::CodeBlock { language, code } => RichBlock::CodeBlock {
            language: opt_copy(language),
            code: code.clone(),
        },
        RichBlock::Table(t) => RichBlock::Table(copy_table(t)),
        RichBlock::ThematicBreak => RichBlock::ThematicBreak,
    }
}

pub fn copy_blocks(list: &Vec<RichBlock>) -> (r: Vec<RichBlock>)
    ensures
        blocks_view(r@) == blocks_view(list@),
    decreases list,
{
    let mut r: Vec<RichBlock> = Vec::new();
    let mut i: usize = 0;
    while i < list.len()
        invariant
            i <= list@.len(),
            blocks_view(r@) =~= blocks_view(list@).take(i as int),
        decreases list@.len() - i,
    {
        let x: RichBlock = copy_block(&list[i]);
        r.push(x);
        i += 1;
    }
    assert(blocks_view(list@).take(list@.len() as int) =~= blocks_view(list@));
    r
}

pub fn copy_items(list: &Vec<Vec<RichBlock>>) -> (r: Vec<Vec<RichBlock>>)
    ensures
        items_view(r@) == items_view(list@),
    decreases list,
{
    let mut r: Vec<Vec<RichBlock>> = Vec::new();
    let mut i: usize = 0;
    while i < list.len()
        invariant
            i <= list@.len(),
            items_view(r@) =~= items_view(list@).take(i as int),
        decreases list@.len() - i,
    {
        let x: Vec<RichBlock> = copy_blocks(&list[i]);
        r.push(x);
        i += 1;
    }
    assert(items_view(list@).take(list@.len() as int) =~= items_view(list@));
    r
}

} // verus!

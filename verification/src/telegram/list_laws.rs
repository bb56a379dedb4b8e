//! Laws of lists that are cut: the parts are lists of the same kind that hold all items in
//! order and go on counting.

use vstd::prelude::*;
use super::rich::BlockView;
use super::split_model::{
    all_items_fit, block_length, item_number, list_block, pack_items, split_block, split_items,
};

verus! {

/// The items of the list that a part holds.
pub open spec fn listed(part: Seq<BlockView>) -> Seq<Seq<BlockView>> {
    match part[0] {
        BlockView::List { start, items } => items,
        _ => Seq::empty(),
    }
}

/// The items of the first `n` parts, one after another.
pub open spec fn listed_in(parts: Seq<Seq<BlockView>>, n: int) -> Seq<Seq<BlockView>>
    decreases n,
{
    if n <= 0 || n > parts.len() {
        Seq::empty()
    } else {
        listed_in(parts, n - 1) + listed(parts[n - 1])
    }
}

/// Whether parts are lists that count on: each holds one list, an ordered one starts at the
/// first number plus the number of items in the parts before it, and one with bullets has
/// bullets.
pub open spec fn counts_on(start: Option<u64>, before: nat, parts: Seq<Seq<BlockView>>) -> bool {
    forall|i: int|
        0 <= i < parts.len() ==> (#[trigger] parts[i]).len() == 1 && (
        parts[i][0] matches BlockView::List { start: own, items } && items.len() > 0 && match start {
            Some(n) => own matches Some(m) && m == (n as int + before + listed_in(parts, i).len())
                % 0x1_0000_0000_0000_0000,
            None => own is None,
        })
}

proof fn lemma_listed_cons(first: Seq<BlockView>, tail: Seq<Seq<BlockView>>, n: int)
    requires
        0 <= n <= tail.len(),
    ensures
        listed_in(seq![first] + tail, n + 1) == listed(first) + listed_in(tail, n),
    decreases n,
{
    let parts = seq![first] + tail;
    if n == 0 {
        assert(listed_in(parts, 0) == Seq::<Seq<BlockView>>::empty());
        assert(parts[0] == first);
        assert(listed_in(parts, 1) =~= listed(first) + listed_in(tail, 0));
    } else {
        lemma_listed_cons(first, tail, n - 1);
        assert(parts[n] == tail[n - 1]);
        assert(listed_in(parts, n + 1) =~= listed(first) + listed_in(tail, n));
    }
}

proof fn lemma_pack_counts(
    start: Option<u64>,
    items: Seq<Seq<BlockView>>,
    index: nat,
    current_start: Option<u64>,
    current: Seq<Seq<BlockView>>,
    max: nat,
)
    requires
        current.len() <= index,
        match start {
            Some(n) => current_start matches Some(m) && m == (n as int + index - current.len())
                % 0x1_0000_0000_0000_0000,
            None => current_start is None,
        },
    ensures
        pack_items(start, items, index, current_start, current, max) matches Some(parts)
            ==> counts_on(start, (index - current.len()) as nat, parts) && listed_in(
            parts,
            parts.len() as int,
        ) == current + items,
    decreases items.len(),
{
    let before = (index - current.len()) as nat;
    let block = list_block(current_start, current);
    let closed = if current.len() == 0 {
        Seq::empty()
    } else {
        seq![seq![block]]
    };
    let result = pack_items(start, items, index, current_start, current, max);
    if result is None {
        return;
    }
    let parts = result->0;
    if items.len() == 0 {
        if current.len() > 0 {
            assert(listed_in(parts, 0) == Seq::<Seq<BlockView>>::empty());
            assert(listed_in(parts, 1) =~= current);
        }
        assert(current + items =~= current);
    } else if block_length(
        list_block(current_start, current.push(items[0])),
    ) <= max {
        lemma_pack_counts(
            start,
            items.drop_first(),
            index + 1,
            current_start,
            current.push(items[0]),
            max,
        );
        assert(current.push(items[0]) + items.drop_first() =~= current + items);
    } else {
        let next_start = if current.len() == 0 {
            current_start
        } else {
            match start {
                Some(n) => Some(item_number(n, index)),
                None => None,
            }
        };
        lemma_pack_counts(start, items.drop_first(), index + 1, next_start, seq![items[0]], max);
        let tail = pack_items(
            start,
            items.drop_first(),
            index + 1,
            next_start,
            seq![items[0]],
            max,
        )->0;
        assert(seq![items[0]] + items.drop_first() =~= items);
        if current.len() == 0 {
            assert(parts =~= tail);
            assert(current + items =~= items);
        } else {
            let first = seq![block];
            assert(parts =~= seq![first] + tail);
            lemma_listed_cons(first, tail, tail.len() as int);
            assert(listed(first) == current);
            assert forall|i: int| 0 <= i < parts.len() implies (#[trigger] parts[i]).len() == 1 && (
            parts[i][0] matches BlockView::List { start: own, items: its } && its.len() > 0
                && match start {
                Some(n) => own matches Some(m) && m == (n as int + before + listed_in(
                    parts,
                    i,
                ).len()) % 0x1_0000_0000_0000_0000,
                None => own is None,
            }) by {
                if i == 0 {
                    assert(listed_in(parts, 0) == Seq::<Seq<BlockView>>::empty());
                } else {
                    assert(parts[i] == tail[i - 1]);
                    lemma_listed_cons(first, tail, i - 1);
                    assert(listed_in(parts, i).len() == current.len() + listed_in(
                        tail,
                        i - 1,
                    ).len());
                }
            }
        }
    }
}

/// When a list is cut, every part is a list, an ordered list stays ordered, and each part
/// starts at the first number plus the number of items in the parts before it: the marks of
/// all items over all parts count on without a gap. Items that fit are kept whole and in
/// order.
pub proof fn cut_list_counts_on(start: Option<u64>, items: Seq<Seq<BlockView>>, max: nat)
    requires
        items.len() > 0,
    ensures
        split_block(BlockView::List { start, items }, max) matches Some(parts) ==> counts_on(
            start,
            0,
            parts,
        ) && (all_items_fit(start, items, max) ==> listed_in(parts, parts.len() as int) == items),
{
    let x = BlockView::List { start, items };
    if block_length(x) <= max {
        let parts = seq![seq![x]];
        assert(listed_in(parts, 0) == Seq::<Seq<BlockView>>::empty());
        assert(listed_in(parts, 1) =~= items);
        assert(counts_on(start, 0, parts));
    } else if let Some(whole) = split_items(start, items, max) {
        lemma_pack_counts(start, whole, 0, start, Seq::empty(), max);
        assert(Seq::<Seq<BlockView>>::empty() + whole =~= whole);
        if all_items_fit(start, items, max) {
            lemma_items_that_fit(start, items, max);
        }
    }
}

proof fn lemma_items_that_fit(start: Option<u64>, items: Seq<Seq<BlockView>>, max: nat)
    requires
        forall|i: int|
            0 <= i < items.len() ==> block_length(
                list_block(start, seq![#[trigger] items[i]]),
            ) <= max,
    ensures
        split_items(start, items, max) == Some(items),
    decreases items.len(),
{
    if items.len() > 0 {
        let rest = items.drop_first();
        assert forall|i: int| 0 <= i < rest.len() implies block_length(
            list_block(start, seq![#[trigger] rest[i]]),
        ) <= max by {
            assert(rest[i] == items[i + 1]);
        }
        assert(block_length(list_block(start, seq![items[0]])) <= max);
        lemma_items_that_fit(start, rest, max);
        assert(seq![items[0]] + rest =~= items);
    } else {
        assert(items =~= Seq::empty());
    }
}

/// When a quote is cut, every part is a quote again.
pub proof fn cut_quote_stays_quoted(inner: Seq<BlockView>, max: nat)
    ensures
        split_block(BlockView::BlockQuote(inner), max) matches Some(parts) ==> forall|i: int|
            0 <= i < parts.len() ==> (#[trigger] parts[i]).len() == 1 && parts[i][0] is BlockQuote,
{
}

/// When a block of code is cut, every part is code in the same language.
pub proof fn cut_code_keeps_its_language(language: Option<Seq<char>>, code: Seq<char>, max: nat)
    ensures
        split_block(BlockView::CodeBlock { language, code }, max) matches Some(parts) ==> forall|
            i: int,
        |
            0 <= i < parts.len() ==> (#[trigger] parts[i]).len() == 1 && (
            parts[i][0] matches BlockView::CodeBlock { language: own, .. } && own == language),
{
}

} // verus!

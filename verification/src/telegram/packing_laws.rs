//! Laws of packing: what fits into one message is sent as one, cuts are made as late as they
//! can be and at the best places, and the requests carry all pieces in order.

use vstd::prelude::*;
use crate::channels::OutgoingOptions;
use crate::text::trimmed;
use super::flow::{chat_notices, chats_after, first_piece, send_requests, text_pieces};
use super::message::TelegramMessage;
use super::payload::send_text_request;
use super::render_laws::entities_sorted_is_ordered;
use super::render_model::{render_blocks, render_document, rendered_length, Rendered};
use super::rich::BlockView;
use super::security::{
    admin_command, approval_request, chat_key, chat_views, AdminView, AuthorizationState,
    SecurityState,
};
use super::split_model::{
    block_length, far_enough, last_end, list_block, measured, message_documents, pack_blocks,
    pack_items, parsed, preferred_cut, search, split_block, split_blocks, MeasureView,
};

verus! {

// ---------------------------------------------------------------------------
// Packing
// ---------------------------------------------------------------------------
/// The blocks of some documents, one after another.
pub open spec fn all_blocks(parts: Seq<Seq<BlockView>>, n: int) -> Seq<BlockView>
    decreases n,
{
    if n <= 0 || n > parts.len() {
        Seq::empty()
    } else {
        all_blocks(parts, n - 1) + parts[n - 1]
    }
}

proof fn lemma_pack_all(parts: Seq<Seq<BlockView>>, i: int, current: Seq<BlockView>, max: nat)
    requires
        0 <= i <= parts.len(),
        current == all_blocks(parts, i),
        forall|n: int|
            0 < n <= parts.len() ==> rendered_length(#[trigger] all_blocks(parts, n)) <= max,
        forall|n: int| 0 <= n < parts.len() ==> (#[trigger] parts[n]).len() > 0,
    ensures
        pack_blocks(parts.skip(i), current, max) == (if parts.len() == 0 {
            Some(Seq::<Seq<BlockView>>::empty())
        } else {
            Some(seq![all_blocks(parts, parts.len() as int)])
        }),
    decreases parts.len() - i,
{
    let rest = parts.skip(i);
    if i < parts.len() {
        assert(rest[0] == parts[i]);
        assert(all_blocks(parts, i + 1) == current + parts[i]);
        assert(rendered_length(all_blocks(parts, i + 1)) <= max);
        assert(rest.drop_first() =~= parts.skip(i + 1));
        lemma_pack_all(parts, i + 1, current + parts[i], max);
    } else {
        if parts.len() > 0 {
            assert(parts[i - 1].len() > 0);
            assert(current.len() > 0);
        }
    }
}

/// Parts that fit together are sent as one message.
pub proof fn parts_that_fit_stay_together(parts: Seq<Seq<BlockView>>, max: nat)
    requires
        parts.len() > 0,
        forall|n: int|
            0 < n <= parts.len() ==> rendered_length(#[trigger] all_blocks(parts, n)) <= max,
        forall|n: int| 0 <= n < parts.len() ==> (#[trigger] parts[n]).len() > 0,
    ensures
        pack_blocks(parts, Seq::empty(), max) == Some(
            seq![all_blocks(parts, parts.len() as int)],
        ),
{
    assert(parts.skip(0) =~= parts);
    assert(all_blocks(parts, 0) =~= Seq::empty());
    lemma_pack_all(parts, 0, Seq::empty(), max);
}

/// A part that does not fit behind the ones before it begins the next message.
pub proof fn part_that_does_not_fit_begins_anew(
    current: Seq<BlockView>,
    part: Seq<BlockView>,
    max: nat,
)
    requires
        current.len() > 0,
        part.len() > 0,
        rendered_length(current + part) > max,
        rendered_length(part) <= max,
    ensures
        pack_blocks(seq![part], current, max) == Some(seq![current, part]),
        rendered_length(current + part) > max,
{
    let parts = seq![part];
    assert(parts.drop_first() =~= Seq::empty());
    assert(pack_blocks(parts.drop_first(), part, max) == Some(seq![part]));
    assert(seq![current] + seq![part] =~= seq![current, part]);
}

proof fn lemma_pack_items_all(
    start: Option<u64>,
    items: Seq<Seq<BlockView>>,
    i: int,
    max: nat,
)
    requires
        0 <= i <= items.len(),
        items.len() > 0,
        forall|n: int|
            0 < n <= items.len() ==> block_length(list_block(start, #[trigger] items.take(n)))
                <= max,
    ensures
        pack_items(start, items.skip(i), i as nat, start, items.take(i), max) == Some(
            seq![seq![list_block(start, items)]],
        ),
    decreases items.len() - i,
{
    let rest = items.skip(i);
    if i < items.len() {
        assert(rest[0] == items[i]);
        assert(items.take(i).push(items[i]) =~= items.take(i + 1));
        assert(block_length(list_block(start, items.take(i + 1))) <= max);
        assert(rest.drop_first() =~= items.skip(i + 1));
        lemma_pack_items_all(start, items, i + 1, max);
    } else {
        assert(items.take(i) =~= items);
    }
}

/// Items that fit together stay in one list.
pub proof fn items_that_fit_stay_together(
    start: Option<u64>,
    items: Seq<Seq<BlockView>>,
    max: nat,
)
    requires
        items.len() > 0,
        forall|n: int|
            0 < n <= items.len() ==> block_length(list_block(start, #[trigger] items.take(n)))
                <= max,
    ensures
        pack_items(start, items, 0, start, Seq::empty(), max) == Some(
            seq![seq![list_block(start, items)]],
        ),
{
    assert(items.skip(0) =~= items);
    assert(items.take(0) =~= Seq::empty());
    lemma_pack_items_all(start, items, 0, max);
}

/// A message that fits is sent as one document, and a blank one not at all.
pub proof fn message_that_fits_is_sent_whole(input: Seq<char>, max: nat)
    ensures
        trimmed(input).len() == 0 ==> message_documents(input, max).len() == 0,
        trimmed(input).len() > 0 && rendered_length(parsed(trimmed(input))) <= max
            ==> message_documents(input, max) == seq![parsed(trimmed(input))],
        trimmed(input).len() > 0 && rendered_length(parsed(trimmed(input))) > max && split_blocks(
            parsed(trimmed(input)),
            max,
        ) is Some ==> message_documents(input, max) == split_blocks(
            parsed(trimmed(input)),
            max,
        )->0,
{
}

/// A block that fits is not cut.
pub proof fn block_that_fits_is_not_cut(x: BlockView, max: nat)
    requires
        block_length(x) <= max,
    ensures
        split_block(x, max) == Some(seq![seq![x]]),
{
}

// ---------------------------------------------------------------------------
// Cuts
// ---------------------------------------------------------------------------
/// Where shorter texts are not longer when they are sent, the first piece of a text is the
/// longest that fits.
pub proof fn first_piece_is_the_longest_that_fits(
    m: MeasureView,
    max: nat,
    rest: Seq<char>,
    low: int,
    high: int,
    best: int,
    k: int,
)
    requires
        1 <= low,
        high <= rest.len(),
        low <= high + 1,
        best == low - 1,
        forall|i: int, j: int|
            0 < i <= j <= rest.len() ==> #[trigger] measured(m, rest.take(i)) <= #[trigger] measured(
                m,
                rest.take(j),
            ),
        low - 1 <= k <= high,
        low <= k ==> measured(m, rest.take(k)) <= max,
        forall|j: int| k < j <= high ==> #[trigger] measured(m, rest.take(j)) > max,
    ensures
        search(m, max, rest, low, high, best) == k,
    decreases high + 1 - low,
{
    if low <= high {
        let mid = low + (high - low) / 2;
        if measured(m, rest.take(mid)) <= max {
            if k < mid {
                assert(measured(m, rest.take(mid)) > max);
            }
            first_piece_is_the_longest_that_fits(m, max, rest, mid + 1, high, mid, k);
        } else {
            if mid <= k {
                assert(measured(m, rest.take(mid)) <= measured(m, rest.take(k)));
            }
            first_piece_is_the_longest_that_fits(m, max, rest, low, mid - 1, best, k);
        }
    }
}

proof fn lemma_last_end(a: Seq<char>, needle: Seq<char>, b: Seq<char>)
    requires
        needle.len() > 0,
        !b.contains(needle.last()),
    ensures
        last_end(a + needle + b, needle) == Some((a.len() + needle.len()) as int),
    decreases b.len(),
{
    let s = a + needle + b;
    if b.len() == 0 {
        assert(s =~= a + needle);
        assert(s.subrange(s.len() - needle.len(), s.len() as int) =~= needle);
    } else {
        if needle.is_suffix_of(s) {
            assert(s.subrange(s.len() - needle.len(), s.len() as int).last() == s.last());
            assert(b.contains(b.last()));
        }
        assert(s.drop_last() =~= a + needle + b.drop_last());
        assert(!b.drop_last().contains(needle.last())) by {
            if b.drop_last().contains(needle.last()) {
                let i = choose|i: int|
                    0 <= i < b.drop_last().len() && b.drop_last()[i] == needle.last();
                assert(b[i] == needle.last());
            }
        }
        lemma_last_end(a, needle, b.drop_last());
    }
}

proof fn lemma_no_end(s: Seq<char>, needle: Seq<char>)
    requires
        needle.len() > 0,
        !s.contains(needle.last()),
    ensures
        last_end(s, needle) is None,
    decreases s.len(),
{
    if needle.is_suffix_of(s) {
        assert(s.subrange(s.len() - needle.len(), s.len() as int).last() == s.last());
        assert(s.contains(s.last()));
    }
    if s.len() > 0 {
        assert(!s.drop_last().contains(needle.last())) by {
            if s.drop_last().contains(needle.last()) {
                let i = choose|i: int|
                    0 <= i < s.drop_last().len() && s.drop_last()[i] == needle.last();
                assert(s[i] == needle.last());
            }
        }
        lemma_no_end(s.drop_last(), needle);
    }
}

/// A text is cut behind its last empty line, else behind its last line feed, else behind its
/// last blank, where these are far enough behind its start.
pub proof fn text_is_cut_at_the_best_place(a: Seq<char>, b: Seq<char>, min: int)
    requires
        !b.contains('\n'),
        far_enough(a + "\n\n"@ + b, a.len() as int + 2, min),
        far_enough(a + "\n"@ + b, a.len() as int + 1, min),
        far_enough(b + " "@, b.len() as int + 1, min),
    ensures
        preferred_cut(a + "\n\n"@ + b, min, None) == Some(a.len() as int + 2),
        !a.contains('\n') ==> preferred_cut(a + "\n"@ + b, min, None) == Some(a.len() as int + 1),
        preferred_cut(b + " "@, min, None) == Some(b.len() as int + 1),
        !b.contains(' ') ==> preferred_cut(b, min, None) is None,
{
    reveal_strlit("\n\n");
    reveal_strlit("\n");
    reveal_strlit(" ");
    lemma_last_end(a, "\n\n"@, b);
    lemma_last_end(a, "\n"@, b);
    let e = Seq::<char>::empty();
    lemma_last_end(b, " "@, e);
    assert(b + " "@ + e =~= b + " "@);
    let s = b + " "@;
    assert(!s.contains('\n')) by {
        assert forall|i: int| 0 <= i < s.len() implies s[i] != '\n' by {
            if i < b.len() {
                assert(s[i] == b[i]);
            }
        }
    }
    lemma_no_end(s, "\n\n"@);
    lemma_no_end(s, "\n"@);
    lemma_no_end(b, "\n\n"@);
    lemma_no_end(b, "\n"@);
    if !b.contains(' ') {
        lemma_no_end(b, " "@);
    }
    if !a.contains('\n') {
        lemma_no_empty_line(a, b);
    }
}

proof fn lemma_no_empty_line(a: Seq<char>, b: Seq<char>)
    requires
        !a.contains('\n'),
        !b.contains('\n'),
    ensures
        last_end(a + "\n"@ + b, "\n\n"@) is None,
    decreases b.len(),
{
    reveal_strlit("\n\n");
    reveal_strlit("\n");
    let s = a + "\n"@ + b;
    if b.len() > 0 {
        assert(b.contains(b.last()));
        if "\n\n"@.is_suffix_of(s) {
            assert(s.subrange(s.len() - 2, s.len() as int)[1] == s.last());
        }
        assert(s.drop_last() =~= a + "\n"@ + b.drop_last());
        assert(!b.drop_last().contains('\n')) by {
            if b.drop_last().contains('\n') {
                let i = choose|i: int| 0 <= i < b.drop_last().len() && b.drop_last()[i] == '\n';
                assert(b[i] == '\n');
            }
        }
        lemma_no_empty_line(a, b.drop_last());
    } else {
        assert(s =~= a + "\n"@);
        if "\n\n"@.is_suffix_of(s) {
            let t = s.subrange(s.len() - 2, s.len() as int);
            assert(t[0] == '\n');
            assert(a[a.len() - 1] == t[0]);
        }
        assert(s.drop_last() =~= a);
        lemma_no_end(a, "\n\n"@);
    }
}

// ---------------------------------------------------------------------------
// Entities
// ---------------------------------------------------------------------------
/// The entities of a document come by where they start; of two that start together the longer
/// comes first.
pub proof fn entities_come_by_their_start(blocks: Seq<BlockView>, i: int, j: int)
    requires
        0 <= i < j < render_document(blocks).entities.len(),
    ensures
        ({
            let e = render_document(blocks).entities;
            &&& e[i].offset <= e[j].offset
            &&& e[i].offset == e[j].offset ==> e[i].length >= e[j].length
        }),
{
    entities_sorted_is_ordered(render_blocks(blocks, Rendered::empty(), false, 0).0.entities);
    let e = render_document(blocks).entities;
    assert(!super::render_model::entity_before(e[j], e[i]));
}

// ---------------------------------------------------------------------------
// Requests
// ---------------------------------------------------------------------------
/// Each piece of a text is sent to the chat, in order, and only the last one carries the
/// options.
pub proof fn pieces_are_sent_in_order(
    chat_id: Seq<char>,
    pieces: Seq<Rendered>,
    options: Option<OutgoingOptions>,
    i: int,
)
    requires
        0 <= i < pieces.len(),
    ensures
        send_requests(chat_id, pieces, options).len() == pieces.len(),
        i < pieces.len() - 1 ==> send_requests(chat_id, pieces, options)[i] == send_text_request(
            chat_id,
            pieces[i],
            None,
        ),
        i == pieces.len() - 1 ==> send_requests(chat_id, pieces, options)[i]
            == send_text_request(chat_id, pieces[i], options),
        first_piece(pieces, Seq::empty()) == pieces[0],
{
}

/// The pieces of a text are its documents as they are rendered.
pub proof fn pieces_are_the_rendered_documents(text: Seq<char>, max: nat, i: int)
    requires
        0 <= i < message_documents(text, max).len(),
    ensures
        text_pieces(text, max).len() == message_documents(text, max).len(),
        text_pieces(text, max)[i] == render_document(message_documents(text, max)[i]),
{
}

/// An administrator's decision changes the state of the chat it names and nothing else; a
/// message of another chat enters that chat as it is known, and changes no other.
pub proof fn decisions_change_one_chat(
    s: SecurityState,
    message: TelegramMessage,
    user: i64,
    text: Seq<char>,
    id: Seq<char>,
    other: Seq<char>,
)
    requires
        other != id,
    ensures
        s.from_admin(message, user) && admin_command(text) == Some(
            AdminView::Approve { chat_id: id },
        ) ==> {
            let after = chats_after(s, message, user, text);
            &&& after.contains_key(id) && after[id].state == AuthorizationState::Approved
            &&& after.contains_key(other) == chat_views(s.chats@).contains_key(other)
            &&& after.contains_key(other) ==> after[other] == chat_views(s.chats@)[other]
        },
        s.from_admin(message, user) && admin_command(text) == Some(
            AdminView::Reject { chat_id: id },
        ) ==> {
            let after = chats_after(s, message, user, text);
            &&& after.contains_key(id) && after[id].state == AuthorizationState::Rejected
            &&& after.contains_key(other) ==> after[other] == chat_views(s.chats@)[other]
        },
        s.from_admin(message, user) && admin_command(text) is None ==> chats_after(
            s,
            message,
            user,
            text,
        ) == chat_views(s.chats@),
        !s.from_admin(message, user) && chat_key(message) == id ==> {
            let after = chats_after(s, message, user, text);
            &&& after.contains_key(id) && after[id].state == s.state_of(id)
            &&& after[id].last_title == crate::text::opt_view(message.chat.title)
            &&& after.contains_key(other) ==> after[other] == chat_views(s.chats@)[other]
        },
{
}

/// A chat that waits is told so, and the administrators are asked; one that was rejected is
/// told so; one that was approved is told nothing.
pub proof fn chats_are_told_how_they_stand(message: TelegramMessage, text: Seq<char>)
    ensures
        chat_notices(AuthorizationState::Approved, message, text).len() == 0,
        chat_notices(AuthorizationState::Rejected, message, text).len() == 1,
        chat_notices(AuthorizationState::Rejected, message, text)[0].0 == Some(chat_key(message)),
        chat_notices(AuthorizationState::Pending, message, text).len() == 2,
        chat_notices(AuthorizationState::Pending, message, text)[0].0 == Some(chat_key(message)),
        chat_notices(AuthorizationState::Pending, message, text)[1].0 is None,
        ("待审批 chat: "@ + chat_key(message)).is_prefix_of(
            chat_notices(AuthorizationState::Pending, message, text)[1].1,
        ),
        text.is_suffix_of(chat_notices(AuthorizationState::Pending, message, text)[1].1),
{
    let t = approval_request(message, text);
    let p = "待审批 chat: "@ + chat_key(message);
    assert(t.subrange(0, p.len() as int) =~= p);
    assert(t.subrange(t.len() - text.len(), t.len() as int) =~= text);
}

} // verus!

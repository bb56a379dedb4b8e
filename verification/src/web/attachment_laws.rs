//! Laws of attachments: every tag in a text becomes a file, in order, and leaves the text
//! around it as it is.

use vstd::prelude::*;
use crate::number::decimal;
use crate::text::{
    is_space, lemma_position, occurs_at, trim_start_seq, trimming_drops_the_space_around,
};
use crate::words::{find_seq, join_seq, lemma_find_seq, lemma_find_seq_is, lemma_find_seq_none};
use crate::path_laws::{
    absolute_path, all_names, is_name, joined_path_ends_in_the_name, path_is_its_names,
};
use crate::paths::{below, relative_to};
use super::attachments::{
    as_index, behind_conversation, clean_text, inside_fence, is_fence, is_shared_path, joined_all,
    line_end, local_path, marked_text, marker, paths_of, pieces, remapped, resolved_path,
    stripped_text, tag_end, tag_start, workspace_path, CanonicalPaths, PathFacts, PieceView,
    WebAttachmentRoots,
};
use super::url::{lenient_reading_gives_the_text_back, percent_encoded};

verus! {

// ---------------------------------------------------------------------------
// Tags
// ---------------------------------------------------------------------------
/// Texts with a tag between each two.
pub open spec fn tagged(texts: Seq<Seq<char>>, paths: Seq<Seq<char>>) -> Seq<char>
    decreases paths.len(),
{
    if paths.len() == 0 {
        texts[0]
    } else {
        texts[0] + "<attachment>"@ + paths[0] + "</attachment>"@ + tagged(
            texts.drop_first(),
            paths.drop_first(),
        )
    }
}

/// Texts with other texts between each two.
pub open spec fn woven(texts: Seq<Seq<char>>, between: Seq<Seq<char>>) -> Seq<char>
    decreases between.len(),
{
    if between.len() == 0 {
        texts[0]
    } else {
        texts[0] + between[0] + woven(texts.drop_first(), between.drop_first())
    }
}

/// Whether a text holds nothing that could be a tag or a fence.
pub open spec fn is_untagged(t: Seq<char>) -> bool {
    !t.contains('<') && !t.contains('`') && !t.contains('~')
}

/// Whether a path in a tag is a plain one.
pub open spec fn is_tag_path(t: Seq<char>) -> bool {
    is_untagged(t) && t.len() > 0 && !is_space(t[0]) && !is_space(t.last())
}

spec fn woven_pieces(texts: Seq<Seq<char>>, paths: Seq<Seq<char>>) -> Seq<PieceView>
    decreases paths.len(),
{
    if paths.len() == 0 {
        seq![PieceView::Text(texts[0])]
    } else {
        seq![PieceView::Text(texts[0])] + seq![PieceView::Path(paths[0])] + woven_pieces(
            texts.drop_first(),
            paths.drop_first(),
        )
    }
}

proof fn lemma_line_end(text: Seq<char>, from: int)
    requires
        0 <= from < text.len(),
    ensures
        from < line_end(text, from) <= text.len(),
    decreases text.len() - from,
{
    if text[from] != '\n' && from + 1 < text.len() {
        lemma_line_end(text, from + 1);
    } else if text[from] != '\n' {
        assert(line_end(text, from + 1) == text.len());
    }
}

proof fn lemma_no_fence(line: Seq<char>)
    requires
        !line.contains('`'),
        !line.contains('~'),
    ensures
        !is_fence(line),
{
    reveal_strlit("```");
    reveal_strlit("~~~");
    let t = trim_start_seq(line);
    lemma_position(line, |x: char| !is_space(x));
    if "```"@.is_prefix_of(t) {
        assert(t[0] == "```"@[0]);
        assert(line[crate::text::leading_space(line)] == '`');
    }
    if "~~~"@.is_prefix_of(t) {
        assert(t[0] == "~~~"@[0]);
        assert(line[crate::text::leading_space(line)] == '~');
    }
}

proof fn lemma_outside_fence(text: Seq<char>, from: int, at: int)
    requires
        !text.contains('`'),
        !text.contains('~'),
        0 <= from,
    ensures
        !inside_fence(text, from, at),
    decreases text.len() - from,
{
    if from < at && from < text.len() {
        lemma_line_end(text, from);
        let line = text.subrange(from, line_end(text, from));
        assert forall|k: int| 0 <= k < line.len() implies line[k] != '`' && line[k] != '~' by {
            assert(text[from + k] == line[k]);
        }
        lemma_no_fence(line);
        lemma_outside_fence(text, line_end(text, from), at);
    }
}

proof fn lemma_first_at(a: Seq<char>, pattern: Seq<char>, b: Seq<char>)
    requires
        pattern.len() > 0,
        !a.contains(pattern[0]),
    ensures
        find_seq(a + pattern + b, pattern) == Some(a.len() as int),
{
    let s = a + pattern + b;
    assert(s.subrange(a.len() as int, a.len() as int + pattern.len()) =~= pattern);
    assert forall|j: int| 0 <= j < a.len() implies !#[trigger] occurs_at(s, pattern, j) by {
        if occurs_at(s, pattern, j) {
            assert(s.subrange(j, j + pattern.len())[0] == pattern[0]);
            assert(a[j] == pattern[0]);
        }
    }
    lemma_find_seq_is(s, pattern, a.len() as int);
}

proof fn lemma_nowhere(a: Seq<char>, pattern: Seq<char>)
    requires
        pattern.len() > 0,
        !a.contains(pattern[0]),
    ensures
        find_seq(a, pattern) is None,
{
    assert forall|j: int| 0 <= j < a.len() + 1 implies !#[trigger] occurs_at(a, pattern, j) by {
        if occurs_at(a, pattern, j) {
            assert(a.subrange(j, j + pattern.len())[0] == pattern[0]);
            assert(a[j] == pattern[0]);
        }
    }
    lemma_find_seq_none(a, pattern);
}

proof fn lemma_pieces(text: Seq<char>, cursor: int, texts: Seq<Seq<char>>, paths: Seq<Seq<char>>)
    requires
        0 <= cursor <= text.len(),
        !text.contains('`'),
        !text.contains('~'),
        texts.len() == paths.len() + 1,
        forall|i: int| 0 <= i < texts.len() ==> is_untagged(#[trigger] texts[i]),
        forall|i: int| 0 <= i < paths.len() ==> is_tag_path(#[trigger] paths[i]),
        text.skip(cursor) == tagged(texts, paths),
    ensures
        pieces(text, cursor) == woven_pieces(texts, paths),
    decreases paths.len(),
{
    reveal_strlit("<attachment>");
    reveal_strlit("</attachment>");
    let t = texts[0];
    assert(is_untagged(t));
    if paths.len() == 0 {
        lemma_nowhere(t, tag_start());
    } else {
        let p = paths[0];
        assert(is_tag_path(p));
        let rest = tagged(texts.drop_first(), paths.drop_first());
        let start = cursor + t.len();
        let inner = start + 12;
        let next = inner + p.len() + 13;
        let tail = p + tag_end() + rest;
        assert(text.skip(cursor) =~= t + tag_start() + tail);
        lemma_first_at(t, tag_start(), tail);
        assert(text.skip(inner) =~= text.skip(cursor).skip(t.len() as int + 12));
        assert(text.skip(inner) =~= tail);
        lemma_first_at(p, tag_end(), rest);
        lemma_outside_fence(text, 0, start);
        assert(text.subrange(cursor, start) =~= t) by {
            assert forall|k: int| 0 <= k < t.len() implies text[cursor + k] == t[k] by {
                assert(text.skip(cursor)[k] == t[k]);
            }
        }
        assert(text.subrange(inner, inner + p.len()) =~= p) by {
            assert forall|k: int| 0 <= k < p.len() implies text[inner + k] == p[k] by {
                assert(text.skip(inner)[k] == p[k]);
            }
        }
        let e = Seq::<char>::empty();
        trimming_drops_the_space_around(e, p, e);
        assert(e + p + e =~= p);
        assert(text.skip(next) =~= text.skip(inner).skip(p.len() as int + 13));
        assert(text.skip(next) =~= rest);
        assert forall|i: int| 0 <= i < texts.drop_first().len() implies is_untagged(
            #[trigger] texts.drop_first()[i],
        ) by {
            assert(texts.drop_first()[i] == texts[i + 1]);
        }
        assert forall|i: int| 0 <= i < paths.drop_first().len() implies is_tag_path(
            #[trigger] paths.drop_first()[i],
        ) by {
            assert(paths.drop_first()[i] == paths[i + 1]);
        }
        lemma_pieces(text, next, texts.drop_first(), paths.drop_first());
    }
}

proof fn lemma_plain_tagged(texts: Seq<Seq<char>>, paths: Seq<Seq<char>>)
    requires
        texts.len() == paths.len() + 1,
        forall|i: int| 0 <= i < texts.len() ==> is_untagged(#[trigger] texts[i]),
        forall|i: int| 0 <= i < paths.len() ==> is_tag_path(#[trigger] paths[i]),
    ensures
        !tagged(texts, paths).contains('`'),
        !tagged(texts, paths).contains('~'),
    decreases paths.len(),
{
    reveal_strlit("<attachment>");
    reveal_strlit("</attachment>");
    let t = texts[0];
    assert(is_untagged(t));
    if paths.len() > 0 {
        let p = paths[0];
        assert(is_tag_path(p));
        assert forall|i: int| 0 <= i < texts.drop_first().len() implies is_untagged(
            #[trigger] texts.drop_first()[i],
        ) by {
            assert(texts.drop_first()[i] == texts[i + 1]);
        }
        assert forall|i: int| 0 <= i < paths.drop_first().len() implies is_tag_path(
            #[trigger] paths.drop_first()[i],
        ) by {
            assert(paths.drop_first()[i] == paths[i + 1]);
        }
        lemma_plain_tagged(texts.drop_first(), paths.drop_first());
        let rest = tagged(texts.drop_first(), paths.drop_first());
        let s = tagged(texts, paths);
        assert forall|k: int| 0 <= k < s.len() implies s[k] != '`' && s[k] != '~' by {
            let a = t.len() as int;
            let b = a + 12;
            let c = b + p.len();
            let d = c + 13;
            if k < a {
                assert(t[k] == s[k]);
            } else if k < b {
                assert(s[k] == "<attachment>"@[k - a]);
            } else if k < c {
                assert(p[k - b] == s[k]);
            } else if k < d {
                assert(s[k] == "</attachment>"@[k - c]);
            } else {
                assert(rest[k - d] == s[k]);
            }
        }
    }
}

proof fn lemma_concat(a: Seq<PieceView>, b: Seq<PieceView>, base: nat)
    ensures
        clean_text(a + b) == clean_text(a) + clean_text(b),
        stripped_text(a + b) == stripped_text(a) + stripped_text(b),
        paths_of(a + b) == paths_of(a) + paths_of(b),
        marked_text(a + b, base) == marked_text(a, base) + marked_text(
            b,
            base + paths_of(a).len(),
        ),
    decreases b.len(),
{
    if b.len() == 0 {
        assert(a + b =~= a);
        assert(clean_text(a) + clean_text(b) =~= clean_text(a));
        assert(stripped_text(a) + stripped_text(b) =~= stripped_text(a));
        assert(paths_of(a) + paths_of(b) =~= paths_of(a));
        assert(marked_text(a, base) + marked_text(b, base + paths_of(a).len()) =~= marked_text(
            a,
            base,
        ));
    } else {
        assert((a + b).drop_last() =~= a + b.drop_last());
        assert((a + b).last() == b.last());
        lemma_concat(a, b.drop_last(), base);
        assert(clean_text(a + b) =~= clean_text(a) + clean_text(b));
        assert(stripped_text(a + b) =~= stripped_text(a) + stripped_text(b));
        assert(paths_of(a + b) =~= paths_of(a) + paths_of(b));
        assert(marked_text(a + b, base) =~= marked_text(a, base) + marked_text(
            b,
            base + paths_of(a).len(),
        ));
    }
}

proof fn lemma_single(x: PieceView, base: nat)
    ensures
        clean_text(seq![x]) == (match x {
            PieceView::Text(t) => t,
            PieceView::Path(_) => Seq::empty(),
        }),
        stripped_text(seq![x]) == (match x {
            PieceView::Text(t) => t,
            PieceView::Path(p) => p,
        }),
        paths_of(seq![x]) == (match x {
            PieceView::Text(_) => Seq::empty(),
            PieceView::Path(p) => seq![p],
        }),
        marked_text(seq![x], base) == (match x {
            PieceView::Text(t) => t,
            PieceView::Path(_) => marker(as_index(base)),
        }),
{
    let s = seq![x];
    assert(s.drop_last() =~= Seq::empty());
    let e = Seq::<char>::empty();
    assert(clean_text(s.drop_last()) =~= e);
    assert(stripped_text(s.drop_last()) =~= e);
    assert(paths_of(s.drop_last()) =~= Seq::empty());
    assert(marked_text(s.drop_last(), base) =~= e);
    assert(clean_text(s) =~= match x {
        PieceView::Text(t) => t,
        PieceView::Path(_) => Seq::empty(),
    });
    assert(stripped_text(s) =~= match x {
        PieceView::Text(t) => t,
        PieceView::Path(p) => p,
    });
    assert(paths_of(s) =~= match x {
        PieceView::Text(_) => Seq::empty(),
        PieceView::Path(p) => seq![p],
    });
    assert(marked_text(s, base) =~= match x {
        PieceView::Text(t) => t,
        PieceView::Path(_) => marker(as_index(base)),
    });
}

/// The marker of the file with a number.
pub open spec fn marker_of(n: int) -> Seq<char> {
    "[[attachment:"@ + decimal(n as nat) + "]]"@
}

proof fn lemma_texts(texts: Seq<Seq<char>>, paths: Seq<Seq<char>>, base: nat)
    requires
        texts.len() == paths.len() + 1,
        base + paths.len() <= usize::MAX,
    ensures
        ({
            let w = woven_pieces(texts, paths);
            &&& paths_of(w) == paths
            &&& clean_text(w) == woven(texts, paths.map_values(|p: Seq<char>| Seq::<char>::empty()))
            &&& stripped_text(w) == woven(texts, paths)
            &&& marked_text(w, base) == woven(
                texts,
                Seq::new(paths.len(), |i: int| marker_of(base + i)),
            )
        }),
    decreases paths.len(),
{
    let w = woven_pieces(texts, paths);
    if paths.len() == 0 {
        lemma_single(PieceView::Text(texts[0]), base);
        assert(paths =~= Seq::empty());
    } else {
        let a = seq![PieceView::Text(texts[0])];
        let b = seq![PieceView::Path(paths[0])];
        let (t, p) = (texts.drop_first(), paths.drop_first());
        let rest = woven_pieces(t, p);
        lemma_single(PieceView::Text(texts[0]), base);
        lemma_single(PieceView::Path(paths[0]), base);
        lemma_concat(a, b, base);
        lemma_concat(a + b, rest, base);
        lemma_texts(t, p, base + 1);
        assert(paths_of(a + b) =~= seq![paths[0]]);
        assert(seq![paths[0]] + p =~= paths);
        let f = |p: Seq<char>| Seq::<char>::empty();
        let none = paths.map_values(f);
        assert(none.drop_first() =~= p.map_values(f));
        assert(clean_text(a + b) + clean_text(rest) =~= texts[0] + none[0] + clean_text(rest));
        let marks = Seq::new(paths.len(), |i: int| marker_of(base + i));
        assert(marks.drop_first() =~= Seq::new(p.len(), |i: int| marker_of(base + 1 + i)));
        assert(as_index(base) == base);
        assert(marker(base) == marker_of(base as int));
        assert(marked_text(a + b, base) =~= texts[0] + marks[0]);
    }
}

/// Every tag names a file, in order. The text is shown without the tags, or with a marker in
/// the place of each, which carries the number of its file; where a file cannot be shown its
/// path stands in the place of the tag. The texts around the tags stay as they are.
pub proof fn tags_become_files_in_order(
    texts: Seq<Seq<char>>,
    paths: Seq<Seq<char>>,
    base: nat,
)
    requires
        texts.len() == paths.len() + 1,
        base + paths.len() <= usize::MAX,
        forall|i: int| 0 <= i < texts.len() ==> is_untagged(#[trigger] texts[i]),
        forall|i: int| 0 <= i < paths.len() ==> is_tag_path(#[trigger] paths[i]),
    ensures
        ({
            let p = pieces(tagged(texts, paths), 0);
            &&& paths_of(p) == paths
            &&& clean_text(p) == woven(texts, paths.map_values(|p: Seq<char>| Seq::<char>::empty()))
            &&& stripped_text(p) == woven(texts, paths)
            &&& marked_text(p, base) == woven(
                texts,
                Seq::new(paths.len(), |i: int| marker_of(base + i)),
            )
        }),
{
    let text = tagged(texts, paths);
    assert(text.skip(0) =~= text);
    lemma_plain_tagged(texts, paths);
    lemma_pieces(text, 0, texts, paths);
    lemma_texts(texts, paths, base);
}

// ---------------------------------------------------------------------------
// Tags in code
// ---------------------------------------------------------------------------
/// Whether all lines from an index on are no fences.
spec fn fenced_to_the_end(text: Seq<char>, from: int) -> bool {
    forall|at: int| #![trigger inside_fence(text, 0, at)]
        from <= at <= text.len() ==> inside_fence(text, 0, at)
}

proof fn lemma_all_text(text: Seq<char>, cursor: int, from: int, base: nat)
    requires
        0 <= cursor <= text.len(),
        fenced_to_the_end(text, from),
        forall|at: int| 0 <= at < from && at < text.len() ==> text[at] != '<',
    ensures
        clean_text(pieces(text, cursor)) == text.skip(cursor),
        marked_text(pieces(text, cursor), base) == text.skip(cursor),
        paths_of(pieces(text, cursor)).len() == 0,
    decreases text.len() - cursor,
{
    reveal_strlit("<attachment>");
    let rest = text.skip(cursor);
    lemma_find_seq(rest, tag_start());
    match find_seq(rest, tag_start()) {
        None => {
            lemma_single(PieceView::Text(rest), base);
        },
        Some(k) => {
            let start = cursor + k;
            let inner = start + 12;
            assert(rest.subrange(k, k + 12)[0] == '<');
            assert(text[start] == '<');
            assert(inside_fence(text, 0, start));
            let first = PieceView::Text(text.subrange(cursor, inner));
            lemma_single(first, base);
            lemma_all_text(text, inner, from, base);
            lemma_concat(seq![first], pieces(text, inner), base);
            assert(text.subrange(cursor, inner) + text.skip(inner) =~= rest);
        },
    }
}

/// Tags inside a block of code are text: nothing of it changes, and no file is named.
pub proof fn tags_in_code_are_text(fence: Seq<char>, body: Seq<char>, base: nat)
    requires
        fence == "```"@ || fence == "~~~"@,
        !body.contains('`'),
        !body.contains('~'),
    ensures
        ({
            let text = fence + "\n"@ + body;
            &&& clean_text(pieces(text, 0)) == text
            &&& marked_text(pieces(text, 0), base) == text
            &&& paths_of(pieces(text, 0)).len() == 0
        }),
{
    reveal_strlit("```");
    reveal_strlit("~~~");
    reveal_strlit("\n");
    let text = fence + "\n"@ + body;
    let line = text.subrange(0, 4);
    lemma_line_end(text, 0);
    assert(line_end(text, 3) == 4);
    assert(line_end(text, 2) == 4);
    assert(line_end(text, 1) == 4);
    assert(line_end(text, 0) == 4);
    crate::text::lemma_position_is(line, |x: char| !is_space(x), 0);
    assert(trim_start_seq(line) =~= line);
    assert(line.subrange(0, 3) =~= fence);
    assert(is_fence(line));
    assert forall|at: int| #![trigger inside_fence(text, 0, at)] 4 <= at <= text.len() implies
        inside_fence(text, 0, at) by {
        assert(text.skip(4) =~= body);
        lemma_later_lines(text, body, 4, at);
    }
    assert(fenced_to_the_end(text, 4));
    lemma_all_text(text, 0, 4, base);
    assert(text.skip(0) =~= text);
}

proof fn lemma_later_lines(text: Seq<char>, body: Seq<char>, from: int, at: int)
    requires
        4 <= from,
        4 + body.len() == text.len(),
        text.skip(4) == body,
        !body.contains('`'),
        !body.contains('~'),
    ensures
        !inside_fence(text, from, at),
    decreases text.len() - from,
{
    if from < at && from < text.len() {
        lemma_line_end(text, from);
        let line = text.subrange(from, line_end(text, from));
        assert forall|k: int| 0 <= k < line.len() implies line[k] != '`' && line[k] != '~' by {
            assert(text.skip(4)[from + k - 4] == line[k]);
            assert(body[from + k - 4] == line[k]);
        }
        lemma_no_fence(line);
        lemma_later_lines(text, body, line_end(text, from), at);
    }
}

// ---------------------------------------------------------------------------
// Places
// ---------------------------------------------------------------------------
proof fn lemma_behind(
    parts: Seq<Seq<char>>,
    name: Seq<char>,
    from: int,
    at: int,
)
    requires
        0 <= from <= at,
        at + 1 < parts.len(),
        forall|i: int| from <= i < at ==> #[trigger] parts[i] != "conversations"@,
        parts[at] == "conversations"@,
        parts[at + 1] == name,
    ensures
        behind_conversation(parts, name, from) == Some(parts.skip(at + 2)),
    decreases at - from,
{
    if from < at {
        assert(parts[from] != "conversations"@);
        lemma_behind(parts, name, from + 1, at);
    }
}

proof fn lemma_joined_all(root: Seq<char>, parts: Seq<Seq<char>>)
    requires
        root.len() > 0 && root.last() != '/',
        all_names(parts),
    ensures
        joined_all(root, parts) == (if parts.len() == 0 {
            root
        } else {
            root + "/"@ + join_seq(parts, "/"@)
        }),
    decreases parts.len(),
{
    if parts.len() > 0 {
        let rest = parts.drop_last();
        assert forall|i: int| 0 <= i < rest.len() implies is_name(#[trigger] rest[i]) by {
            assert(rest[i] == parts[i]);
        }
        lemma_joined_all(root, rest);
        let last = parts.last();
        assert(is_name(parts[parts.len() - 1]));
        reveal_strlit("/");
        assert("/"@ =~= seq!['/']);
        let base = joined_all(root, rest);
        assert(last[0] != '/');
        if rest.len() == 0 {
            assert(parts =~= seq![last]);
            assert(join_seq(parts, "/"@) == last);
            assert(base.last() != '/');
            joined_path_ends_in_the_name(base, last);
        } else {
            lemma_join_last(rest, last, "/"@);
            assert(rest.push(last) =~= parts);
            lemma_join_end(rest);
            assert(base.last() != '/');
            joined_path_ends_in_the_name(base, last);
            assert(base + "/"@ + last =~= root + "/"@ + join_seq(parts, "/"@));
        }
    }
}

proof fn lemma_join_last(parts: Seq<Seq<char>>, last: Seq<char>, sep: Seq<char>)
    requires
        parts.len() > 0,
    ensures
        join_seq(parts.push(last), sep) == join_seq(parts, sep) + sep + last,
    decreases parts.len(),
{
    let all = parts.push(last);
    if parts.len() == 1 {
        assert(all.drop_first() =~= seq![last]);
        assert(join_seq(seq![last], sep) == last);
        assert(join_seq(all, sep) =~= join_seq(parts, sep) + sep + last);
    } else {
        assert(all.drop_first() =~= parts.drop_first().push(last));
        lemma_join_last(parts.drop_first(), last, sep);
        assert(join_seq(all, sep) =~= join_seq(parts, sep) + sep + last);
    }
}

proof fn lemma_join_end(parts: Seq<Seq<char>>)
    requires
        parts.len() > 0,
        all_names(parts),
    ensures
        join_seq(parts, "/"@).len() > 0,
        join_seq(parts, "/"@).last() != '/',
    decreases parts.len(),
{
    if parts.len() == 1 {
        assert(is_name(parts[0]));
        assert(parts[0].contains(parts[0].last()));
    } else {
        let rest = parts.drop_first();
        assert forall|i: int| 0 <= i < rest.len() implies is_name(#[trigger] rest[i]) by {
            assert(rest[i] == parts[i + 1]);
        }
        lemma_join_end(rest);
    }
}

/// A path into the directory of a conversation that lies elsewhere leads to the same place in
/// the workspace of the conversation.
pub proof fn path_of_the_conversation_is_found_again(
    before: Seq<Seq<char>>,
    root: Seq<Seq<char>>,
    rest: Seq<Seq<char>>,
)
    requires
        root.len() > 0,
        rest.len() > 0,
        all_names(before),
        all_names(root),
        all_names(rest),
        forall|i: int| 0 <= i < before.len() ==> #[trigger] before[i] != "conversations"@,
    ensures
        remapped(
            absolute_path(root),
            absolute_path(before + seq!["conversations"@, root.last()] + rest),
        ) == Some(absolute_path(root) + "/"@ + join_seq(rest, "/"@)),
{
    reveal_strlit("conversations");
    reveal_strlit(".");
    reveal_strlit("..");
    reveal_strlit("/");
    let mid = seq!["conversations"@, root.last()];
    let all = before + mid + rest;
    assert(is_name(root[root.len() - 1]));
    assert(is_name("conversations"@)) by {
        assert("conversations"@.len() != "."@.len() && "conversations"@.len() != ".."@.len());
    }
    assert forall|i: int| 0 <= i < all.len() implies is_name(#[trigger] all[i]) by {
        if i < before.len() {
            assert(all[i] == before[i]);
        } else if i < before.len() + 2 {
            assert(all[i] == mid[i - before.len()]);
        } else {
            assert(all[i] == rest[i - before.len() - 2]);
        }
    }
    path_is_its_names(all);
    path_is_its_names(root);
    let n = before.len() as int;
    assert forall|i: int| 0 <= i < n implies #[trigger] all[i] != "conversations"@ by {
        assert(all[i] == before[i]);
    }
    assert(all[n] == mid[0] && all[n + 1] == mid[1]);
    lemma_behind(all, root.last(), 0, n);
    assert(all.skip(n + 2) =~= rest);
    let r = absolute_path(root);
    lemma_join_end(root);
    lemma_joined_all(r, rest);
}

/// A file can be shown where it is a regular file below the workspace, or below the shared
/// directory where the path asks for that; then it is shown, and else it is refused.
pub proof fn only_files_below_a_root_are_shown(
    workspace_root: Seq<char>,
    path_text: Seq<char>,
    facts: PathFacts,
)
    ensures
        facts.canonical matches Ok(p) && facts.canonical_root matches Ok(r) && facts.is_file
            && below(facts.canonical->Ok_0@, facts.canonical_root->Ok_0@) is Some
            ==> resolved_path(workspace_root, path_text, facts) == Ok::<Seq<char>, Seq<char>>(
            facts.canonical->Ok_0@,
        ),
        facts.canonical is Err || facts.canonical_root is Err || !facts.is_file ==> resolved_path(
            workspace_root,
            path_text,
            facts,
        ) is Err,
        facts.canonical is Ok && facts.canonical_root is Ok && below(
            facts.canonical->Ok_0@,
            facts.canonical_root->Ok_0@,
        ) is None && facts.canonical_shared is None ==> resolved_path(
            workspace_root,
            path_text,
            facts,
        ) is Err,
        resolved_path(workspace_root, path_text, facts) matches Ok(p) ==> facts.canonical is Ok && p
            == facts.canonical->Ok_0@,
{
}

/// The shared directory is asked for by its name in front of a path, and by nothing else.
pub proof fn shared_paths_start_with_the_shared_directory(path: Seq<char>, rest: Seq<char>)
    requires
        rest.len() > 0 && !is_space(rest[0]) && !is_space(rest.last()),
        !".stellaclaw/shared"@.is_prefix_of(path),
    ensures
        is_shared_path(".stellaclaw/shared/"@ + rest),
        is_shared_path(".stellaclaw/shared"@),
        !is_shared_path(path),
{
    let e = Seq::<char>::empty();
    trimming_drops_the_space_around(e, rest, e);
    assert(e + rest + e =~= rest);
    let p = ".stellaclaw/shared/"@;
    let s = p + rest;
    assert(s.subrange(0, p.len() as int) =~= p);
    assert(s.skip(p.len() as int) =~= rest);
    reveal_strlit(".stellaclaw/shared");
    reveal_strlit(".stellaclaw/shared/");
    reveal_strlit(".stellaclaw/shared\\");
    let short = ".stellaclaw/shared"@;
    let back = ".stellaclaw/shared\\"@;
    assert(p.subrange(0, 18) =~= short);
    assert(back.subrange(0, 18) =~= short);
    if p.is_prefix_of(path) {
        assert(path.subrange(0, 18) =~= path.subrange(0, 19).subrange(0, 18));
    }
    if back.is_prefix_of(path) {
        assert(path.subrange(0, 18) =~= path.subrange(0, 19).subrange(0, 18));
    }
    if path == short {
        assert(path.subrange(0, 18) =~= short);
    }
}

/// A file address tells a place of this machine, whatever characters the path holds; an
/// absolute path stands for itself, and another address tells none.
pub proof fn file_address_tells_its_place(path: Seq<char>, other: Seq<char>)
    requires
        path.len() > 0 && path[0] == '/',
        other.len() > 0 && other[0] != '/' && other[0] != 'f',
    ensures
        local_path("file://"@ + percent_encoded(path)) == Some(path),
        local_path(path) == Some(path),
        local_path(other) is None,
{
    reveal_strlit("file://");
    let s = "file://"@ + percent_encoded(path);
    assert(s.subrange(0, 7) =~= "file://"@);
    assert(s.skip(7) =~= percent_encoded(path));
    lenient_reading_gives_the_text_back(path);
    if "file://"@.is_prefix_of(path) {
        assert(path.subrange(0, 7)[0] == 'f');
    }
    if "file://"@.is_prefix_of(other) {
        assert(other.subrange(0, 7)[0] == 'f');
    }
}

/// The place of a file in the workspace is shown by the path below the workspace; that of a
/// file in the shared directory by the path below it, behind the name of that directory.
pub proof fn shown_place_is_below_the_workspace(
    roots: WebAttachmentRoots,
    canonical: CanonicalPaths,
    path: Seq<char>,
)
    requires
        canonical.path is None,
    ensures
        relative_to(path, roots.workspace_root@) is Some ==> workspace_path(path, roots, canonical)
            == relative_to(path, roots.workspace_root@),
        relative_to(path, roots.workspace_root@) is None && relative_to(path, roots.shared_root@)
            is Some ==> workspace_path(path, roots, canonical) == Some(
            ".stellaclaw/shared/"@ + relative_to(path, roots.shared_root@)->0,
        ),
        relative_to(path, roots.workspace_root@) is None && relative_to(path, roots.shared_root@)
            is None ==> workspace_path(path, roots, canonical) is None,
{
}

} // verus!

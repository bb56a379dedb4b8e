//! Laws of paths: a path is made of its parts, the last of which names the file, and what
//! lies below a directory is found by the parts that follow those of the directory.

use vstd::prelude::*;
use crate::config::{is_absolute, joined};
use crate::paths::{
    behind_last, below, components, counting, counts, extension, file_name, path_parts, plain,
    relative_to,
};
use crate::words::{join_seq, join_then_split};

verus! {

/// Whether a text is a plain name of a file or a directory.
pub open spec fn is_name(part: Seq<char>) -> bool {
    part.len() > 0 && part != "."@ && part != ".."@ && !part.contains('/')
}

pub open spec fn all_names(parts: Seq<Seq<char>>) -> bool {
    forall|i: int| 0 <= i < parts.len() ==> is_name(#[trigger] parts[i])
}

/// The absolute path of some names.
pub open spec fn absolute_path(parts: Seq<Seq<char>>) -> Seq<char> {
    "/"@ + join_seq(parts, "/"@)
}

proof fn lemma_counting_names(parts: Seq<Seq<char>>)
    requires
        all_names(parts),
    ensures
        counting(parts) == parts,
    decreases parts.len(),
{
    if parts.len() > 0 {
        let rest = parts.drop_last();
        assert(all_names(rest)) by {
            assert forall|i: int| 0 <= i < rest.len() implies is_name(#[trigger] rest[i]) by {
                assert(rest[i] == parts[i]);
            }
        }
        lemma_counting_names(rest);
        assert(is_name(parts[parts.len() - 1]));
        assert(rest.push(parts.last()) =~= parts);
    } else {
        assert(parts =~= Seq::empty());
    }
}

proof fn lemma_counting_concat(a: Seq<Seq<char>>, b: Seq<Seq<char>>)
    ensures
        counting(a + b) == counting(a) + counting(b),
    decreases b.len(),
{
    if b.len() == 0 {
        assert(a + b =~= a);
        assert(counting(a) + counting(b) =~= counting(a));
    } else {
        assert((a + b).drop_last() =~= a + b.drop_last());
        lemma_counting_concat(a, b.drop_last());
        assert(counting(a + b) =~= counting(a) + counting(b));
    }
}

/// A path is the names between its slashes, whether it starts at the root or not.
pub proof fn path_is_its_names(parts: Seq<Seq<char>>)
    requires
        parts.len() > 0,
        all_names(parts),
    ensures
        path_parts(join_seq(parts, "/"@)) == parts,
        path_parts(absolute_path(parts)) == parts,
        components(absolute_path(parts)) == parts,
        is_absolute(absolute_path(parts)),
        file_name(absolute_path(parts)) == Some(parts.last()),
        file_name(join_seq(parts, "/"@)) == Some(parts.last()),
{
    reveal_strlit("/");
    reveal_strlit(".");
    assert("/"@ =~= seq!['/']);
    join_then_split(parts, '/');
    lemma_counting_names(parts);
    let empty = Seq::<char>::empty();
    let all = seq![empty] + parts;
    assert forall|i: int| 0 <= i < all.len() implies !(#[trigger] all[i]).contains('/') by {
        if i > 0 {
            assert(all[i] == parts[i - 1]);
        }
    }
    join_then_split(all, '/');
    assert(all.drop_first() =~= parts);
    assert(join_seq(all, "/"@) =~= absolute_path(parts));
    lemma_counting_concat(seq![empty], parts);
    assert(seq![empty].drop_last() =~= Seq::empty());
    assert(counting(Seq::<Seq<char>>::empty()) =~= Seq::empty());
    assert(!counts(seq![empty].last()));
    assert(counting(seq![empty]) =~= Seq::empty());
    assert(counting(all) =~= parts);
    assert(is_name(parts[parts.len() - 1]));
}

/// The extension of a name follows its last dot; a dot at the start of the name does not
/// count.
pub proof fn extension_follows_the_last_dot(stem: Seq<char>, e: Seq<char>)
    requires
        !e.contains('.'),
    ensures
        extension(stem + "."@ + e) == (if stem.len() > 0 {
            Some(e)
        } else {
            None
        }),
        extension(e) is None,
{
    reveal_strlit(".");
    lemma_behind_last_is(stem + "."@, e, '.');
    assert((stem + "."@ + e).skip(stem.len() as int + 1) =~= e);
    lemma_behind_last_is(Seq::empty(), e, '.');
    assert(Seq::<char>::empty() + e =~= e);
}

proof fn lemma_behind_last_is(a: Seq<char>, b: Seq<char>, c: char)
    requires
        a.len() > 0 ==> a.last() == c,
        !b.contains(c),
    ensures
        behind_last(a + b, c) == a.len(),
    decreases b.len(),
{
    if b.len() == 0 {
        assert(a + b =~= a);
    } else {
        assert(b.contains(b.last()));
        assert((a + b).drop_last() =~= a + b.drop_last());
        assert(!b.drop_last().contains(c)) by {
            if b.drop_last().contains(c) {
                let i = choose|i: int| 0 <= i < b.drop_last().len() && b.drop_last()[i] == c;
                assert(b[i] == c);
            }
        }
        lemma_behind_last_is(a, b.drop_last(), c);
    }
}

proof fn lemma_plain_names(parts: Seq<Seq<char>>)
    requires
        all_names(parts),
    ensures
        plain(parts) == parts,
    decreases parts.len(),
{
    if parts.len() > 0 {
        let rest = parts.drop_last();
        assert forall|i: int| 0 <= i < rest.len() implies is_name(#[trigger] rest[i]) by {
            assert(rest[i] == parts[i]);
        }
        lemma_plain_names(rest);
        assert(is_name(parts[parts.len() - 1]));
        assert(rest.push(parts.last()) =~= parts);
    } else {
        assert(parts =~= Seq::empty());
    }
}

/// What lies below a directory is shown by the names that follow those of the directory, and
/// a path whose names go another way does not lie below it.
pub proof fn path_below_a_directory_is_the_rest(
    root: Seq<Seq<char>>,
    rest: Seq<Seq<char>>,
    other: Seq<Seq<char>>,
)
    requires
        root.len() > 0,
        rest.len() > 0,
        other.len() > 0,
        all_names(root),
        all_names(rest),
        all_names(other),
        !root.is_prefix_of(other),
    ensures
        relative_to(absolute_path(root + rest), absolute_path(root)) == Some(
            join_seq(rest, "/"@),
        ),
        below(absolute_path(root + rest), absolute_path(root)) == Some(rest),
        relative_to(absolute_path(other), absolute_path(root)) is None,
{
    let all = root + rest;
    assert forall|i: int| 0 <= i < all.len() implies is_name(#[trigger] all[i]) by {
        if i < root.len() {
            assert(all[i] == root[i]);
        } else {
            assert(all[i] == rest[i - root.len()]);
        }
    }
    path_is_its_names(root);
    path_is_its_names(all);
    path_is_its_names(other);
    assert(all.subrange(0, root.len() as int) =~= root);
    assert(all.skip(root.len() as int) =~= rest);
    lemma_plain_names(rest);
}

/// A name below a directory stands behind the directory and one slash; an absolute path
/// stands for itself.
pub proof fn joined_path_ends_in_the_name(base: Seq<char>, name: Seq<char>)
    requires
        base.len() > 0,
        name.len() > 0,
        name[0] != '/',
    ensures
        base.last() != '/' ==> joined(base, name) == base + seq!['/'] + name,
        base.last() == '/' ==> joined(base, name) == base + name,
        joined(base, "/"@ + name) == "/"@ + name,
        joined(Seq::empty(), name) == name,
{
    reveal_strlit("/");
    assert("/"@ =~= seq!['/']);
}

/// Empty parts and single dots do not count in a path.
pub proof fn dots_do_not_count(parts: Seq<Seq<char>>)
    ensures
        counting(parts.push("."@)) == counting(parts),
        counting(parts.push(""@)) == counting(parts),
        counting(parts.push(".."@)) == counting(parts).push(".."@),
{
    reveal_strlit(".");
    reveal_strlit("");
    reveal_strlit("..");
    assert(".."@.len() != "."@.len());
    assert(parts.push("."@).drop_last() =~= parts);
    assert(parts.push(""@).drop_last() =~= parts);
    assert(parts.push(".."@).drop_last() =~= parts);
}

} // verus!

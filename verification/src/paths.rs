//! Paths as text, with `/` between their parts.

use vstd::prelude::*;
use crate::config::{is_absolute, path_is_absolute};
use crate::text::{chars_of, opt_view, text_eq, views};
use crate::words::{join, join_seq, lemma_split_nonempty, lower_seq, split_char, split_seq, to_lower};

verus! {

/// Whether a segment of a path counts: empty ones and `.` do not.
pub open spec fn counts(part: Seq<char>) -> bool {
    part.len() > 0 && part != "."@
}

pub open spec fn counting(parts: Seq<Seq<char>>) -> Seq<Seq<char>>
    decreases parts.len(),
{
    if parts.len() == 0 {
        Seq::empty()
    } else {
        let rest = counting(parts.drop_last());
        if counts(parts.last()) {
            rest.push(parts.last())
        } else {
            rest
        }
    }
}

/// The parts of a path that count.
pub open spec fn path_parts(path: Seq<char>) -> Seq<Seq<char>> {
    counting(split_seq(path, '/'))
}

fn filter_parts(all: &Vec<String>) -> (r: Vec<String>)
    ensures
        views(r@) == counting(views(all@)),
{
    let mut r: Vec<String> = Vec::new();
    let ghost v = views(all@);
    let mut i: usize = 0;
    assert(v.take(0) =~= Seq::empty());
    assert(views(r@) =~= Seq::empty());
    while i < all.len()
        invariant
            i <= all@.len(),
            v == views(all@),
            views(r@) == counting(v.take(i as int)),
        decreases all@.len() - i,
    {
        let part: &str = all[i].as_str();
        let ghost before = r@;
        proof {
            assert(v.take(i + 1).drop_last() =~= v.take(i as int));
            assert(v.take(i + 1).last() == part@);
        }
        if !part.is_empty() && !text_eq(part, ".") {
            r.push(part.to_owned());
            assert(views(r@) =~= views(before).push(part@));
        }
        i += 1;
    }
    assert(v.take(v.len() as int) =~= v);
    r
}

pub fn split_path_parts(path: &str) -> (r: Vec<String>)
    ensures
        views(r@) == path_parts(path@),
{
    let all: Vec<String> = split_char(path, '/');
    filter_parts(&all)
}

/// The last part of a path, unless it leads upwards.
pub open spec fn file_name(path: Seq<char>) -> Option<Seq<char>> {
    let parts = path_parts(path);
    if parts.len() == 0 || parts.last() == ".."@ {
        None
    } else {
        Some(parts.last())
    }
}

pub fn path_file_name(path: &str) -> (r: Option<String>)
    ensures
        opt_view(r) == file_name(path@),
{
    let parts: Vec<String> = split_path_parts(path);
    let n: usize = parts.len();
    assert(views(parts@).len() == n);
    if n == 0 {
        return None;
    }
    assert(views(parts@).last() == parts@[n - 1]@);
    if text_eq(parts[n - 1].as_str(), "..") {
        None
    } else {
        Some(parts[n - 1].clone())
    }
}

/// The index behind the last `c`; zero when there is none.
pub open spec fn behind_last(s: Seq<char>, c: char) -> int
    decreases s.len(),
{
    if s.len() == 0 {
        0
    } else if s.last() == c {
        s.len() as int
    } else {
        behind_last(s.drop_last(), c)
    }
}

/// What follows the last dot of a name; a dot at its start does not count.
pub open spec fn extension(name: Seq<char>) -> Option<Seq<char>> {
    let i = behind_last(name, '.');
    if i <= 1 {
        None
    } else {
        Some(name.skip(i))
    }
}

proof fn lemma_behind_last(s: Seq<char>, c: char)
    ensures
        0 <= behind_last(s, c) <= s.len(),
    decreases s.len(),
{
    if s.len() > 0 && s.last() != c {
        lemma_behind_last(s.drop_last(), c);
    }
}

fn name_extension(name: &str) -> (r: Option<String>)
    ensures
        opt_view(r) == extension(name@),
{
    let chars: Vec<char> = chars_of(name);
    let n: usize = chars.len();
    let mut i: usize = n;
    assert(name@.take(n as int) =~= name@);
    while i > 0 && chars[i - 1] != '.'
        invariant
            i <= n,
            n == chars@.len(),
            chars@ == name@,
            behind_last(name@.take(i as int), '.') == behind_last(name@, '.'),
        decreases i,
    {
        assert(name@.take(i as int).drop_last() =~= name@.take(i - 1));
        i -= 1;
    }
    if i <= 1 {
        None
    } else {
        assert(name@.subrange(i as int, n as int) =~= name@.skip(i as int));
        Some(name.substring_char(i, n).to_owned())
    }
}

/// The extension of a path's file name.
pub open spec fn path_extension(path: Seq<char>) -> Option<Seq<char>> {
    match file_name(path) {
        Some(name) => extension(name),
        None => None,
    }
}

pub fn extension_of_path(path: &str) -> (r: Option<String>)
    ensures
        opt_view(r) == path_extension(path@),
{
    match path_file_name(path) {
        Some(name) => name_extension(name.as_str()),
        None => None,
    }
}

/// The extension in lower case; empty where there is none.
pub open spec fn lower_extension(path: Seq<char>) -> Seq<char> {
    match path_extension(path) {
        Some(e) => lower_seq(e),
        None => Seq::empty(),
    }
}

pub fn lower_extension_of(path: &str) -> (r: String)
    ensures
        r@ == lower_extension(path@),
{
    match extension_of_path(path) {
        Some(e) => to_lower(e.as_str()),
        None => String::new(),
    }
}

/// The components of a path: its parts, and a dot that it starts with.
pub open spec fn components(path: Seq<char>) -> Seq<Seq<char>> {
    if split_seq(path, '/')[0] == "."@ {
        seq!["."@] + path_parts(path)
    } else {
        path_parts(path)
    }
}

pub fn split_components(path: &str) -> (r: Vec<String>)
    ensures
        views(r@) == components(path@),
{
    let all: Vec<String> = split_char(path, '/');
    let mut r: Vec<String> = filter_parts(&all);
    proof {
        lemma_split_nonempty(path@, '/');
        assert(views(all@).len() == all@.len());
        assert(views(all@)[0] == all@[0]@);
    }
    if text_eq(all[0].as_str(), ".") {
        let ghost before = r@;
        r.insert(0, ".".to_owned());
        assert(views(r@) =~= seq!["."@] + views(before));
    }
    r
}

/// The components that follow a directory in a path below it.
pub open spec fn below(path: Seq<char>, root: Seq<char>) -> Option<Seq<Seq<char>>> {
    if is_absolute(path) == is_absolute(root) && components(root).is_prefix_of(components(path)) {
        Some(components(path).skip(components(root).len() as int))
    } else {
        None
    }
}

/// Whether a component names no entry of a directory.
pub open spec fn is_dots(part: Seq<char>) -> bool {
    part == ".."@ || part == "."@
}

/// The components of a path that name entries.
pub open spec fn plain(parts: Seq<Seq<char>>) -> Seq<Seq<char>>
    decreases parts.len(),
{
    if parts.len() == 0 {
        Seq::empty()
    } else {
        let rest = plain(parts.drop_last());
        if is_dots(parts.last()) {
            rest
        } else {
            rest.push(parts.last())
        }
    }
}

/// A path below a directory, as the interface shows it.
pub open spec fn relative_to(path: Seq<char>, root: Seq<char>) -> Option<Seq<char>> {
    match below(path, root) {
        Some(parts) => Some(join_seq(plain(parts), "/"@)),
        None => None,
    }
}

fn plain_from(parts: &Vec<String>, from: usize) -> (r: Vec<String>)
    requires
        from <= parts@.len(),
    ensures
        views(r@) == plain(views(parts@).skip(from as int)),
{
    let mut r: Vec<String> = Vec::new();
    let ghost v = views(parts@).skip(from as int);
    let mut i: usize = from;
    assert(v.take(0) =~= Seq::empty());
    assert(views(r@) =~= Seq::empty());
    while i < parts.len()
        invariant
            from <= i <= parts@.len(),
            v == views(parts@).skip(from as int),
            views(r@) == plain(v.take(i - from)),
        decreases parts@.len() - i,
    {
        let part: &str = parts[i].as_str();
        let ghost before = r@;
        proof {
            assert(v.take(i - from + 1).drop_last() =~= v.take(i - from));
            assert(v.take(i - from + 1).last() == part@);
        }
        if !text_eq(part, "..") && !text_eq(part, ".") {
            r.push(part.to_owned());
            assert(views(r@) =~= views(before).push(part@));
        }
        i += 1;
    }
    assert(v.take(v.len() as int) =~= v);
    r
}

/// Whether the components of a path start with those of another.
fn match_root(a: &Vec<String>, b: &Vec<String>) -> (r: bool)
    ensures
        r == views(b@).is_prefix_of(views(a@)),
{
    let ghost va = views(a@);
    let ghost vb = views(b@);
    assert(va.len() == a@.len());
    assert(vb.len() == b@.len());
    if b.len() > a.len() {
        return false;
    }
    let mut i: usize = 0;
    while i < b.len()
        invariant
            i <= b@.len() <= a@.len(),
            va == views(a@),
            vb == views(b@),
            forall|j: int| 0 <= j < i ==> va[j] == vb[j],
        decreases b@.len() - i,
    {
        assert(va[i as int] == a@[i as int]@);
        assert(vb[i as int] == b@[i as int]@);
        if !text_eq(a[i].as_str(), b[i].as_str()) {
            assert(va.take(vb.len() as int)[i as int] != vb[i as int]);
            return false;
        }
        i += 1;
    }
    assert(vb =~= va.take(vb.len() as int));
    true
}

/// Whether a path lies below a directory, or is it.
pub fn lies_below(path: &str, root: &str) -> (b: bool)
    ensures
        b == (below(path@, root@) is Some),
{
    if path_is_absolute(path) != path_is_absolute(root) {
        return false;
    }
    let a: Vec<String> = split_components(path);
    let b: Vec<String> = split_components(root);
    match_root(&a, &b)
}

pub fn path_relative_to(path: &str, root: &str) -> (r: Option<String>)
    ensures
        opt_view(r) == relative_to(path@, root@),
{
    if path_is_absolute(path) != path_is_absolute(root) {
        return None;
    }
    let a: Vec<String> = split_components(path);
    let b: Vec<String> = split_components(root);
    if !match_root(&a, &b) {
        return None;
    }
    let rest: Vec<String> = plain_from(&a, b.len());
    Some(join(rest.as_slice(), "/"))
}

proof fn lemma_plain_has_no_upward(parts: Seq<Seq<char>>, k: int)
    requires
        0 <= k < plain(parts).len(),
    ensures
        plain(parts)[k] != ".."@,
    decreases parts.len(),
{
    if parts.len() > 0 {
        let rest = plain(parts.drop_last());
        if k < rest.len() {
            lemma_plain_has_no_upward(parts.drop_last(), k);
        }
    }
}

/// A path that is shown relative to a directory never leads out of it.
pub proof fn relative_path_stays_below(path: Seq<char>, root: Seq<char>)
    requires
        below(path, root) is Some,
    ensures
        forall|k: int|
            0 <= k < plain(below(path, root)->0).len() ==> #[trigger] plain(
                below(path, root)->0,
            )[k] != ".."@,
{
    assert forall|k: int| 0 <= k < plain(below(path, root)->0).len() implies #[trigger] plain(
        below(path, root)->0,
    )[k] != ".."@ by {
        lemma_plain_has_no_upward(below(path, root)->0, k);
    }
}

} // verus!

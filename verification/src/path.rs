//! Paths as texts.
//!
//! A path is a text whose components are separated by `/`. Empty pieces
//! (a doubled or a trailing separator) are no components. A path is rooted
//! when it starts with the separator.

use vstd::prelude::*;
use crate::text::{
    chars_of, join, join_with, last_index, last_index_of, push_all, slice_of, split, split_on, views,
};

verus! {

/// The pieces of `parts` that are not empty, in their order.
pub open spec fn drop_empty(parts: Seq<Seq<char>>) -> Seq<Seq<char>>
    decreases parts.len(),
{
    if parts.len() == 0 {
        Seq::empty()
    } else if parts.last().len() == 0 {
        drop_empty(parts.drop_last())
    } else {
        drop_empty(parts.drop_last()).push(parts.last())
    }
}

/// The components of a path.
pub open spec fn components(p: Seq<char>) -> Seq<Seq<char>> {
    drop_empty(split_on(p, '/'))
}

/// Whether a path starts at the root.
pub open spec fn is_rooted(p: Seq<char>) -> bool {
    p.len() > 0 && p[0] == '/'
}

/// `base` leads to `p`: both are rooted or neither is, and the components of
/// `base` are the first components of `p`.
pub open spec fn leads_to(base: Seq<char>, p: Seq<char>) -> bool {
    let b = components(base);
    let c = components(p);
    is_rooted(base) == is_rooted(p) && b.len() <= c.len() && c.take(b.len() as int) == b
}

/// A path without the separators at its end.
pub open spec fn without_trailing_seps(p: Seq<char>) -> Seq<char>
    decreases p.len(),
{
    if p.len() > 0 && p.last() == '/' {
        without_trailing_seps(p.drop_last())
    } else {
        p
    }
}

/// Where the last part of a path starts: behind its last separator, the
/// separators at its end not counted.
pub open spec fn name_start(p: Seq<char>) -> int {
    last_index_of(without_trailing_seps(p), '/') + 1
}

/// The last part of a path.
pub open spec fn last_part(p: Seq<char>) -> Seq<char> {
    without_trailing_seps(p).skip(name_start(p))
}

/// The file name of a path: its last part, unless that is empty or `..`.
pub open spec fn file_name(p: Seq<char>) -> Option<Seq<char>> {
    let n = last_part(p);
    if n.len() == 0 || n == ".."@ {
        None
    } else {
        Some(n)
    }
}

/// A file name without its extension: what stands before its last dot,
/// unless it has no dot or only the one it starts with.
pub open spec fn stem_of(name: Seq<char>) -> Seq<char> {
    let i = last_index_of(name, '.');
    if i <= 0 {
        name
    } else {
        name.take(i)
    }
}

/// The extension of a file name: what stands behind its last dot, unless it
/// has no dot or only the one it starts with.
pub open spec fn extension_of(name: Seq<char>) -> Option<Seq<char>> {
    let i = last_index_of(name, '.');
    if i <= 0 {
        None
    } else {
        Some(name.skip(i + 1))
    }
}

/// The stem of the file that a path names.
pub open spec fn file_stem(p: Seq<char>) -> Option<Seq<char>> {
    match file_name(p) {
        Some(n) => Some(stem_of(n)),
        None => None,
    }
}

/// The extension of the file that a path names.
pub open spec fn extension(p: Seq<char>) -> Option<Seq<char>> {
    match file_name(p) {
        Some(n) => extension_of(n),
        None => None,
    }
}

/// The path with the extension of its file name replaced by `ext`, or taken
/// away where `ext` is empty. A path without a file name stays as it is.
pub open spec fn with_extension(p: Seq<char>, ext: Seq<char>) -> Seq<char> {
    match file_name(p) {
        None => p,
        Some(n) => {
            let kept = without_trailing_seps(p).take(name_start(p)) + stem_of(n);
            if ext.len() == 0 {
                kept
            } else {
                kept + seq!['.'] + ext
            }
        },
    }
}

/// `b` seen from `a`: `b` itself where it is rooted or `a` is empty, else `a`
/// and `b` with one separator between them.
pub open spec fn join_paths(a: Seq<char>, b: Seq<char>) -> Seq<char> {
    if is_rooted(b) || a.len() == 0 {
        b
    } else if a.last() == '/' {
        a + b
    } else {
        a + seq!['/'] + b
    }
}

/// The length of a path without the separators at its end.
fn trimmed_len(p: &Vec<char>) -> (r: usize)
    ensures
        r <= p.len(),
        p@.take(r as int) == without_trailing_seps(p@),
{
    let mut end: usize = p.len();
    assert(p@.take(p.len() as int) == p@);
    while end > 0 && p[end - 1] == '/'
        invariant
            end <= p.len(),
            without_trailing_seps(p@) == without_trailing_seps(p@.take(end as int)),
        decreases end,
    {
        proof {
            let u = p@.take(end as int);
            assert(u.last() == p@[end - 1]);
            assert(u.drop_last() == p@.take(end - 1));
        }
        end -= 1;
    }
    proof {
        let u = p@.take(end as int);
        if end > 0 {
            assert(u.last() == p@[end - 1]);
        }
    }
    end
}

/// Where the last part of a path starts and ends.
fn last_part_bounds(p: &Vec<char>) -> (r: (usize, usize))
    ensures
        r.0 <= r.1 <= p.len(),
        r.0 == name_start(p@),
        p@.take(r.1 as int) == without_trailing_seps(p@),
        p@.subrange(r.0 as int, r.1 as int) == last_part(p@),
{
    let end = trimmed_len(p);
    let trimmed = slice_of(p, 0, end);
    assert(trimmed@ == p@.take(end as int));
    let start = match last_index(&trimmed, '/') {
        Some(i) => i + 1,
        None => 0,
    };
    assert(p@.take(end as int).skip(start as int) == p@.subrange(start as int, end as int));
    (start, end)
}

/// The file name of a path.
pub fn path_file_name(p: &Vec<char>) -> (r: Option<Vec<char>>)
    ensures
        match r {
            Some(n) => file_name(p@) == Some(n@),
            None => file_name(p@) is None,
        },
{
    let (start, end) = last_part_bounds(p);
    let name = slice_of(p, start, end);
    let dots = chars_of("..");
    if name.len() == 0 || chars_eq(&name, &dots) {
        None
    } else {
        Some(name)
    }
}

/// A file name without its extension.
pub fn name_stem(name: &Vec<char>) -> (r: Vec<char>)
    ensures
        r@ == stem_of(name@),
{
    match last_index(name, '.') {
        Some(i) => {
            if i == 0 {
                name.clone()
            } else {
                slice_of(name, 0, i)
            }
        },
        None => name.clone(),
    }
}

/// The extension of a file name.
pub fn name_extension(name: &Vec<char>) -> (r: Option<Vec<char>>)
    ensures
        match r {
            Some(e) => extension_of(name@) == Some(e@),
            None => extension_of(name@) is None,
        },
{
    match last_index(name, '.') {
        Some(i) => {
            if i == 0 {
                None
            } else {
                Some(slice_of(name, i + 1, name.len()))
            }
        },
        None => None,
    }
}

/// The stem of the file that a path names.
pub fn path_file_stem(p: &Vec<char>) -> (r: Option<Vec<char>>)
    ensures
        match r {
            Some(s) => file_stem(p@) == Some(s@),
            None => file_stem(p@) is None,
        },
{
    match path_file_name(p) {
        Some(n) => Some(name_stem(&n)),
        None => None,
    }
}

/// The extension of the file that a path names.
pub fn path_extension(p: &Vec<char>) -> (r: Option<Vec<char>>)
    ensures
        match r {
            Some(e) => extension(p@) == Some(e@),
            None => extension(p@) is None,
        },
{
    match path_file_name(p) {
        Some(n) => name_extension(&n),
        None => None,
    }
}

/// The path with another extension.
pub fn path_with_extension(p: &Vec<char>, ext: &Vec<char>) -> (r: Vec<char>)
    ensures
        r@ == with_extension(p@, ext@),
{
    let (start, end) = last_part_bounds(p);
    let name = slice_of(p, start, end);
    let dots = chars_of("..");
    if name.len() == 0 || chars_eq(&name, &dots) {
        return p.clone();
    }
    let mut out = slice_of(p, 0, start);
    assert(out@ == without_trailing_seps(p@).take(name_start(p@))) by {
        assert(p@.take(end as int).take(start as int) == p@.subrange(0, start as int));
    }
    let stem = name_stem(&name);
    push_all(&mut out, &stem);
    if ext.len() > 0 {
        out.push('.');
        push_all(&mut out, ext);
    }
    out
}

/// `b` seen from `a`.
pub fn path_join(a: &Vec<char>, b: &Vec<char>) -> (r: Vec<char>)
    ensures
        r@ == join_paths(a@, b@),
{
    if path_is_rooted(b) || a.len() == 0 {
        return b.clone();
    }
    let mut out = a.clone();
    if a[a.len() - 1] != '/' {
        out.push('/');
    }
    push_all(&mut out, b);
    out
}

/// The components of a path.
pub fn path_components(p: &Vec<char>) -> (r: Vec<Vec<char>>)
    ensures
        views(r@) == components(p@),
{
    let pieces = split(p, '/');
    let mut out: Vec<Vec<char>> = Vec::new();
    let mut i: usize = 0;
    while i < pieces.len()
        invariant
            i <= pieces.len(),
            views(out@) == drop_empty(views(pieces@).take(i as int)),
        decreases pieces.len() - i,
    {
        proof {
            let done = views(pieces@).take(i + 1);
            assert(done.drop_last() == views(pieces@).take(i as int));
            assert(done.last() == pieces@[i as int]@);
        }
        if pieces[i].len() > 0 {
            let piece = pieces[i].clone();
            proof {
                assert(piece@ == pieces@[i as int]@);
                assert(views(out@.push(piece)) == views(out@).push(piece@));
            }
            out.push(piece);
        }
        i += 1;
    }
    assert(views(pieces@).take(pieces.len() as int) == views(pieces@));
    out
}

/// Whether a path starts at the root.
pub fn path_is_rooted(p: &Vec<char>) -> (r: bool)
    ensures
        r == is_rooted(p@),
{
    p.len() > 0 && p[0] == '/'
}

/// Whether two texts hold the same characters.
pub fn chars_eq(a: &Vec<char>, b: &Vec<char>) -> (r: bool)
    ensures
        r == (a@ == b@),
{
    if a.len() != b.len() {
        return false;
    }
    let mut i: usize = 0;
    while i < a.len()
        invariant
            i <= a.len(),
            a.len() == b.len(),
            forall|j: int| 0 <= j < i ==> a@[j] == b@[j],
        decreases a.len() - i,
    {
        if a[i] != b[i] {
            return false;
        }
        i += 1;
    }
    assert(a@ =~= b@);
    true
}

/// Whether the texts of `prefix` are the first texts of `all`.
pub fn parts_start_with(all: &Vec<Vec<char>>, prefix: &Vec<Vec<char>>) -> (r: bool)
    ensures
        r == (prefix@.len() <= all@.len() && views(all@).take(prefix@.len() as int) == views(
            prefix@,
        )),
{
    if prefix.len() > all.len() {
        return false;
    }
    let mut i: usize = 0;
    while i < prefix.len()
        invariant
            i <= prefix.len() <= all.len(),
            forall|j: int| 0 <= j < i ==> all@[j]@ == prefix@[j]@,
        decreases prefix.len() - i,
    {
        if !chars_eq(&all[i], &prefix[i]) {
            assert(views(all@).take(prefix@.len() as int)[i as int] == all@[i as int]@);
            assert(views(prefix@)[i as int] == prefix@[i as int]@);
            return false;
        }
        i += 1;
    }
    assert(views(all@).take(prefix@.len() as int) =~= views(prefix@));
    true
}

/// Whether `base` leads to `p`.
pub fn path_leads_to(base: &Vec<char>, p: &Vec<char>) -> (r: bool)
    ensures
        r == leads_to(base@, p@),
{
    if path_is_rooted(base) != path_is_rooted(p) {
        return false;
    }
    let b = path_components(base);
    let c = path_components(p);
    parts_start_with(&c, &b)
}

/// The texts of `parts` from `from` up to, not including, `to`.
pub fn parts_between(parts: &Vec<Vec<char>>, from: usize, to: usize) -> (r: Vec<Vec<char>>)
    requires
        from <= to <= parts.len(),
    ensures
        views(r@) == views(parts@).subrange(from as int, to as int),
{
    let mut out: Vec<Vec<char>> = Vec::new();
    let mut i: usize = from;
    while i < to
        invariant
            from <= i <= to <= parts.len(),
            views(out@) == views(parts@).subrange(from as int, i as int),
        decreases to - i,
    {
        let piece = parts[i].clone();
        proof {
            assert(views(out@.push(piece)) == views(out@).push(piece@));
            assert(views(parts@).subrange(from as int, i + 1) == views(parts@).subrange(
                from as int,
                i as int,
            ).push(parts@[i as int]@));
        }
        out.push(piece);
        i += 1;
    }
    out
}

/// The path made of the given components, with one separator between each two.
pub fn path_of(parts: &Vec<Vec<char>>) -> (r: Vec<char>)
    ensures
        r@ == join_with(views(parts@), "/"@),
{
    let sep = chars_of("/");
    join(parts, &sep)
}

} // verus!

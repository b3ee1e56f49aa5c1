//! Paths are kept as text; joining follows `PathBuf::push` on Unix.

use vstd::prelude::*;
use crate::text::{
    chars_of, concat2, concat3, find_char, find_char_in, lemma_find_char_bounds, string_of_range,
};

verus! {

/// `base` joined with `name`: `name` itself when it is absolute or `base`
/// is empty, otherwise the two with one `/` between them.
pub open spec fn path_join(base: Seq<char>, name: Seq<char>) -> Seq<char> {
    if name.len() > 0 && name[0] == '/' {
        name
    } else if base.len() == 0 {
        name
    } else if base[base.len() - 1] == '/' {
        base + name
    } else {
        base + seq!['/'] + name
    }
}

/// Joins `name` onto `base` as `Path::join` does.
pub fn join_path(base: &str, name: &str) -> (r: String)
    ensures
        r@ == path_join(base@, name@),
{
    let nl = name.unicode_len();
    let bl = base.unicode_len();
    if nl > 0 && name.get_char(0) == '/' {
        name.to_owned()
    } else if bl == 0 {
        name.to_owned()
    } else if base.get_char(bl - 1) == '/' {
        concat2(base, name)
    } else {
        proof {
            reveal_strlit("/");
        }
        let r = concat3(base, "/", name);
        assert(r@ =~= base@ + seq!['/'] + name@);
        r
    }
}


/// The pieces of `s` between `/` separators, empty ones included.
pub open spec fn split_slash(s: Seq<char>) -> Seq<Seq<char>>
    decreases s.len(),
{
    let i = find_char(s, '/');
    if i >= s.len() {
        seq![s]
    } else {
        proof {
            lemma_find_char_bounds(s, '/');
        }
        seq![s.subrange(0, i)] + split_slash(s.subrange(i + 1, s.len() as int))
    }
}

/// The pieces that name something: not empty and not `.`.
pub open spec fn normal_parts(ps: Seq<Seq<char>>) -> Seq<Seq<char>>
    decreases ps.len(),
{
    if ps.len() == 0 {
        seq![]
    } else {
        let rest = normal_parts(ps.drop_last());
        let p = ps.last();
        if p.len() == 0 || p == "."@ { rest } else { rest.push(p) }
    }
}

/// A path as `Path::components` sees it on Unix: whether it is absolute,
/// whether it starts with `.`, and its named parts (`..` included).
pub open spec fn path_components(s: Seq<char>) -> (bool, bool, Seq<Seq<char>>) {
    let abs = s.len() > 0 && s[0] == '/';
    let ps = split_slash(s);
    (abs, !abs && ps[0] == "."@, normal_parts(ps))
}

/// `Path::file_name`: the last named part, unless it is `..`.
pub open spec fn file_name_of(s: Seq<char>) -> Option<Seq<char>> {
    let parts = path_components(s).2;
    if parts.len() == 0 || parts.last() == ".."@ {
        None
    } else {
        Some(parts.last())
    }
}

/// The pieces of `s` between `/` separators.
fn split_slash_exec(s: &str) -> (r: Vec<String>)
    ensures
        r@.map_values(|x: String| x@) == split_slash(s@),
{
    let v = chars_of(s);
    let len = v.len();
    let mut out: Vec<String> = Vec::new();
    let mut p: usize = 0;
    assert(v@.subrange(0, len as int) =~= v@);
    loop
        invariant
            p <= len == v@.len(),
            v@ == s@,
            split_slash(v@) == out@.map_values(|x: String| x@) + split_slash(
                v@.subrange(p as int, len as int),
            ),
        decreases len - p,
    {
        let i = find_char_in(&v, p, len, '/');
        let ghost tail = v@.subrange(p as int, len as int);
        let ghost before = out@.map_values(|x: String| x@);
        proof {
            assert(tail.subrange(0, i - p) =~= v@.subrange(p as int, i as int));
        }
        out.push(string_of_range(&v, p, i));
        assert(out@.map_values(|x: String| x@) =~= before.push(v@.subrange(p as int, i as int)));
        if i >= len {
            assert(tail.subrange(0, i - p) =~= tail);
            assert(before.push(v@.subrange(p as int, i as int)) =~= before + seq![tail]);
            return out;
        }
        proof {
            assert(tail.subrange(i - p + 1, tail.len() as int) =~= v@.subrange(i + 1, len as int));
            assert(before.push(v@.subrange(p as int, i as int)) + split_slash(
                v@.subrange(i + 1, len as int),
            ) =~= before + (seq![v@.subrange(p as int, i as int)] + split_slash(
                v@.subrange(i + 1, len as int),
            )));
        }
        p = i + 1;
    }
}

/// A path taken apart as `Path::components` does on Unix.
pub fn components(s: &str) -> (r: (bool, bool, Vec<String>))
    ensures
        (r.0, r.1, r.2@.map_values(|x: String| x@)) == path_components(s@),
{
    let pieces = split_slash_exec(s);
    let abs = s.unicode_len() > 0 && s.get_char(0) == '/';
    let dot = ".".to_owned();
    let ghost ps = split_slash(s@);
    assert(pieces@.len() == ps.len());
    assert(pieces@.len() > 0) by {
        lemma_split_slash_nonempty(s@);
    }
    let first_dot = !abs && pieces[0] == dot;
    let mut parts: Vec<String> = Vec::new();
    let mut i: usize = 0;
    while i < pieces.len()
        invariant
            i <= pieces@.len(),
            pieces@.map_values(|x: String| x@) == ps,
            parts@.map_values(|x: String| x@) == normal_parts(ps.take(i as int)),
            dot@ == "."@,
        decreases pieces@.len() - i,
    {
        proof {
            assert(ps.take(i + 1).drop_last() =~= ps.take(i as int));
            assert(ps.take(i + 1).last() == pieces@[i as int]@);
        }
        let piece = pieces[i].clone();
        let ghost before = parts@.map_values(|x: String| x@);
        if !(piece.as_str().is_empty() || piece == dot) {
            parts.push(piece);
            assert(parts@.map_values(|x: String| x@) =~= before.push(pieces@[i as int]@));
        }
        i = i + 1;
    }
    assert(ps.take(ps.len() as int) =~= ps);
    (abs, first_dot, parts)
}

proof fn lemma_split_slash_nonempty(s: Seq<char>)
    ensures
        split_slash(s).len() > 0,
    decreases s.len(),
{
    lemma_find_char_bounds(s, '/');
}


/// Two paths that `Path`'s `==` finds equal: same components.
pub fn same_path(a: &str, b: &str) -> (r: bool)
    ensures
        r == (path_components(a@) == path_components(b@)),
{
    let (a0, a1, ap) = components(a);
    let (b0, b1, bp) = components(b);
    let ghost av = ap@.map_values(|x: String| x@);
    let ghost bv = bp@.map_values(|x: String| x@);
    if a0 != b0 || a1 != b1 || ap.len() != bp.len() {
        assert(av.len() == ap@.len() && bv.len() == bp@.len());
        return false;
    }
    let mut i: usize = 0;
    while i < ap.len()
        invariant
            i <= ap@.len() == bp@.len(),
            (a0, a1, av) == path_components(a@),
            (b0, b1, bv) == path_components(b@),
            a0 == b0 && a1 == b1,
            av == ap@.map_values(|x: String| x@),
            bv == bp@.map_values(|x: String| x@),
            forall|j: int| 0 <= j < i ==> av[j] == bv[j],
        decreases ap@.len() - i,
    {
        if ap[i] != bp[i] {
            assert(av[i as int] != bv[i as int]);
            assert(av != bv);
            return false;
        }
        i = i + 1;
    }
    assert(av =~= bv);
    true
}

/// The last component of a path, as `Path::file_name` gives it.
pub fn file_name(s: &str) -> (r: Option<String>)
    ensures
        match file_name_of(s@) {
            Some(n) => r matches Some(x) && x@ == n,
            None => r is None,
        },
{
    let (_, _, parts) = components(s);
    let n = parts.len();
    if n == 0 {
        return None;
    }
    let last = parts[n - 1].clone();
    if last == "..".to_owned() {
        return None;
    }
    Some(last)
}

} // verus!

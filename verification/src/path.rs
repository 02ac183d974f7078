//! File names of paths, as `std::path` reads them: the last component, its
//! extension, a path with another extension, a path joined with a name.
//! Paths are taken in the form that `std::path::absolute` gives: without
//! `.` components.
use vstd::prelude::*;
use crate::text::{
    chars_of, copy_range, count_back, in_class, lemma_trailing_bound, lemma_trailing_not_bound,
    lemma_trailing_not_is, string_of, trailing, trailing_not, CharClass,
};

verus! {

pub open spec fn seps(windows: bool) -> CharClass {
    CharClass::PathSeparator(windows)
}

/// The path without its trailing separators.
pub open spec fn without_trailing_seps(p: Seq<char>, windows: bool) -> Seq<char> {
    p.take(p.len() - trailing(p, seps(windows)))
}

/// The last component of the path: what follows its last separator, once
/// trailing separators are set aside.
pub open spec fn last_component(p: Seq<char>, windows: bool) -> Seq<char> {
    let q = without_trailing_seps(p, windows);
    q.skip(q.len() - trailing_not(q, seps(windows)))
}

/// `Path::file_name`: the last component, unless it is empty or `..`.
pub open spec fn file_name(p: Seq<char>, windows: bool) -> Option<Seq<char>> {
    let n = last_component(p, windows);
    if n.len() == 0 || n == ".."@ {
        None
    } else {
        Some(n)
    }
}

/// The extension of a file name: what follows its last `.`, unless there is
/// no `.` or the only one opens the name.
pub open spec fn name_extension(name: Seq<char>) -> Option<Seq<char>> {
    let t = trailing_not(name, CharClass::Exactly('.'));
    if t >= name.len() - 1 {
        None
    } else {
        Some(name.skip(name.len() - t))
    }
}

/// `Path::extension`.
pub open spec fn extension(p: Seq<char>, windows: bool) -> Option<Seq<char>> {
    match file_name(p, windows) {
        None => None,
        Some(n) => name_extension(n),
    }
}

/// Where the file stem of the path ends: before the `.` of its extension,
/// or at the end of its file name.
pub open spec fn stem_end(p: Seq<char>, windows: bool) -> int {
    let q = without_trailing_seps(p, windows);
    let n = last_component(p, windows);
    match name_extension(n) {
        Some(e) => q.len() - e.len() - 1,
        None => q.len() as int,
    }
}

/// `Path::with_extension`: the path up to the end of its file stem, then
/// `.` and the extension when the extension is not empty; a path without a
/// file name stays as it is.
pub open spec fn with_extension(p: Seq<char>, ext: Seq<char>, windows: bool) -> Seq<char> {
    match file_name(p, windows) {
        None => p,
        Some(_) => p.take(stem_end(p, windows)) + if ext.len() == 0 {
            Seq::empty()
        } else {
            seq!['.'] + ext
        },
    }
}

/// The separator that `Path::join` puts in.
pub open spec fn main_sep(windows: bool) -> char {
    if windows {
        '\\'
    } else {
        '/'
    }
}

/// `Path::join` with a relative name: a separator goes between them unless
/// the path is empty or already ends with one.
pub open spec fn join(p: Seq<char>, name: Seq<char>, windows: bool) -> Seq<char> {
    if p.len() > 0 && !(p.last() == '/' || (windows && p.last() == '\\')) {
        p + seq![main_sep(windows)] + name
    } else {
        p + name
    }
}

/// The bounds of the last component: where it starts, and where it ends
/// (the end of the path without trailing separators).
fn component_bounds(p: &Vec<char>, windows: bool) -> (r: (usize, usize))
    ensures
        r.0 <= r.1 <= p.len(),
        r.1 == without_trailing_seps(p@, windows).len(),
        p@.subrange(r.0 as int, r.1 as int) == last_component(p@, windows),
        p@.take(r.1 as int) == without_trailing_seps(p@, windows),
{
    let k = count_back(p, p.len(), CharClass::PathSeparator(windows), true);
    assert(p@.take(p.len() as int) =~= p@);
    let end = p.len() - k;
    let m = count_back(p, end, CharClass::PathSeparator(windows), false);
    let ghost q = without_trailing_seps(p@, windows);
    assert(q =~= p@.take(end as int));
    assert(p@.subrange((end - m) as int, end as int) =~= q.skip(q.len() - m));
    (end - m, end)
}

/// `Path::extension`, computed.
pub fn path_extension(path: &str, windows: bool) -> (r: Option<String>)
    ensures
        match r {
            Some(e) => extension(path@, windows) == Some(e@),
            None => extension(path@, windows) is None,
        },
{
    let p = chars_of(path);
    let (start, end) = component_bounds(&p, windows);
    let name = copy_range(&p, start, end);
    let dotdot = chars_of("..");
    proof {
        reveal_strlit("..");
    }
    if name.len() == 0 || (name.len() == 2 && name[0] == '.' && name[1] == '.') {
        assert(name@ == ".."@ ==> name.len() == 2 && name@[0] == '.' && name@[1] == '.');
        assert(name.len() == 2 && name@[0] == '.' && name@[1] == '.' ==> name@ =~= ".."@);
        return None;
    }
    assert(name@ != ".."@) by {
        if name@ == ".."@ {
            assert(name@[0] == '.' && name@[1] == '.');
        }
    }
    let t = count_back(&name, name.len(), CharClass::Exactly('.'), false);
    assert(name@.take(name.len() as int) =~= name@);
    if t >= name.len() - 1 {
        None
    } else {
        let e = copy_range(&name, name.len() - t, name.len());
        assert(e@ =~= name@.skip(name.len() - t));
        Some(string_of(&e))
    }
}

/// `Path::with_extension`, computed.
pub fn path_with_extension(path: &str, ext: &str, windows: bool) -> (r: String)
    ensures
        r@ == with_extension(path@, ext@, windows),
{
    let p = chars_of(path);
    let (start, end) = component_bounds(&p, windows);
    let name = copy_range(&p, start, end);
    proof {
        reveal_strlit("..");
    }
    let no_name = name.len() == 0 || (name.len() == 2 && name[0] == '.' && name[1] == '.');
    assert(no_name == (file_name(p@, windows) is None)) by {
        if name@ == ".."@ {
            assert(name@[0] == '.' && name@[1] == '.');
        }
        if name.len() == 2 && name@[0] == '.' && name@[1] == '.' {
            assert(name@ =~= ".."@);
        }
    }
    if no_name {
        return string_of(&p);
    }
    let t = count_back(&name, name.len(), CharClass::Exactly('.'), false);
    assert(name@.take(name.len() as int) =~= name@);
    let stem = if t >= name.len() - 1 {
        end
    } else {
        end - t - 1
    };
    assert(stem == stem_end(p@, windows));
    let mut out = copy_range(&p, 0, stem);
    let e = chars_of(ext);
    if e.len() > 0 {
        out.push('.');
        let ghost base = out@;
        for i in 0..e.len()
            invariant
                out@ == base + e@.take(i as int),
        {
            out.push(e[i]);
            assert(out@ =~= base + e@.take(i + 1));
        }
        assert(e@.take(e.len() as int) =~= e@);
    }
    assert(out@ =~= with_extension(path@, ext@, windows));
    string_of(&out)
}

/// `Path::join` with a relative name, computed.
pub fn join_path(path: &str, name: &str, windows: bool) -> (r: String)
    ensures
        r@ == join(path@, name@, windows),
{
    let mut out = chars_of(path);
    let n = chars_of(name);
    if out.len() > 0 && !(out[out.len() - 1] == '/' || (windows && out[out.len() - 1] == '\\')) {
        out.push(if windows { '\\' } else { '/' });
    }
    let ghost base = out@;
    for i in 0..n.len()
        invariant
            out@ == base + n@.take(i as int),
    {
        out.push(n[i]);
        assert(out@ =~= base + n@.take(i + 1));
    }
    assert(n@.take(n.len() as int) =~= n@);
    assert(out@ =~= join(path@, name@, windows));
    string_of(&out)
}

/// Characters outside `cls` at the end add to the run outside it.
proof fn lemma_trailing_not_append(x: Seq<char>, y: Seq<char>, cls: CharClass)
    requires
        forall|k: int| 0 <= k < y.len() ==> !in_class(#[trigger] y[k], cls),
    ensures
        trailing_not(x + y, cls) == trailing_not(x, cls) + y.len(),
    decreases y.len(),
{
    if y.len() == 0 {
        assert(x + y =~= x);
    } else {
        let z = x + y;
        assert(z.last() == y.last());
        assert(z.drop_last() =~= x + y.drop_last());
        lemma_trailing_not_append(x, y.drop_last(), cls);
    }
}

/// Removing the extension of `<base>.<ext>` gives back `<base>`, whatever
/// `base` holds (dots included), when `ext` is a non-empty extension (no
/// `.` or separator in it) and `base` does not end with a separator.
pub proof fn law_without_extension(base: Seq<char>, ext: Seq<char>, windows: bool)
    requires
        base.len() > 0,
        !in_class(base.last(), seps(windows)),
        ext.len() > 0,
        forall|k: int| 0 <= k < ext.len() ==> #[trigger] ext[k] != '.' && !in_class(ext[k], seps(windows)),
    ensures
        with_extension(base + seq!['.'] + ext, Seq::empty(), windows) == base,
        extension(base + seq!['.'] + ext, windows) == Some(ext),
{
    let cls = seps(windows);
    let dot = seq!['.'] + ext;
    let p = base + dot;
    assert(base + seq!['.'] + ext =~= p);
    assert forall|k: int| 0 <= k < dot.len() implies !in_class(#[trigger] dot[k], cls) by {
        if k > 0 {
            assert(dot[k] == ext[k - 1]);
        }
    }
    assert(p.last() == ext.last());
    assert(ext.last() == ext[ext.len() - 1]);
    assert(trailing(p, cls) == 0);
    assert(p.take(p.len() as int) =~= p);
    assert(without_trailing_seps(p, windows) == p);
    lemma_trailing_not_append(base, dot, cls);
    assert(trailing_not(base, cls) >= 1);
    let m = trailing_not(p, cls);
    lemma_trailing_not_bound(p, cls);
    let n = last_component(p, windows);
    assert(n == p.skip(p.len() - m));
    assert(n.len() == m);
    assert(n.len() >= ext.len() + 2);
    assert forall|j: int| n.len() - ext.len() <= j < n.len() implies !in_class(
        #[trigger] n[j],
        CharClass::Exactly('.'),
    ) by {
        assert(n[j] == p[p.len() - m + j]);
        assert(p[p.len() - m + j] == ext[j - (n.len() - ext.len())]);
    }
    assert(n[n.len() - ext.len() - 1] == p[p.len() - ext.len() - 1]);
    assert(p[p.len() - ext.len() - 1] == '.');
    lemma_trailing_not_is(n, CharClass::Exactly('.'), ext.len() as int);
    assert(n.skip(n.len() - ext.len()) =~= ext) by {
        assert forall|j: int| 0 <= j < ext.len() implies n.skip(n.len() - ext.len())[j] == ext[j] by {
            assert(n[n.len() - ext.len() + j] == p[p.len() - m + n.len() - ext.len() + j]);
        }
    }
    assert(name_extension(n) == Some(ext));
    assert(n.len() >= 3);
    assert(n != ".."@) by {
        reveal_strlit("..");
    }
    assert(file_name(p, windows) == Some(n));
    assert(stem_end(p, windows) == base.len());
    assert(p.take(base.len() as int) =~= base);
    assert(p.take(base.len() as int) + Seq::<char>::empty() =~= base);
}

} // verus!

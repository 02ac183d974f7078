//! Finding the Android SDK tools in directory listings: the first file whose
//! name starts with a given prefix, and the newest build-tools directory.
use vstd::prelude::*;
use crate::text::{chars_of, starts_with, starts_with_vec};

verus! {

/// One entry of a directory listing.
pub struct Entry {
    /// The file name.
    pub name: String,
    /// Whether the entry is a regular file.
    pub is_file: bool,
}

/// The entry is a file whose name starts with `prefix`.
pub open spec fn is_tool(e: Entry, prefix: Seq<char>) -> bool {
    e.is_file && starts_with(e.name@, prefix)
}

/// The position of the first entry, in listing order, that is a file whose
/// name starts with `prefix`; `None` when there is none.
pub fn first_tool(entries: &Vec<Entry>, prefix: &str) -> (r: Option<usize>)
    ensures
        match r {
            Some(i) => {
                &&& i < entries.len()
                &&& is_tool(entries@[i as int], prefix@)
                &&& forall|j: int| 0 <= j < i ==> !is_tool(#[trigger] entries@[j], prefix@)
            },
            None => forall|j: int| 0 <= j < entries.len() ==> !is_tool(#[trigger] entries@[j], prefix@),
        },
{
    let p = chars_of(prefix);
    for i in 0..entries.len()
        invariant
            p@ == prefix@,
            forall|j: int| 0 <= j < i ==> !is_tool(#[trigger] entries@[j], prefix@),
    {
        let name = chars_of(entries[i].name.as_str());
        if entries[i].is_file && starts_with_vec(&name, &p) {
            return Some(i);
        }
    }
    None
}

/// `a` comes strictly before `b` in code-point order (the order of their
/// UTF-8 bytes, which is how sibling paths compare).
pub open spec fn lex_lt(a: Seq<char>, b: Seq<char>) -> bool
    decreases a.len(),
{
    if a.len() == 0 {
        b.len() > 0
    } else if b.len() == 0 {
        false
    } else if a[0] != b[0] {
        (a[0] as u32) < (b[0] as u32)
    } else {
        lex_lt(a.drop_first(), b.drop_first())
    }
}

pub proof fn lemma_lex_irreflexive(a: Seq<char>)
    ensures
        !lex_lt(a, a),
    decreases a.len(),
{
    if a.len() > 0 {
        lemma_lex_irreflexive(a.drop_first());
    }
}

pub proof fn lemma_lex_transitive(a: Seq<char>, b: Seq<char>, c: Seq<char>)
    requires
        lex_lt(a, b),
        lex_lt(b, c),
    ensures
        lex_lt(a, c),
    decreases a.len(),
{
    if a.len() > 0 && b.len() > 0 && c.len() > 0 {
        if a[0] == b[0] && b[0] == c[0] {
            lemma_lex_transitive(a.drop_first(), b.drop_first(), c.drop_first());
        }
    }
}

pub proof fn lemma_lex_total(a: Seq<char>, b: Seq<char>)
    ensures
        a == b || lex_lt(a, b) || lex_lt(b, a),
    decreases a.len(),
{
    if a.len() > 0 && b.len() > 0 {
        if a[0] == b[0] {
            lemma_lex_total(a.drop_first(), b.drop_first());
            if a.drop_first() == b.drop_first() {
                assert(a =~= seq![a[0]] + a.drop_first());
                assert(b =~= seq![b[0]] + b.drop_first());
            }
        } else {
            vstd::utf8::char_u32_cast(a[0], a[0] as u32);
            vstd::utf8::char_u32_cast(b[0], b[0] as u32);
        }
    } else if a.len() == 0 && b.len() == 0 {
        assert(a =~= b);
    }
}

fn lex_lt_vec(a: &Vec<char>, b: &Vec<char>) -> (r: bool)
    ensures
        r == lex_lt(a@, b@),
{
    let mut k: usize = 0;
    assert(a@.skip(0) =~= a@);
    assert(b@.skip(0) =~= b@);
    while k < a.len() && k < b.len() && a[k] == b[k]
        invariant
            k <= a.len(),
            k <= b.len(),
            lex_lt(a@, b@) == lex_lt(a@.skip(k as int), b@.skip(k as int)),
        decreases a.len() - k,
    {
        assert(a@.skip(k as int).drop_first() =~= a@.skip(k + 1));
        assert(b@.skip(k as int).drop_first() =~= b@.skip(k + 1));
        k = k + 1;
    }
    if k == a.len() {
        k < b.len()
    } else if k == b.len() {
        false
    } else {
        (a[k] as u32) < (b[k] as u32)
    }
}

/// The position of the greatest name in code-point order, the last one
/// among equals (`Iterator::max` over sibling paths); `None` for no names.
pub fn latest(names: &Vec<String>) -> (r: Option<usize>)
    ensures
        names.len() == 0 <==> r is None,
        r matches Some(i) ==> {
            &&& i < names.len()
            &&& forall|j: int| 0 <= j < names.len() ==> !lex_lt(names@[i as int]@, #[trigger] names@[j]@)
            &&& forall|j: int| i < j < names.len() ==> lex_lt(#[trigger] names@[j]@, names@[i as int]@)
        },
{
    if names.len() == 0 {
        return None;
    }
    let mut best: usize = 0;
    let mut best_chars = chars_of(names[0].as_str());
    proof {
        lemma_lex_irreflexive(names@[0]@);
    }
    for i in 1..names.len()
        invariant
            best < i <= names.len(),
            best_chars@ == names@[best as int]@,
            forall|j: int| 0 <= j < i ==> !lex_lt(names@[best as int]@, #[trigger] names@[j]@),
            forall|j: int| best < j < i ==> lex_lt(#[trigger] names@[j]@, names@[best as int]@),
    {
        let cur = chars_of(names[i].as_str());
        if !lex_lt_vec(&cur, &best_chars) {
            proof {
                let ob = names@[best as int]@;
                let c = names@[i as int]@;
                lemma_lex_irreflexive(c);
                assert forall|j: int| 0 <= j < i + 1 implies !lex_lt(c, #[trigger] names@[j]@) by {
                    if j < i && lex_lt(c, names@[j]@) {
                        lemma_lex_total(ob, c);
                        if ob == c {
                        } else if lex_lt(ob, c) {
                            lemma_lex_transitive(ob, c, names@[j]@);
                        }
                    }
                }
            }
            best = i;
            best_chars = cur;
        } else {
            proof {
                let c = names@[i as int]@;
                lemma_lex_total(c, names@[best as int]@);
                if lex_lt(names@[best as int]@, c) {
                    lemma_lex_transitive(c, names@[best as int]@, c);
                    lemma_lex_irreflexive(c);
                }
            }
        }
    }
    Some(best)
}

/// A tool is any file whose name begins with the prefix: the name may go
/// on after it (`adb.exe` for `adb`, `apksigner.jar` for `apksigner`), and
/// a directory never counts.
pub proof fn law_tool_is_file_named_with_prefix(e: Entry, prefix: Seq<char>)
    ensures
        is_tool(e, prefix) <==> (e.is_file && prefix.len() <= e.name@.len()
            && e.name@.subrange(0, prefix.len() as int) == prefix),
{
}

/// A file named by the prefix followed by anything is a tool for it.
pub proof fn law_tool_name_may_go_on(e: Entry, prefix: Seq<char>, rest: Seq<char>)
    requires
        e.is_file,
        e.name@ == prefix + rest,
    ensures
        is_tool(e, prefix),
{
    assert(e.name@.subrange(0, prefix.len() as int) =~= prefix);
}

} // verus!

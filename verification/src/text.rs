//! Character-level text handling: trimming, splitting, searching and
//! decimal numbers, each stated over `Seq<char>` the way the standard
//! library's `str` methods behave.
use vstd::prelude::*;

verus! {

/// Unicode `White_Space`: the characters for which `char::is_whitespace` holds.
pub open spec fn is_ws(c: char) -> bool {
    let u = c as u32;
    ||| 0x09 <= u <= 0x0d
    ||| u == 0x20
    ||| u == 0x85
    ||| u == 0xa0
    ||| u == 0x1680
    ||| 0x2000 <= u <= 0x200a
    ||| u == 0x2028
    ||| u == 0x2029
    ||| u == 0x202f
    ||| u == 0x205f
    ||| u == 0x3000
}

/// A set of characters that a trim or a split works with.
#[derive(Clone, Copy, Debug, PartialEq, Eq)]
pub enum CharClass {
    /// Unicode white space.
    Whitespace,
    /// One given character.
    Exactly(char),
    /// The path separators: `/`, and also `\\` on Windows.
    PathSeparator(bool),
}

pub open spec fn in_class(c: char, cls: CharClass) -> bool {
    match cls {
        CharClass::Whitespace => is_ws(c),
        CharClass::Exactly(d) => c == d,
        CharClass::PathSeparator(windows) => c == '/' || (windows && c == '\\'),
    }
}

/// Number of leading characters of `s` that belong to `cls`.
pub open spec fn leading(s: Seq<char>, cls: CharClass) -> nat
    decreases s.len(),
{
    if s.len() > 0 && in_class(s[0], cls) {
        1 + leading(s.drop_first(), cls)
    } else {
        0
    }
}

/// Number of trailing characters of `s` that belong to `cls`.
pub open spec fn trailing(s: Seq<char>, cls: CharClass) -> nat
    decreases s.len(),
{
    if s.len() > 0 && in_class(s.last(), cls) {
        1 + trailing(s.drop_last(), cls)
    } else {
        0
    }
}

/// `s` without its leading characters of `cls` (`str::trim_start_matches`).
pub open spec fn trim_start(s: Seq<char>, cls: CharClass) -> Seq<char> {
    s.skip(leading(s, cls) as int)
}

/// `s` without its trailing characters of `cls` (`str::trim_end_matches`).
pub open spec fn trim_end(s: Seq<char>, cls: CharClass) -> Seq<char> {
    s.take(s.len() - trailing(s, cls))
}

/// `s` without leading and trailing characters of `cls`: `str::trim` for
/// white space, `str::trim_matches(c)` for one character.
pub open spec fn trim(s: Seq<char>, cls: CharClass) -> Seq<char> {
    trim_end(trim_start(s, cls), cls)
}

proof fn lemma_leading_bound(s: Seq<char>, cls: CharClass)
    ensures
        leading(s, cls) <= s.len(),
    decreases s.len(),
{
    if s.len() > 0 && in_class(s[0], cls) {
        lemma_leading_bound(s.drop_first(), cls);
    }
}

pub(crate) proof fn lemma_trailing_bound(s: Seq<char>, cls: CharClass)
    ensures
        trailing(s, cls) <= s.len(),
    decreases s.len(),
{
    if s.len() > 0 && in_class(s.last(), cls) {
        lemma_trailing_bound(s.drop_last(), cls);
    }
}

/// `leading` is the length of the longest prefix inside `cls`.
proof fn lemma_leading_is(s: Seq<char>, cls: CharClass, k: int)
    requires
        0 <= k <= s.len(),
        forall|j: int| 0 <= j < k ==> in_class(#[trigger] s[j], cls),
        k < s.len() ==> !in_class(s[k], cls),
    ensures
        leading(s, cls) == k,
    decreases k,
{
    if k > 0 {
        assert(in_class(s[0], cls));
        let t = s.drop_first();
        assert forall|j: int| 0 <= j < k - 1 implies in_class(#[trigger] t[j], cls) by {
            assert(t[j] == s[j + 1]);
        }
        if k - 1 < t.len() {
            assert(t[k - 1] == s[k]);
        }
        lemma_leading_is(t, cls, k - 1);
    }
}

/// `trailing` is the length of the longest suffix inside `cls`.
pub(crate) proof fn lemma_trailing_is(s: Seq<char>, cls: CharClass, k: int)
    requires
        0 <= k <= s.len(),
        forall|j: int| s.len() - k <= j < s.len() ==> in_class(#[trigger] s[j], cls),
        k < s.len() ==> !in_class(s[s.len() - k - 1], cls),
    ensures
        trailing(s, cls) == k,
    decreases k,
{
    if k > 0 {
        assert(in_class(s[s.len() - 1], cls));
        let t = s.drop_last();
        assert forall|j: int| t.len() - (k - 1) <= j < t.len() implies in_class(
            #[trigger] t[j],
            cls,
        ) by {
            assert(t[j] == s[j]);
        }
        lemma_trailing_is(t, cls, k - 1);
    }
}

pub fn is_ws_char(c: char) -> (b: bool)
    ensures
        b == is_ws(c),
{
    let u = c as u32;
    (0x09 <= u && u <= 0x0d) || u == 0x20 || u == 0x85 || u == 0xa0 || u == 0x1680 || (0x2000
        <= u && u <= 0x200a) || u == 0x2028 || u == 0x2029 || u == 0x202f || u == 0x205f || u
        == 0x3000
}

pub fn in_class_char(c: char, cls: CharClass) -> (b: bool)
    ensures
        b == in_class(c, cls),
{
    match cls {
        CharClass::Whitespace => is_ws_char(c),
        CharClass::Exactly(d) => c == d,
        CharClass::PathSeparator(windows) => c == '/' || (windows && c == '\\'),
    }
}

/// A copy of `s[lo..hi]`.
pub fn copy_range(s: &Vec<char>, lo: usize, hi: usize) -> (r: Vec<char>)
    requires
        lo <= hi <= s.len(),
    ensures
        r@ == s@.subrange(lo as int, hi as int),
{
    let mut r: Vec<char> = Vec::new();
    let mut i = lo;
    while i < hi
        invariant
            lo <= i <= hi <= s.len(),
            r@ == s@.subrange(lo as int, i as int),
        decreases hi - i,
    {
        r.push(s[i]);
        i = i + 1;
        assert(r@ =~= s@.subrange(lo as int, i as int));
    }
    r
}

/// `trim`, computed.
pub fn trim_vec(s: &Vec<char>, cls: CharClass) -> (r: Vec<char>)
    ensures
        r@ == trim(s@, cls),
{
    let n = s.len();
    let mut lo: usize = 0;
    while lo < n && in_class_char(s[lo], cls)
        invariant
            lo <= n == s.len(),
            forall|j: int| 0 <= j < lo ==> in_class(#[trigger] s@[j], cls),
        decreases n - lo,
    {
        lo = lo + 1;
    }
    proof {
        lemma_leading_is(s@, cls, lo as int);
    }
    let ghost t = s@.skip(lo as int);
    let mut hi: usize = n;
    while hi > lo && in_class_char(s[hi - 1], cls)
        invariant
            lo <= hi <= n == s.len(),
            t == s@.skip(lo as int),
            forall|j: int| hi <= j < n ==> in_class(#[trigger] s@[j], cls),
        decreases hi,
    {
        hi = hi - 1;
    }
    proof {
        assert forall|j: int| t.len() - (n - hi) <= j < t.len() implies in_class(
            #[trigger] t[j],
            cls,
        ) by {
            assert(t[j] == s@[j + lo]);
        }
        if n - hi < t.len() {
            assert(t[t.len() - (n - hi) - 1] == s@[hi - 1]);
        }
        lemma_trailing_is(t, cls, (n - hi) as int);
        assert(trim(s@, cls) =~= s@.subrange(lo as int, hi as int));
    }
    copy_range(s, lo, hi)
}


/// A wrapper of `String::push`: afterwards the string holds what it held
/// before, followed by `c`.
#[verifier::external_body]
pub(crate) fn push_char(s: &mut String, c: char)
    ensures
        final(s)@ == old(s)@.push(c),
{
    s.push(c);
}

/// The characters of `s`, in order.
pub fn chars_of(s: &str) -> (v: Vec<char>)
    ensures
        v@ == s@,
{
    let mut v: Vec<char> = Vec::new();
    for c in it: s.chars()
        invariant
            v@ == it.seq().take(it.index() as int),
    {
        v.push(c);
    }
    v
}

/// A `String` holding the characters of `v`.
pub fn string_of(v: &Vec<char>) -> (s: String)
    ensures
        s@ == v@,
{
    let mut s = String::new();
    for i in 0..v.len()
        invariant
            s@ == v@.take(i as int),
    {
        push_char(&mut s, v[i]);
        assert(v@.take(i + 1) == v@.take(i as int).push(v@[i as int]));
    }
    assert(v@.take(v.len() as int) == v@);
    s
}

/// Whether two strings hold the same characters.
pub fn str_eq(a: &str, b: &str) -> (r: bool)
    ensures
        r == (a@ == b@),
{
    let x = chars_of(a);
    let y = chars_of(b);
    if x.len() != y.len() {
        return false;
    }
    let r = occurs_at_vec(&x, &y, 0);
    assert(r ==> x@ =~= y@) by {
        if r {
            assert(x@.subrange(0, y@.len() as int) =~= x@);
        }
    }
    assert(x@ == y@ ==> r) by {
        if x@ == y@ {
            assert(x@.subrange(0, y@.len() as int) =~= x@);
        }
    }
    r
}

/// Number of trailing characters of `s` outside `cls`.
pub open spec fn trailing_not(s: Seq<char>, cls: CharClass) -> nat
    decreases s.len(),
{
    if s.len() > 0 && !in_class(s.last(), cls) {
        1 + trailing_not(s.drop_last(), cls)
    } else {
        0
    }
}

pub(crate) proof fn lemma_trailing_not_bound(s: Seq<char>, cls: CharClass)
    ensures
        trailing_not(s, cls) <= s.len(),
    decreases s.len(),
{
    if s.len() > 0 && !in_class(s.last(), cls) {
        lemma_trailing_not_bound(s.drop_last(), cls);
    }
}

/// `trailing_not` is the length of the longest suffix outside `cls`.
pub(crate) proof fn lemma_trailing_not_is(s: Seq<char>, cls: CharClass, k: int)
    requires
        0 <= k <= s.len(),
        forall|j: int| s.len() - k <= j < s.len() ==> !in_class(#[trigger] s[j], cls),
        k < s.len() ==> in_class(s[s.len() - k - 1], cls),
    ensures
        trailing_not(s, cls) == k,
    decreases k,
{
    if k > 0 {
        assert(!in_class(s[s.len() - 1], cls));
        let t = s.drop_last();
        assert forall|j: int| t.len() - (k - 1) <= j < t.len() implies !in_class(
            #[trigger] t[j],
            cls,
        ) by {
            assert(t[j] == s[j]);
        }
        lemma_trailing_not_is(t, cls, k - 1);
    }
}

/// How many of the first `hi` characters of `s`, counted from position
/// `hi` backwards, belong to `cls` (`inside`) or lie outside it (`!inside`).
pub fn count_back(s: &Vec<char>, hi: usize, cls: CharClass, inside: bool) -> (k: usize)
    requires
        hi <= s.len(),
    ensures
        k <= hi,
        inside ==> k == trailing(s@.take(hi as int), cls),
        !inside ==> k == trailing_not(s@.take(hi as int), cls),
{
    let ghost t = s@.take(hi as int);
    let mut i: usize = hi;
    while i > 0 && in_class_char(s[i - 1], cls) == inside
        invariant
            i <= hi <= s.len(),
            t == s@.take(hi as int),
            forall|j: int| i <= j < hi ==> in_class(#[trigger] s@[j], cls) == inside,
        decreases i,
    {
        i = i - 1;
    }
    proof {
        assert forall|j: int| t.len() - (hi - i) <= j < t.len() implies in_class(#[trigger] t[j], cls)
            == inside by {
            assert(t[j] == s@[j]);
        }
        if hi - i < t.len() {
            assert(t[t.len() - (hi - i) - 1] == s@[i - 1]);
        }
        if inside {
            lemma_trailing_is(t, cls, (hi - i) as int);
        } else {
            lemma_trailing_not_is(t, cls, (hi - i) as int);
        }
    }
    hi - i
}

/// The views of a sequence of character vectors.
pub open spec fn views(vs: Seq<Vec<char>>) -> Seq<Seq<char>> {
    Seq::new(vs.len(), |i: int| vs[i]@)
}

/// The views of a sequence of strings.
pub open spec fn string_views(vs: Seq<String>) -> Seq<Seq<char>> {
    Seq::new(vs.len(), |i: int| vs[i]@)
}

/// The pieces of `s` between the characters of `cls`, empty pieces included:
/// `str::split` with a character or with `char::is_whitespace`.
pub open spec fn split(s: Seq<char>, cls: CharClass) -> Seq<Seq<char>>
    decreases s.len(),
{
    if s.len() == 0 {
        seq![Seq::<char>::empty()]
    } else {
        let r = split(s.drop_last(), cls);
        if in_class(s.last(), cls) {
            r.push(Seq::<char>::empty())
        } else {
            r.update(r.len() - 1, r.last().push(s.last()))
        }
    }
}

/// The non-empty members of `ps`, in order.
pub open spec fn nonempty(ps: Seq<Seq<char>>) -> Seq<Seq<char>>
    decreases ps.len(),
{
    if ps.len() == 0 {
        ps
    } else {
        let r = nonempty(ps.drop_last());
        if ps.last().len() > 0 {
            r.push(ps.last())
        } else {
            r
        }
    }
}

/// The words of `s`: `str::split_whitespace`.
pub open spec fn words(s: Seq<char>) -> Seq<Seq<char>> {
    nonempty(split(s, CharClass::Whitespace))
}

pub(crate) proof fn lemma_split_len(s: Seq<char>, cls: CharClass)
    ensures
        split(s, cls).len() >= 1,
    decreases s.len(),
{
    if s.len() > 0 {
        lemma_split_len(s.drop_last(), cls);
    }
}

/// `split`, computed.
pub fn split_vec(s: &Vec<char>, cls: CharClass) -> (r: Vec<Vec<char>>)
    ensures
        views(r@) == split(s@, cls),
{
    let mut out: Vec<Vec<char>> = Vec::new();
    let mut cur: Vec<char> = Vec::new();
    assert(s@.take(0) =~= Seq::<char>::empty());
    assert(views(out@).push(cur@) =~= split(s@.take(0), cls));
    for i in 0..s.len()
        invariant
            views(out@).push(cur@) == split(s@.take(i as int), cls),
    {
        let c = s[i];
        let ghost pre = s@.take(i as int);
        assert(s@.take(i + 1).drop_last() =~= pre);
        assert(s@.take(i + 1).last() == c);
        if in_class_char(c, cls) {
            let done = cur;
            out.push(done);
            cur = Vec::new();
            assert(views(out@).push(cur@) =~= split(pre, cls).push(Seq::<char>::empty()));
        } else {
            let ghost before = views(out@);
            cur.push(c);
            assert(views(out@) == before);
            assert(views(out@).push(cur@) =~= split(pre, cls).update(
                split(pre, cls).len() - 1,
                split(pre, cls).last().push(c),
            ));
        }
    }
    assert(s@.take(s.len() as int) =~= s@);
    out.push(cur);
    assert(views(out@) =~= split(s@, cls));
    out
}

/// `nonempty`, computed.
pub fn nonempty_vec(ps: &Vec<Vec<char>>) -> (r: Vec<Vec<char>>)
    ensures
        views(r@) == nonempty(views(ps@)),
{
    let mut out: Vec<Vec<char>> = Vec::new();
    let ghost all = views(ps@);
    assert(views(out@) =~= nonempty(all.take(0)));
    for i in 0..ps.len()
        invariant
            all == views(ps@),
            views(out@) == nonempty(all.take(i as int)),
    {
        assert(all.take(i + 1).drop_last() =~= all.take(i as int));
        assert(all[i as int] == ps@[i as int]@);
        if ps[i].len() > 0 {
            let p = copy_range(&ps[i], 0, ps[i].len());
            assert(p@ =~= ps@[i as int]@);
            out.push(p);
            assert(views(out@) =~= nonempty(all.take(i as int)).push(all[i as int]));
        }
    }
    assert(all.take(ps.len() as int) =~= all);
    out
}

/// `words`, computed.
pub fn words_vec(s: &Vec<char>) -> (r: Vec<Vec<char>>)
    ensures
        views(r@) == words(s@),
{
    let pieces = split_vec(s, CharClass::Whitespace);
    nonempty_vec(&pieces)
}


/// `p` occurs in `s` at position `i`.
pub open spec fn occurs_at(s: Seq<char>, p: Seq<char>, i: int) -> bool {
    0 <= i && i + p.len() <= s.len() && s.subrange(i, i + p.len()) == p
}

/// `str::starts_with`.
pub open spec fn starts_with(s: Seq<char>, p: Seq<char>) -> bool {
    occurs_at(s, p, 0)
}

/// `str::ends_with`.
pub open spec fn ends_with(s: Seq<char>, p: Seq<char>) -> bool {
    occurs_at(s, p, s.len() - p.len())
}

/// `str::contains` with a string pattern.
pub open spec fn contains(s: Seq<char>, p: Seq<char>) -> bool {
    exists|i: int| occurs_at(s, p, i)
}

/// `occurs_at`, computed.
pub fn occurs_at_vec(s: &Vec<char>, p: &Vec<char>, i: usize) -> (b: bool)
    ensures
        b == occurs_at(s@, p@, i as int),
{
    if i > s.len() || p.len() > s.len() - i {
        return false;
    }
    let mut k: usize = 0;
    while k < p.len()
        invariant
            i + p.len() <= s.len(),
            k <= p.len(),
            forall|j: int| 0 <= j < k ==> s@[i + j] == p@[j],
        decreases p.len() - k,
    {
        if s[i + k] != p[k] {
            assert(s@.subrange(i as int, i + p.len())[k as int] != p@[k as int]);
            return false;
        }
        k = k + 1;
    }
    assert(s@.subrange(i as int, i + p.len()) =~= p@);
    true
}

pub fn starts_with_vec(s: &Vec<char>, p: &Vec<char>) -> (b: bool)
    ensures
        b == starts_with(s@, p@),
{
    occurs_at_vec(s, p, 0)
}

pub fn ends_with_vec(s: &Vec<char>, p: &Vec<char>) -> (b: bool)
    ensures
        b == ends_with(s@, p@),
{
    if p.len() > s.len() {
        false
    } else {
        occurs_at_vec(s, p, s.len() - p.len())
    }
}

pub fn contains_vec(s: &Vec<char>, p: &Vec<char>) -> (b: bool)
    ensures
        b == contains(s@, p@),
{
    for i in 0..s.len()
        invariant
            forall|j: int| 0 <= j < i ==> !occurs_at(s@, p@, j),
    {
        if occurs_at_vec(s, p, i) {
            return true;
        }
    }
    if occurs_at_vec(s, p, s.len()) {
        return true;
    }
    assert forall|j: int| !occurs_at(s@, p@, j) by {
        if 0 <= j && j < s.len() {
        }
    }
    false
}

/// `str::replace` with a non-empty pattern: the occurrences of `pat`,
/// found left to right without overlap, each replaced by `rep`.
pub open spec fn replace_all(s: Seq<char>, pat: Seq<char>, rep: Seq<char>) -> Seq<char>
    decreases s.len(),
{
    if pat.len() == 0 || s.len() == 0 {
        s
    } else if starts_with(s, pat) {
        rep + replace_all(s.skip(pat.len() as int), pat, rep)
    } else {
        seq![s[0]] + replace_all(s.drop_first(), pat, rep)
    }
}

/// `replace_all`, computed.
pub fn replace_all_vec(s: &Vec<char>, pat: &Vec<char>, rep: &Vec<char>) -> (r: Vec<char>)
    requires
        pat.len() > 0,
    ensures
        r@ == replace_all(s@, pat@, rep@),
{
    let n = s.len();
    let mut out: Vec<char> = Vec::new();
    let mut i: usize = 0;
    assert(s@.skip(0) =~= s@);
    while i < n
        invariant
            n == s.len(),
            i <= n,
            pat.len() > 0,
            out@ + replace_all(s@.skip(i as int), pat@, rep@) == replace_all(s@, pat@, rep@),
        decreases n - i,
    {
        let ghost t = s@.skip(i as int);
        if occurs_at_vec(s, pat, i) {
            assert(t.subrange(0, pat@.len() as int) =~= s@.subrange(i as int, i + pat@.len()));
            assert(t.skip(pat@.len() as int) =~= s@.skip(i + pat@.len()));
            let ghost old_out = out@;
            let mut k: usize = 0;
            while k < rep.len()
                invariant
                    k <= rep.len(),
                    out@ == old_out + rep@.take(k as int),
                decreases rep.len() - k,
            {
                out.push(rep[k]);
                k = k + 1;
                assert(out@ =~= old_out + rep@.take(k as int));
            }
            assert(rep@.take(rep.len() as int) =~= rep@);
            assert(out@ + replace_all(s@.skip(i + pat@.len()), pat@, rep@) =~= old_out + (rep@
                + replace_all(t.skip(pat@.len() as int), pat@, rep@)));
            i = i + pat.len();
        } else {
            assert(!starts_with(t, pat@)) by {
                if starts_with(t, pat@) {
                    assert(t.subrange(0, pat@.len() as int) =~= s@.subrange(
                        i as int,
                        i + pat@.len(),
                    ));
                }
            }
            assert(t.drop_first() =~= s@.skip(i + 1));
            let ghost old_out = out@;
            out.push(s[i]);
            assert(out@ + replace_all(s@.skip(i + 1), pat@, rep@) =~= old_out + (seq![t[0]]
                + replace_all(t.drop_first(), pat@, rep@)));
            i = i + 1;
        }
    }
    assert(s@.skip(n as int) =~= Seq::<char>::empty());
    assert(out@ + Seq::<char>::empty() =~= out@);
    out
}

/// ASCII lower-casing of one character, as a code point.
pub open spec fn ascii_lower(c: char) -> u32 {
    if 0x41 <= (c as u32) <= 0x5a {
        ((c as u32) + 0x20) as u32
    } else {
        c as u32
    }
}

/// `str::eq_ignore_ascii_case`.
pub open spec fn eq_ignore_ascii_case(a: Seq<char>, b: Seq<char>) -> bool {
    &&& a.len() == b.len()
    &&& forall|i: int| 0 <= i < a.len() ==> ascii_lower(#[trigger] a[i]) == ascii_lower(b[i])
}

fn ascii_lower_char(c: char) -> (u: u32)
    ensures
        u == ascii_lower(c),
{
    let v = c as u32;
    if 0x41 <= v && v <= 0x5a {
        v + 0x20
    } else {
        v
    }
}

pub fn eq_ignore_ascii_case_vec(a: &Vec<char>, b: &Vec<char>) -> (r: bool)
    ensures
        r == eq_ignore_ascii_case(a@, b@),
{
    if a.len() != b.len() {
        return false;
    }
    for i in 0..a.len()
        invariant
            a.len() == b.len(),
            forall|j: int| 0 <= j < i ==> ascii_lower(#[trigger] a@[j]) == ascii_lower(b@[j]),
    {
        if ascii_lower_char(a[i]) != ascii_lower_char(b[i]) {
            return false;
        }
    }
    true
}

/// An ASCII decimal digit.
pub open spec fn is_digit(c: char) -> bool {
    0x30 <= (c as u32) <= 0x39
}

pub open spec fn digit_value(c: char) -> nat {
    ((c as u32) - 0x30) as nat
}

/// The number that the digits `s` denote in base ten.
pub open spec fn decimal_value(s: Seq<char>) -> nat
    decreases s.len(),
{
    if s.len() == 0 {
        0
    } else {
        decimal_value(s.drop_last()) * 10 + digit_value(s.last())
    }
}

pub open spec fn all_digits(s: Seq<char>) -> bool {
    forall|i: int| 0 <= i < s.len() ==> is_digit(#[trigger] s[i])
}

/// `str::parse::<u32>`: an optional `+`, then one or more ASCII digits whose
/// value fits in a `u32`; anything else is refused.
pub open spec fn parse_u32(s: Seq<char>) -> Option<u32> {
    let digits = if s.len() > 0 && s[0] == '+' {
        s.drop_first()
    } else {
        s
    };
    if digits.len() > 0 && all_digits(digits) && decimal_value(digits) <= u32::MAX {
        Some(decimal_value(digits) as u32)
    } else {
        None
    }
}

/// The digits of a prefix never denote more than the digits of the whole.
proof fn lemma_decimal_prefix_le(s: Seq<char>, k: int)
    requires
        0 <= k <= s.len(),
        all_digits(s),
    ensures
        decimal_value(s.take(k)) <= decimal_value(s),
    decreases s.len() - k,
{
    if k < s.len() {
        lemma_decimal_prefix_le(s, k + 1);
        assert(s.take(k + 1).drop_last() =~= s.take(k));
        assert(is_digit(s[k]));
    } else {
        assert(s.take(k) =~= s);
    }
}

/// `parse_u32`, computed.
pub fn parse_u32_vec(s: &Vec<char>) -> (r: Option<u32>)
    ensures
        r == parse_u32(s@),
{
    let n = s.len();
    let start: usize = if n > 0 && s[0] == '+' { 1 } else { 0 };
    let ghost digits = if s@.len() > 0 && s@[0] == '+' {
        s@.drop_first()
    } else {
        s@
    };
    assert(digits =~= s@.skip(start as int));
    if start >= n {
        return None;
    }
    let mut value: u64 = 0;
    let mut i: usize = start;
    assert(digits.take(0) =~= Seq::<char>::empty());
    while i < n
        invariant
            start <= i <= n == s.len(),
            digits == s@.skip(start as int),
            digits == (if s@.len() > 0 && s@[0] == '+' {
                s@.drop_first()
            } else {
                s@
            }),
            digits.len() > 0,
            all_digits(digits.take(i - start)),
            value == decimal_value(digits.take(i - start)),
            value <= u32::MAX,
        decreases n - i,
    {
        let c = s[i];
        let u = c as u32;
        if !(0x30 <= u && u <= 0x39) {
            assert(digits[i - start] == c);
            assert(!is_digit(digits[i - start]));
            return None;
        }
        assert(digits.take(i - start + 1).drop_last() =~= digits.take(i - start));
        assert(digits.take(i - start + 1).last() == c);
        assert(digit_value(c) == u - 0x30);
        value = value * 10 + (u - 0x30) as u64;
        i = i + 1;
        assert(value == decimal_value(digits.take(i - start)));
        assert(all_digits(digits.take(i - start))) by {
            assert forall|j: int| 0 <= j < i - start implies is_digit(
                #[trigger] digits.take(i - start)[j],
            ) by {
                if j < i - start - 1 {
                    assert(digits.take(i - start)[j] == digits.take(i - start - 1)[j]);
                }
            }
        }
        if value > 0xffff_ffff {
            proof {
                if all_digits(digits) {
                    lemma_decimal_prefix_le(digits, i - start);
                }
            }
            return None;
        }
    }
    assert(digits.take(n - start) =~= digits);
    Some(value as u32)
}

/// The decimal digits of `n`, without leading zeros (`u32::to_string`).
pub open spec fn decimal(n: nat) -> Seq<char>
    decreases n,
{
    if n < 10 {
        seq![(n + 0x30) as char]
    } else {
        decimal(n / 10).push(((n % 10) + 0x30) as char)
    }
}

fn push_decimal(out: &mut Vec<char>, n: u32)
    ensures
        final(out)@ == old(out)@ + decimal(n as nat),
    decreases n,
{
    if n >= 10 {
        push_decimal(out, n / 10);
    }
    let d = (n % 10) as u8 + 0x30u8;
    out.push(d as char);
    proof {
        assert((d as char) == (((n % 10) + 0x30) as char));
    }
    assert(final(out)@ =~= old(out)@ + decimal(n as nat));
}

/// `decimal`, computed.
pub fn decimal_vec(n: u32) -> (r: Vec<char>)
    ensures
        r@ == decimal(n as nat),
{
    let mut out: Vec<char> = Vec::new();
    push_decimal(&mut out, n);
    assert(out@ =~= decimal(n as nat));
    out
}

/// The characters of `parts`, one after another (`join("")`).
pub open spec fn concat(parts: Seq<Seq<char>>) -> Seq<char>
    decreases parts.len(),
{
    if parts.len() == 0 {
        Seq::<char>::empty()
    } else {
        concat(parts.drop_last()) + parts.last()
    }
}

/// Reading back what `decimal` writes gives the number again: the process id
/// that `adblog` prints is the one it read.
pub proof fn law_decimal_parses_back(n: u32)
    ensures
        parse_u32(decimal(n as nat)) == Some(n),
{
    lemma_decimal_digits(n as nat);
}

proof fn lemma_decimal_digits(n: nat)
    ensures
        decimal(n).len() > 0,
        all_digits(decimal(n)),
        decimal_value(decimal(n)) == n,
        decimal(n)[0] != '+',
    decreases n,
{
    if n < 10 {
        let c = (n + 0x30) as char;
        assert(decimal(n) == seq![c]);
        assert((c as u32) == n + 0x30);
        assert(decimal(n).drop_last() =~= Seq::<char>::empty());
        assert(decimal(n).last() == c);
        assert(decimal_value(decimal(n)) == decimal_value(Seq::<char>::empty()) * 10 + digit_value(c));
    } else {
        lemma_decimal_digits(n / 10);
        let d = decimal(n / 10);
        let c = ((n % 10) + 0x30) as char;
        assert((c as u32) == (n % 10) + 0x30);
        assert(decimal(n).drop_last() =~= d);
        assert forall|i: int| 0 <= i < decimal(n).len() implies is_digit(#[trigger] decimal(n)[i]) by {
            if i < d.len() {
                assert(decimal(n)[i] == d[i]);
            }
        }
        assert(decimal(n)[0] == d[0]);
        assert(decimal(n).last() == c);
        assert(digit_value(c) == n % 10);
        assert(decimal_value(decimal(n)) == decimal_value(d) * 10 + digit_value(c));
        assert(n == (n / 10) * 10 + n % 10);
    }
}

/// Replacing a pattern that does not occur changes nothing.
pub proof fn law_replace_without_match(s: Seq<char>, pat: Seq<char>, rep: Seq<char>)
    requires
        !contains(s, pat),
    ensures
        replace_all(s, pat, rep) == s,
    decreases s.len(),
{
    if pat.len() == 0 || s.len() == 0 {
    } else {
        assert(!occurs_at(s, pat, 0));
        let t = s.drop_first();
        assert(!contains(t, pat)) by {
            if contains(t, pat) {
                let i = choose|i: int| occurs_at(t, pat, i);
                assert(s.subrange(i + 1, i + 1 + pat.len()) =~= t.subrange(i, i + pat.len()));
                assert(occurs_at(s, pat, i + 1));
            }
        }
        law_replace_without_match(t, pat, rep);
        assert(seq![s[0]] + t =~= s);
    }
}

proof fn lemma_leading_zero_trim(s: Seq<char>, cls: CharClass)
    ensures
        leading(trim_start(s, cls), cls) == 0,
    decreases s.len(),
{
    if s.len() > 0 && in_class(s[0], cls) {
        lemma_leading_zero_trim(s.drop_first(), cls);
        lemma_leading_bound(s.drop_first(), cls);
        assert(trim_start(s, cls) =~= trim_start(s.drop_first(), cls));
    } else {
        assert(trim_start(s, cls) =~= s);
    }
}

proof fn lemma_trailing_zero_trim(s: Seq<char>, cls: CharClass)
    ensures
        trailing(trim_end(s, cls), cls) == 0,
    decreases s.len(),
{
    if s.len() > 0 && in_class(s.last(), cls) {
        lemma_trailing_zero_trim(s.drop_last(), cls);
        lemma_trailing_bound(s.drop_last(), cls);
        assert(trim_end(s, cls) =~= trim_end(s.drop_last(), cls));
    } else {
        assert(trim_end(s, cls) =~= s);
    }
}

/// Trimming what is already trimmed changes nothing.
pub proof fn law_trim_idempotent(s: Seq<char>, cls: CharClass)
    ensures
        trim(trim(s, cls), cls) == trim(s, cls),
{
    let a = trim_start(s, cls);
    let t = trim_end(a, cls);
    lemma_leading_zero_trim(s, cls);
    lemma_trailing_zero_trim(a, cls);
    lemma_leading_bound(s, cls);
    lemma_trailing_bound(a, cls);
    // no leading characters of `cls` survive in `t`, a prefix of `a`
    if t.len() > 0 {
        assert(t[0] == a[0]);
        assert(!in_class(a[0], cls));
    }
    assert(leading(t, cls) == 0);
    assert(trim_start(t, cls) =~= t);
    assert(trim_end(t, cls) =~= t);
}

/// The pattern and the replacement share no character.
pub open spec fn disjoint(pat: Seq<char>, rep: Seq<char>) -> bool {
    forall|i: int, j: int| 0 <= i < pat.len() && 0 <= j < rep.len() ==> pat[i] != rep[j]
}

/// A text whose characters are all outside the replacement, found at the
/// start of a replaced text, stood at the start of the original.
proof fn lemma_replaced_prefix(t: Seq<char>, q: Seq<char>, pat: Seq<char>, rep: Seq<char>)
    requires
        pat.len() > 0,
        rep.len() > 0,
        forall|i: int, j: int| 0 <= i < q.len() && 0 <= j < rep.len() ==> q[i] != rep[j],
        starts_with(replace_all(t, pat, rep), q),
    ensures
        starts_with(t, q),
    decreases t.len(),
{
    let r = replace_all(t, pat, rep);
    if q.len() == 0 {
        assert(t.subrange(0, 0) =~= q);
    } else if t.len() == 0 {
    } else if starts_with(t, pat) {
        assert(r[0] == rep[0]);
        assert(r.subrange(0, q.len() as int)[0] == q[0]);
    } else {
        let t1 = t.drop_first();
        let r1 = replace_all(t1, pat, rep);
        assert(r =~= seq![t[0]] + r1);
        let q1 = q.drop_first();
        assert(r.subrange(0, q.len() as int)[0] == q[0]);
        assert(r1.subrange(0, q1.len() as int) =~= r.subrange(1, q.len() as int));
        assert(r.subrange(1, q.len() as int) =~= q1);
        lemma_replaced_prefix(t1, q1, pat, rep);
        assert(t.subrange(0, q.len() as int) =~= seq![t[0]] + t1.subrange(0, q1.len() as int));
        assert(q =~= seq![q[0]] + q1);
    }
}

/// Replacing with a text that shares no character with the pattern leaves
/// no occurrence of the pattern behind.
pub proof fn law_replace_leaves_no_match(s: Seq<char>, pat: Seq<char>, rep: Seq<char>)
    requires
        pat.len() > 0,
        rep.len() > 0,
        disjoint(pat, rep),
    ensures
        !contains(replace_all(s, pat, rep), pat),
    decreases s.len(),
{
    let r = replace_all(s, pat, rep);
    if s.len() == 0 {
        assert forall|i: int| !occurs_at(r, pat, i) by {}
    } else if starts_with(s, pat) {
        let s1 = s.skip(pat.len() as int);
        law_replace_leaves_no_match(s1, pat, rep);
        let r1 = replace_all(s1, pat, rep);
        assert(r =~= rep + r1);
        assert forall|i: int| !occurs_at(r, pat, i) by {
            if occurs_at(r, pat, i) {
                if i < rep.len() {
                    assert(r.subrange(i, i + pat.len())[0] == pat[0]);
                    assert(r[i] == rep[i]);
                } else {
                    assert(r1.subrange(i - rep.len(), i - rep.len() + pat.len()) =~= r.subrange(
                        i,
                        i + pat.len(),
                    ));
                    assert(occurs_at(r1, pat, i - rep.len()));
                }
            }
        }
    } else {
        let s1 = s.drop_first();
        law_replace_leaves_no_match(s1, pat, rep);
        let r1 = replace_all(s1, pat, rep);
        assert(r =~= seq![s[0]] + r1);
        assert forall|i: int| !occurs_at(r, pat, i) by {
            if occurs_at(r, pat, i) {
                if i == 0 {
                    lemma_replaced_prefix(s, pat, pat, rep);
                } else {
                    assert(r1.subrange(i - 1, i - 1 + pat.len()) =~= r.subrange(i, i + pat.len()));
                    assert(occurs_at(r1, pat, i - 1));
                }
            }
        }
    }
}

/// Such a replacement done twice is the same as done once.
pub proof fn law_replace_idempotent(s: Seq<char>, pat: Seq<char>, rep: Seq<char>)
    requires
        pat.len() > 0,
        rep.len() > 0,
        disjoint(pat, rep),
    ensures
        replace_all(replace_all(s, pat, rep), pat, rep) == replace_all(s, pat, rep),
{
    law_replace_leaves_no_match(s, pat, rep);
    law_replace_without_match(replace_all(s, pat, rep), pat, rep);
}

/// `s` holds no character of `cls`.
pub open spec fn lacks(s: Seq<char>, cls: CharClass) -> bool {
    forall|i: int| 0 <= i < s.len() ==> !in_class(#[trigger] s[i], cls)
}

/// A part of a text lacks what the text lacks.
pub proof fn lemma_lacks_part(x: Seq<char>, v: Seq<char>, cls: CharClass)
    requires
        contains(x, v),
        lacks(x, cls),
    ensures
        lacks(v, cls),
{
    let k = choose|k: int| occurs_at(x, v, k);
    assert forall|i: int| 0 <= i < v.len() implies !in_class(#[trigger] v[i], cls) by {
        assert(v[i] == x.subrange(k, k + v.len())[i]);
        assert(x[k + i] == v[i]);
    }
}

/// A part of a part is a part.
pub proof fn lemma_contains_trans(a: Seq<char>, b: Seq<char>, c: Seq<char>)
    requires
        contains(a, b),
        contains(b, c),
    ensures
        contains(a, c),
{
    let i = choose|i: int| occurs_at(a, b, i);
    let j = choose|j: int| occurs_at(b, c, j);
    assert(a.subrange(i + j, i + j + c.len()) =~= b.subrange(j, j + c.len()));
    assert(occurs_at(a, c, i + j));
}

/// A trimmed text is a part of the text.
pub proof fn lemma_trim_part(x: Seq<char>, cls: CharClass)
    ensures
        contains(x, trim(x, cls)),
{
    lemma_leading_bound(x, cls);
    let a = trim_start(x, cls);
    lemma_trailing_bound(a, cls);
    let lo = leading(x, cls) as int;
    assert(trim(x, cls) =~= x.subrange(lo, lo + trim(x, cls).len()));
    assert(occurs_at(x, trim(x, cls), lo));
}

/// Every piece of a split is a part of the text and holds no separator,
/// and the last piece ends the text.
pub proof fn lemma_split_pieces(s: Seq<char>, cls: CharClass)
    ensures
        forall|i: int|
            #![trigger split(s, cls)[i]]
            0 <= i < split(s, cls).len() ==> contains(s, split(s, cls)[i]) && lacks(split(s, cls)[i], cls),
        ends_with(s, split(s, cls).last()),
    decreases s.len(),
{
    lemma_split_len(s, cls);
    if s.len() == 0 {
        assert(occurs_at(s, Seq::<char>::empty(), 0)) by {
            assert(s.subrange(0, 0) =~= Seq::<char>::empty());
        }
    } else {
        let d = s.drop_last();
        lemma_split_pieces(d, cls);
        lemma_split_len(d, cls);
        let r = split(d, cls);
        let p = split(s, cls);
        assert forall|i: int| 0 <= i < r.len() implies contains(s, #[trigger] r[i]) && lacks(r[i], cls) by {
            assert(contains(d, split(d, cls)[i]));
            assert(lacks(split(d, cls)[i], cls));
            let k = choose|k: int| occurs_at(d, r[i], k);
            assert(s.subrange(k, k + r[i].len()) =~= d.subrange(k, k + r[i].len()));
            assert(occurs_at(s, r[i], k));
        }
        if in_class(s.last(), cls) {
            assert(occurs_at(s, Seq::<char>::empty(), s.len() as int)) by {
                assert(s.subrange(s.len() as int, s.len() as int) =~= Seq::<char>::empty());
            }
            assert forall|i: int| 0 <= i < p.len() implies #[trigger] contains(s, p[i]) && lacks(p[i], cls) by {
                if i < r.len() {
                    assert(p[i] == r[i]);
                    assert(contains(s, r[i]) && lacks(r[i], cls));
                }
            }
        } else {
            assert(contains(d, r[r.len() - 1]) && lacks(r[r.len() - 1], cls));
            let l = r.last().push(s.last());
            assert(p[p.len() - 1] == l);
            let k = d.len() - r.last().len();
            assert(occurs_at(d, r.last(), k));
            assert(s.subrange(k, s.len() as int) =~= l);
            assert(occurs_at(s, l, k));
            assert(lacks(l, cls)) by {
                assert forall|j: int| 0 <= j < l.len() implies !in_class(#[trigger] l[j], cls) by {
                    if j < l.len() - 1 {
                        assert(l[j] == r.last()[j]);
                        assert(lacks(r[r.len() - 1], cls));
                    }
                }
            }
            assert forall|i: int| 0 <= i < p.len() implies #[trigger] contains(s, p[i]) && lacks(p[i], cls) by {
                if i < r.len() - 1 {
                    assert(p[i] == r[i]);
                    assert(contains(s, r[i]) && lacks(r[i], cls));
                }
            }
        }
    }
}

} // verus!

//! Reading the output of `aapt2 dump badging`: the line that names the
//! package, the line that names the launchable activity, and the values
//! of `key='value'` pairs in such a line.
use vstd::prelude::*;
use vstd::string::StringSliceAdditionalSpecFns;
use vstd::utf8::{decode_utf8, encode_utf8, is_char_boundary};
use crate::text::{
    contains, in_class, lacks, lemma_contains_trans, lemma_lacks_part, lemma_split_len,
    lemma_split_pieces, lemma_trim_part, occurs_at,
    chars_of, copy_range, law_trim_idempotent, occurs_at_vec, split, split_vec, starts_with,
    starts_with_vec, string_of, string_views, trim, trim_start, trim_vec, views, CharClass,
};

verus! {

broadcast use vstd::utf8::encode_utf8_decode_utf8;

/// The characters whose UTF-8 encoding is the encoding of `s` from byte `n` on
/// (what `&s[n..]` holds).
pub open spec fn chars_from_byte(s: Seq<char>, n: int) -> Seq<char> {
    decode_utf8(encode_utf8(s).subrange(n, encode_utf8(s).len() as int))
}

/// `&s[n..]` is defined: byte `n` is a character boundary of `s`.
pub open spec fn byte_split_ok(s: Seq<char>, n: int) -> bool {
    is_char_boundary(encode_utf8(s), n)
}

/// A piece `k=v` whose key, without quotes and white space, is `key`:
/// the value without quotes and white space.
pub open spec fn pair_value(piece: Seq<char>, key: Seq<char>) -> Option<Seq<char>> {
    let kv = split(trim(piece, CharClass::Whitespace), CharClass::Exactly('='));
    if kv.len() == 2 && trim(trim(kv[0], CharClass::Exactly('\'')), CharClass::Whitespace) == key {
        Some(trim(trim(kv[1], CharClass::Exactly('\'')), CharClass::Whitespace))
    } else {
        None
    }
}

/// The value of the first piece that holds `key`, or nothing.
pub open spec fn first_value(pieces: Seq<Seq<char>>, key: Seq<char>) -> Seq<char>
    decreases pieces.len(),
{
    if pieces.len() == 0 {
        Seq::<char>::empty()
    } else {
        match pair_value(pieces[0], key) {
            Some(v) => v,
            None => first_value(pieces.drop_first(), key),
        }
    }
}

/// The value of `key` among the space-separated pairs of `text`.
pub open spec fn value_by_key(text: Seq<char>, key: Seq<char>) -> Seq<char> {
    first_value(split(text, CharClass::Exactly(' ')), key)
}

fn pair_value_vec(piece: &Vec<char>, key: &Vec<char>) -> (r: Option<Vec<char>>)
    ensures
        match r {
            Some(v) => pair_value(piece@, key@) == Some(v@),
            None => pair_value(piece@, key@) is None,
        },
{
    let t = trim_vec(piece, CharClass::Whitespace);
    let kv = split_vec(&t, CharClass::Exactly('='));
    if kv.len() == 2 {
        let k0 = trim_vec(&kv[0], CharClass::Exactly('\''));
        let k = trim_vec(&k0, CharClass::Whitespace);
        assert(kv@[0]@ == views(kv@)[0]);
        assert(kv@[1]@ == views(kv@)[1]);
        if k.len() == key.len() && occurs_at_vec(&k, key, 0) {
            assert(k@ =~= key@);
            let v0 = trim_vec(&kv[1], CharClass::Exactly('\''));
            let v = trim_vec(&v0, CharClass::Whitespace);
            return Some(v);
        }
        assert(k@ != key@) by {
            if k@ == key@ {
                assert(k@.subrange(0, key@.len() as int) =~= k@);
            }
        }
    }
    None
}

/// The value of `key` in an `aapt2 dump badging` line that starts with
/// `prefix` and one more byte: the line from byte `prefix.len() + 1` on is
/// split at spaces into `k=v` pieces, and the value of the first piece whose
/// key is `key` comes back, without quotes and surrounding white space;
/// without such a piece, the empty string.
pub fn get_value_by_key(src: &str, prefix: &str, key: &str) -> (value: String)
    requires
        prefix.spec_bytes().len() < usize::MAX,
        byte_split_ok(src@, (prefix.spec_bytes().len() + 1) as int),
    ensures
        value@ == value_by_key(
            chars_from_byte(src@, (prefix.spec_bytes().len() + 1) as int),
            key@,
        ),
{
    let (_, rest) = src.split_at(prefix.len() + 1);
    let ghost n = (prefix.spec_bytes().len() + 1) as int;
    proof {
        assert(rest.spec_bytes() == encode_utf8(rest@));
        assert(decode_utf8(encode_utf8(rest@)) == rest@);
        assert(chars_from_byte(src@, n) == rest@);
    }
    let text = chars_of(rest);
    let key_chars = chars_of(key);
    let pieces = split_vec(&text, CharClass::Exactly(' '));
    let ghost all = views(pieces@);
    assert(all.skip(0) =~= all);
    let mut i: usize = 0;
    let mut found: Option<Vec<char>> = None;
    while i < pieces.len() && found.is_none()
        invariant
            i <= pieces.len(),
            all == views(pieces@),
            match found {
                Some(v) => first_value(all, key_chars@) == v@,
                None => first_value(all, key_chars@) == first_value(
                    all.skip(i as int),
                    key_chars@,
                ),
            },
        decreases pieces.len() - i,
    {
        let ghost rest_pieces = all.skip(i as int);
        assert(rest_pieces[0] == pieces@[i as int]@);
        assert(rest_pieces.drop_first() =~= all.skip(i + 1));
        found = pair_value_vec(&pieces[i], &key_chars);
        i = i + 1;
    }
    let value = match found {
        Some(v) => string_of(&v),
        None => {
            assert(all.skip(i as int).len() == 0);
            String::new()
        },
    };
    assert(value@ == first_value(all, key_chars@));
    value
}

/// The tag that opens the line naming the package.
pub open spec fn package_tag() -> Seq<char> {
    "package:"@
}

/// The tag that opens the line naming the launchable activity.
pub open spec fn activity_tag() -> Seq<char> {
    "launchable-activity:"@
}

/// Walks the lines of `aapt2 dump badging`, keeping the last line seen that
/// starts with the package tag and the last that starts with the activity
/// tag, and stops as soon as both are non-empty.
pub open spec fn scan_badging(
    lines: Seq<Seq<char>>,
    pkg: Seq<char>,
    act: Seq<char>,
) -> (Seq<char>, Seq<char>)
    decreases lines.len(),
{
    if lines.len() == 0 {
        (pkg, act)
    } else {
        let l = lines[0];
        let p = if starts_with(l, package_tag()) {
            l
        } else {
            pkg
        };
        let a = if starts_with(l, activity_tag()) {
            l
        } else {
            act
        };
        if p.len() > 0 && a.len() > 0 {
            (p, a)
        } else {
            scan_badging(lines.drop_first(), p, a)
        }
    }
}

/// The package line and the launchable-activity line of `aapt2 dump badging`
/// output (each empty when missing).
pub fn launch_lines(lines: &Vec<String>) -> (r: (String, String))
    ensures
        (r.0@, r.1@) == scan_badging(string_views(lines@), Seq::empty(), Seq::empty()),
{
    let ptag = chars_of("package:");
    let atag = chars_of("launchable-activity:");
    let ghost all = string_views(lines@);
    let mut pkg: Vec<char> = Vec::new();
    let mut act: Vec<char> = Vec::new();
    let mut i: usize = 0;
    let mut done = false;
    assert(all.skip(0) =~= all);
    while i < lines.len() && !done
        invariant
            i <= lines.len(),
            all == string_views(lines@),
            ptag@ == package_tag(),
            atag@ == activity_tag(),
            done ==> scan_badging(all, Seq::empty(), Seq::empty()) == (pkg@, act@),
            !done ==> scan_badging(all, Seq::empty(), Seq::empty()) == scan_badging(
                all.skip(i as int),
                pkg@,
                act@,
            ),
        decreases lines.len() - i,
    {
        let l = chars_of(lines[i].as_str());
        let ghost rest = all.skip(i as int);
        assert(rest[0] == l@);
        assert(rest.drop_first() =~= all.skip(i + 1));
        if starts_with_vec(&l, &ptag) {
            pkg = copy_range(&l, 0, l.len());
            assert(pkg@ =~= l@);
        }
        if starts_with_vec(&l, &atag) {
            act = copy_range(&l, 0, l.len());
            assert(act@ =~= l@);
        }
        if pkg.len() > 0 && act.len() > 0 {
            done = true;
        }
        i = i + 1;
    }
    proof {
        if !done {
            assert(all.skip(i as int).len() == 0);
        }
    }
    (string_of(&pkg), string_of(&act))
}

/// Whether `&s[n..]` is defined for `s`: the test that `get_value_by_key`
/// asks of its callers.
pub fn byte_split_at_ok(s: &str, n: usize) -> (b: bool)
    ensures
        b == byte_split_ok(s@, n as int),
{
    s.is_char_boundary(n)
}

/// The value that `get_value_by_key` gives has no white space at either end.
pub proof fn law_value_is_trimmed(text: Seq<char>, key: Seq<char>)
    ensures
        trim(value_by_key(text, key), CharClass::Whitespace) == value_by_key(text, key),
{
    lemma_first_value_trimmed(split(text, CharClass::Exactly(' ')), key);
}

proof fn lemma_first_value_trimmed(pieces: Seq<Seq<char>>, key: Seq<char>)
    ensures
        trim(first_value(pieces, key), CharClass::Whitespace) == first_value(pieces, key),
    decreases pieces.len(),
{
    if pieces.len() == 0 {
        let e = Seq::<char>::empty();
        assert(trim_start(e, CharClass::Whitespace) =~= e);
        assert(trim(e, CharClass::Whitespace) =~= e);
    } else {
        match pair_value(pieces[0], key) {
            Some(v) => {
                let kv = split(trim(pieces[0], CharClass::Whitespace), CharClass::Exactly('='));
                law_trim_idempotent(trim(kv[1], CharClass::Exactly('\'')), CharClass::Whitespace);
            },
            None => {
                lemma_first_value_trimmed(pieces.drop_first(), key);
            },
        }
    }
}

proof fn lemma_encode_concat(a: Seq<char>, b: Seq<char>)
    ensures
        encode_utf8(a + b) == encode_utf8(a) + encode_utf8(b),
    decreases a.len(),
{
    if a.len() == 0 {
        assert(a + b =~= b);
        assert(encode_utf8(a) + encode_utf8(b) =~= encode_utf8(b));
    } else {
        lemma_encode_concat(a.drop_first(), b);
        assert((a + b).drop_first() =~= a.drop_first() + b);
        assert((a + b)[0] == a[0]);
        assert(encode_utf8(a + b) =~= encode_utf8(a) + encode_utf8(b));
    }
}

/// Cutting `s + u` at a boundary byte `n` of `s` gives what cutting `s`
/// gives, followed by `u`.
proof fn lemma_chars_from_byte_concat(src: Seq<char>, n: int, u: Seq<char>)
    requires
        byte_split_ok(src, n),
    ensures
        chars_from_byte(src + u, n) == chars_from_byte(src, n) + u,
{
    let e = encode_utf8(src);
    vstd::utf8::encode_utf8_valid_utf8(src);
    vstd::utf8::valid_utf8_split(e, n);
    vstd::utf8::is_char_boundary_start_end_of_seq(e);
    let x = e.subrange(n, e.len() as int);
    let y = decode_utf8(x);
    vstd::utf8::decode_utf8_encode_utf8(x);
    lemma_encode_concat(src, u);
    lemma_encode_concat(y, u);
    lemma_char_boundary_le_len(e, n);
    assert((e + encode_utf8(u)).subrange(n, (e + encode_utf8(u)).len() as int) =~= x
        + encode_utf8(u));
    assert(chars_from_byte(src + u, n) == decode_utf8(encode_utf8(y + u)));
}

proof fn lemma_char_boundary_le_len(bytes: Seq<u8>, n: int)
    requires
        vstd::utf8::valid_utf8(bytes),
        is_char_boundary(bytes, n),
    ensures
        0 <= n <= bytes.len(),
    decreases bytes.len(),
{
    if n != 0 && 0 <= n <= bytes.len() {
    } else if n != 0 {
        assert(!is_char_boundary(bytes, n));
    }
}

/// Whether some piece of `pieces` holds `key`.
pub open spec fn key_found(pieces: Seq<Seq<char>>, key: Seq<char>) -> bool {
    exists|i: int| 0 <= i < pieces.len() && pair_value(#[trigger] pieces[i], key) is Some
}

proof fn lemma_first_value_concat(a: Seq<Seq<char>>, b: Seq<Seq<char>>, key: Seq<char>)
    ensures
        first_value(a + b, key) == if key_found(a, key) {
            first_value(a, key)
        } else {
            first_value(b, key)
        },
    decreases a.len(),
{
    if a.len() == 0 {
        assert(a + b =~= b);
    } else {
        lemma_first_value_concat(a.drop_first(), b, key);
        assert((a + b).drop_first() =~= a.drop_first() + b);
        assert((a + b)[0] == a[0]);
        if pair_value(a[0], key) is None {
            assert(key_found(a, key) == key_found(a.drop_first(), key)) by {
                if key_found(a, key) {
                    let i = choose|i: int| 0 <= i < a.len() && pair_value(#[trigger] a[i], key) is Some;
                    assert(a.drop_first()[i - 1] == a[i]);
                }
                if key_found(a.drop_first(), key) {
                    let i = choose|i: int| 0 <= i < a.drop_first().len() && pair_value(#[trigger] a.drop_first()[i], key) is Some;
                    assert(a[i + 1] == a.drop_first()[i]);
                }
            }
        } else {
            assert(key_found(a, key));
        }
    }
}

proof fn lemma_first_value_empty_when_not_found(a: Seq<Seq<char>>, key: Seq<char>)
    requires
        !key_found(a, key),
    ensures
        first_value(a, key).len() == 0,
    decreases a.len(),
{
    if a.len() > 0 {
        assert(pair_value(a[0], key) is None);
        assert(!key_found(a.drop_first(), key)) by {
            if key_found(a.drop_first(), key) {
                let i = choose|i: int| 0 <= i < a.drop_first().len() && pair_value(#[trigger] a.drop_first()[i], key) is Some;
                assert(a[i + 1] == a.drop_first()[i]);
            }
        }
        lemma_first_value_empty_when_not_found(a.drop_first(), key);
    }
}

proof fn lemma_split_append(s: Seq<char>, t: Seq<char>, c: char)
    ensures
        split(s + seq![c] + t, CharClass::Exactly(c)) == split(s, CharClass::Exactly(c)) + split(
            t,
            CharClass::Exactly(c),
        ),
    decreases t.len(),
{
    let cls = CharClass::Exactly(c);
    if t.len() == 0 {
        assert(s + seq![c] + t =~= s + seq![c]);
        assert((s + seq![c]).drop_last() =~= s);
        assert(split(t, cls) =~= seq![Seq::<char>::empty()]);
    } else {
        lemma_split_append(s, t.drop_last(), c);
        assert((s + seq![c] + t).drop_last() =~= s + seq![c] + t.drop_last());
        assert((s + seq![c] + t).last() == t.last());
        lemma_split_len(t.drop_last(), cls);
        let r = split(t.drop_last(), cls);
        let l = split(s, cls);
        if !in_class(t.last(), cls) {
            assert((l + r).update((l + r).len() - 1, (l + r).last().push(t.last())) =~= l + r.update(
                r.len() - 1,
                r.last().push(t.last()),
            ));
        } else {
            assert((l + r).push(Seq::<char>::empty()) =~= l + r.push(Seq::<char>::empty()));
        }
    }
}

/// A pair appended after the pairs of a line never overrides a value
/// already found in it: the first matching pair wins.
pub proof fn law_later_pairs_do_not_override(src: Seq<char>, n: int, t: Seq<char>, key: Seq<char>)
    requires
        byte_split_ok(src, n),
        value_by_key(chars_from_byte(src, n), key).len() > 0,
    ensures
        value_by_key(chars_from_byte(src + seq![' '] + t, n), key) == value_by_key(
            chars_from_byte(src, n),
            key,
        ),
{
    let tail = chars_from_byte(src, n);
    assert(src + seq![' '] + t =~= src + (seq![' '] + t));
    lemma_chars_from_byte_concat(src, n, seq![' '] + t);
    assert(tail + (seq![' '] + t) =~= tail + seq![' '] + t);
    lemma_split_append(tail, t, ' ');
    let a = split(tail, CharClass::Exactly(' '));
    let b = split(t, CharClass::Exactly(' '));
    lemma_first_value_concat(a, b, key);
    if !key_found(a, key) {
        lemma_first_value_empty_when_not_found(a, key);
    }
}

/// What a pair with the key gives, and the key it is read under: parts of
/// the piece, without spaces, `=` or surrounding white space.
proof fn lemma_pair_parts(text: Seq<char>, piece: Seq<char>)
    requires
        contains(text, piece),
        lacks(piece, CharClass::Exactly(' ')),
    ensures
        ({
            let kv = split(trim(piece, CharClass::Whitespace), CharClass::Exactly('='));
            kv.len() == 2 ==> forall|j: int| 0 <= j < 2 ==> {
                let x = #[trigger] trim(trim(kv[j], CharClass::Exactly('\'')), CharClass::Whitespace);
                &&& contains(text, x)
                &&& lacks(x, CharClass::Exactly(' '))
                &&& lacks(x, CharClass::Exactly('='))
                &&& trim(x, CharClass::Whitespace) == x
            }
        }),
{
    let tp = trim(piece, CharClass::Whitespace);
    let kv = split(tp, CharClass::Exactly('='));
    lemma_trim_part(piece, CharClass::Whitespace);
    lemma_contains_trans(text, piece, tp);
    lemma_lacks_part(piece, tp, CharClass::Exactly(' '));
    lemma_split_pieces(tp, CharClass::Exactly('='));
    if kv.len() == 2 {
        assert forall|j: int| 0 <= j < 2 implies {
            let x = #[trigger] trim(trim(kv[j], CharClass::Exactly('\'')), CharClass::Whitespace);
            &&& contains(text, x)
            &&& lacks(x, CharClass::Exactly(' '))
            &&& lacks(x, CharClass::Exactly('='))
            &&& trim(x, CharClass::Whitespace) == x
        } by {
            let y = trim(kv[j], CharClass::Exactly('\''));
            let x = trim(y, CharClass::Whitespace);
            assert(contains(tp, kv[j]) && lacks(kv[j], CharClass::Exactly('=')));
            lemma_trim_part(kv[j], CharClass::Exactly('\''));
            lemma_trim_part(y, CharClass::Whitespace);
            lemma_contains_trans(kv[j], y, x);
            lemma_contains_trans(tp, kv[j], x);
            lemma_contains_trans(text, tp, x);
            lemma_lacks_part(tp, x, CharClass::Exactly(' '));
            lemma_lacks_part(kv[j], x, CharClass::Exactly('='));
            law_trim_idempotent(y, CharClass::Whitespace);
        }
    }
}

proof fn lemma_empty_shape(text: Seq<char>)
    ensures
        contains(text, Seq::<char>::empty()),
        trim(Seq::<char>::empty(), CharClass::Whitespace) == Seq::<char>::empty(),
{
    assert(text.subrange(0, 0) =~= Seq::<char>::empty());
    assert(occurs_at(text, Seq::<char>::empty(), 0));
    let e = Seq::<char>::empty();
    assert(trim_start(e, CharClass::Whitespace) =~= e);
    assert(trim(e, CharClass::Whitespace) =~= e);
}

proof fn lemma_first_value_shape(text: Seq<char>, pieces: Seq<Seq<char>>, key: Seq<char>)
    requires
        forall|i: int|
            #![trigger pieces[i]]
            0 <= i < pieces.len() ==> contains(text, pieces[i]) && lacks(pieces[i], CharClass::Exactly(' ')),
    ensures
        ({
            let v = first_value(pieces, key);
            &&& contains(text, v)
            &&& lacks(v, CharClass::Exactly(' '))
            &&& lacks(v, CharClass::Exactly('='))
            &&& trim(v, CharClass::Whitespace) == v
        }),
    decreases pieces.len(),
{
    if pieces.len() == 0 {
        lemma_empty_shape(text);
    } else {
        assert(contains(text, pieces[0]) && lacks(pieces[0], CharClass::Exactly(' ')));
        match pair_value(pieces[0], key) {
            Some(v) => {
                lemma_pair_parts(text, pieces[0]);
                let kv = split(trim(pieces[0], CharClass::Whitespace), CharClass::Exactly('='));
                assert(v == trim(trim(kv[1], CharClass::Exactly('\'')), CharClass::Whitespace));
            },
            None => {
                let rest = pieces.drop_first();
                assert forall|i: int| 0 <= i < rest.len() implies contains(text, #[trigger] rest[i])
                    && lacks(rest[i], CharClass::Exactly(' ')) by {
                    assert(rest[i] == pieces[i + 1]);
                    assert(contains(text, pieces[i + 1]));
                }
                lemma_first_value_shape(text, rest, key);
            },
        }
    }
}

/// The value that `get_value_by_key` gives holds no space and no `=`, has
/// no white space at either end, and stands in the text it was read from.
pub proof fn law_value_shape(text: Seq<char>, key: Seq<char>)
    ensures
        ({
            let v = value_by_key(text, key);
            &&& lacks(v, CharClass::Exactly(' '))
            &&& lacks(v, CharClass::Exactly('='))
            &&& trim(v, CharClass::Whitespace) == v
            &&& contains(text, v)
        }),
{
    lemma_split_pieces(text, CharClass::Exactly(' '));
    lemma_first_value_shape(text, split(text, CharClass::Exactly(' ')), key);
}

/// A key with a space, an `=` or white space at either end matches no pair,
/// so its value is empty.
pub proof fn law_odd_key_has_no_value(text: Seq<char>, key: Seq<char>)
    requires
        !lacks(key, CharClass::Exactly(' ')) || !lacks(key, CharClass::Exactly('='))
            || trim(key, CharClass::Whitespace) != key,
    ensures
        value_by_key(text, key).len() == 0,
{
    let pieces = split(text, CharClass::Exactly(' '));
    lemma_split_pieces(text, CharClass::Exactly(' '));
    assert(!key_found(pieces, key)) by {
        if key_found(pieces, key) {
            let i = choose|i: int| 0 <= i < pieces.len() && pair_value(#[trigger] pieces[i], key) is Some;
            assert(contains(text, pieces[i]) && lacks(pieces[i], CharClass::Exactly(' ')));
            lemma_pair_parts(text, pieces[i]);
            let kv = split(trim(pieces[i], CharClass::Whitespace), CharClass::Exactly('='));
            assert(key == trim(trim(kv[0], CharClass::Exactly('\'')), CharClass::Whitespace));
        }
    }
    lemma_first_value_empty_when_not_found(pieces, key);
}

} // verus!

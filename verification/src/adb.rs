//! What `adblog` reads from `adb`: the device list, the process list, the
//! package list; and the path conversion it applies to its inputs.
use vstd::prelude::*;
use crate::text::{
    chars_of, contains, disjoint, ends_with, ends_with_vec, eq_ignore_ascii_case, eq_ignore_ascii_case_vec,
    law_replace_idempotent, law_replace_without_match, parse_u32, parse_u32_vec, replace_all, replace_all_vec, split,
    split_vec, string_of, string_views, trim, trim_vec, views, words, words_vec, CharClass,
};

verus! {

/// How Cygwin names the `C:` drive.
pub open spec fn cygdrive_prefix() -> Seq<char> {
    "/cygdrive/c"@
}

/// How Windows names it.
pub open spec fn windows_drive() -> Seq<char> {
    "C:"@
}

/// A path as given on a Cygwin command line, made usable by a Windows
/// program: on Windows every `/cygdrive/c` becomes `C:`; elsewhere the path
/// stays as it is.
pub open spec fn windows_form(path: Seq<char>, on_windows: bool) -> Seq<char> {
    if on_windows {
        replace_all(path, cygdrive_prefix(), windows_drive())
    } else {
        path
    }
}

/// `windows_form`, computed.
pub fn cyg_to_win(path: &str, on_windows: bool) -> (r: String)
    ensures
        r@ == windows_form(path@, on_windows),
{
    let p = chars_of(path);
    if on_windows {
        let pat = chars_of("/cygdrive/c");
        let rep = chars_of("C:");
        proof {
            reveal_strlit("/cygdrive/c");
        }
        let r = replace_all_vec(&p, &pat, &rep);
        string_of(&r)
    } else {
        string_of(&p)
    }
}

/// A device attached to adb.
pub struct Device {
    /// The serial that `adb -s` takes.
    pub id: String,
    /// The whole line that `adb devices` printed for it.
    pub info: String,
}

/// The serial named by one line of `adb devices`: a line that is not blank
/// and holds exactly one tab; the serial is what stands before the tab.
pub open spec fn device_serial(line: Seq<char>) -> Option<Seq<char>> {
    let parts = split(line, CharClass::Exactly('\t'));
    if trim(line, CharClass::Whitespace).len() > 0 && parts.len() == 2 {
        Some(parts[0])
    } else {
        None
    }
}

/// The devices listed by the lines of `adb devices`, in order: each serial
/// with its line.
pub open spec fn device_list(lines: Seq<Seq<char>>) -> Seq<(Seq<char>, Seq<char>)>
    decreases lines.len(),
{
    if lines.len() == 0 {
        Seq::empty()
    } else {
        let r = device_list(lines.drop_last());
        match device_serial(lines.last()) {
            Some(id) => r.push((id, lines.last())),
            None => r,
        }
    }
}

pub open spec fn device_views(ds: Seq<Device>) -> Seq<(Seq<char>, Seq<char>)> {
    Seq::new(ds.len(), |i: int| (ds[i].id@, ds[i].info@))
}

/// The devices that the output of `adb devices` lists.
pub fn parse_devices(lines: &Vec<String>) -> (ds: Vec<Device>)
    ensures
        device_views(ds@) == device_list(string_views(lines@)),
{
    let ghost all = string_views(lines@);
    let mut ds: Vec<Device> = Vec::new();
    assert(all.take(0) =~= Seq::<Seq<char>>::empty());
    assert(device_views(ds@) =~= device_list(all.take(0)));
    for i in 0..lines.len()
        invariant
            all == string_views(lines@),
            device_views(ds@) == device_list(all.take(i as int)),
    {
        let l = chars_of(lines[i].as_str());
        assert(all.take(i + 1).drop_last() =~= all.take(i as int));
        assert(all.take(i + 1).last() == l@);
        let t = trim_vec(&l, CharClass::Whitespace);
        let parts = split_vec(&l, CharClass::Exactly('\t'));
        if t.len() > 0 && parts.len() == 2 {
            assert(views(parts@)[0] == parts@[0]@);
            let id = string_of(&parts[0]);
            let info = string_of(&l);
            let ghost before = device_views(ds@);
            ds.push(Device { id, info });
            assert(device_views(ds@) =~= before.push((id@, l@)));
        }
    }
    assert(all.take(lines.len() as int) =~= all);
    ds
}

/// A word of `ps` output names the package: without surrounding single and
/// then double quotes, it equals the package name up to ASCII case.
pub open spec fn names_package(word: Seq<char>, package: Seq<char>) -> bool {
    eq_ignore_ascii_case(
        trim(trim(word, CharClass::Exactly('\'')), CharClass::Exactly('"')),
        package,
    )
}

/// The first of `ws` that reads as a `u32`.
pub open spec fn first_number(ws: Seq<Seq<char>>) -> Option<u32>
    decreases ws.len(),
{
    if ws.len() == 0 {
        None
    } else {
        match parse_u32(ws[0]) {
            Some(n) => Some(n),
            None => first_number(ws.drop_first()),
        }
    }
}

/// The process id that one line of `ps` gives for the package: when a word
/// of the line names the package, the first word that reads as a number;
/// otherwise (or with no such word) 0.
pub open spec fn line_pid(line: Seq<char>, package: Seq<char>) -> u32 {
    let ws = words(line);
    if exists|i: int| 0 <= i < ws.len() && names_package(#[trigger] ws[i], package) {
        match first_number(ws) {
            Some(n) => n,
            None => 0,
        }
    } else {
        0
    }
}

/// The first non-zero process id that the lines of `ps` give, or 0.
pub open spec fn pid_from_lines(lines: Seq<Seq<char>>, package: Seq<char>) -> u32
    decreases lines.len(),
{
    if lines.len() == 0 {
        0
    } else {
        let p = line_pid(lines[0], package);
        if p != 0 {
            p
        } else {
            pid_from_lines(lines.drop_first(), package)
        }
    }
}

fn line_pid_vec(line: &Vec<char>, package: &Vec<char>) -> (p: u32)
    ensures
        p == line_pid(line@, package@),
{
    let ws = words_vec(line);
    let ghost all = views(ws@);
    let mut named = false;
    let mut i: usize = 0;
    while i < ws.len() && !named
        invariant
            i <= ws.len(),
            all == views(ws@),
            named ==> exists|j: int| 0 <= j < all.len() && names_package(#[trigger] all[j], package@),
            !named ==> forall|j: int| 0 <= j < i ==> !names_package(#[trigger] all[j], package@),
        decreases ws.len() - i,
    {
        let a = trim_vec(&ws[i], CharClass::Exactly('\''));
        let b = trim_vec(&a, CharClass::Exactly('"'));
        assert(all[i as int] == ws@[i as int]@);
        if eq_ignore_ascii_case_vec(&b, package) {
            named = true;
        }
        i = i + 1;
    }
    if !named {
        return 0;
    }
    let mut k: usize = 0;
    assert(all.skip(0) =~= all);
    while k < ws.len()
        invariant
            k <= ws.len(),
            all == views(ws@),
            first_number(all) == first_number(all.skip(k as int)),
            line_pid(line@, package@) == match first_number(all) {
                Some(n) => n,
                None => 0u32,
            },
        decreases ws.len() - k,
    {
        assert(all.skip(k as int)[0] == ws@[k as int]@);
        assert(all.skip(k as int).drop_first() =~= all.skip(k + 1));
        match parse_u32_vec(&ws[k]) {
            Some(n) => {
                assert(first_number(all.skip(k as int)) == Some(n));
                return n;
            },
            None => {},
        }
        k = k + 1;
    }
    0
}

/// The process id of `package` in the output of `adb shell ps | grep`: the
/// first line that names the package and carries a non-zero number decides;
/// 0 when no line does.
pub fn pid_from_ps(lines: &Vec<String>, package: &str) -> (p: u32)
    ensures
        p == pid_from_lines(string_views(lines@), package@),
{
    let pkg = chars_of(package);
    let ghost all = string_views(lines@);
    let mut i: usize = 0;
    let mut pid: u32 = 0;
    assert(all.skip(0) =~= all);
    while i < lines.len() && pid == 0
        invariant
            i <= lines.len(),
            all == string_views(lines@),
            pkg@ == package@,
            pid != 0 ==> pid == pid_from_lines(all, package@),
            pid == 0 ==> pid_from_lines(all, package@) == pid_from_lines(all.skip(i as int), package@),
        decreases lines.len() - i,
    {
        let l = chars_of(lines[i].as_str());
        assert(all.skip(i as int)[0] == l@);
        assert(all.skip(i as int).drop_first() =~= all.skip(i + 1));
        pid = line_pid_vec(&l, &pkg);
        i = i + 1;
    }
    proof {
        if pid == 0 {
            assert(all.skip(i as int).len() == 0);
        }
    }
    pid
}

/// Some line of `pm list packages`, without surrounding white space, ends
/// with the package name.
pub open spec fn listed(lines: Seq<Seq<char>>, package: Seq<char>) -> bool {
    exists|i: int| 0 <= i < lines.len() && ends_with(trim(#[trigger] lines[i], CharClass::Whitespace), package)
}

/// Whether the output of `adb shell pm list packages` lists the package.
pub fn is_installed(lines: &Vec<String>, package: &str) -> (b: bool)
    ensures
        b == listed(string_views(lines@), package@),
{
    let pkg = chars_of(package);
    let ghost all = string_views(lines@);
    for i in 0..lines.len()
        invariant
            all == string_views(lines@),
            pkg@ == package@,
            forall|j: int| 0 <= j < i ==> !ends_with(trim(#[trigger] all[j], CharClass::Whitespace), package@),
    {
        let l = chars_of(lines[i].as_str());
        assert(all[i as int] == l@);
        let t = trim_vec(&l, CharClass::Whitespace);
        if ends_with_vec(&t, &pkg) {
            return true;
        }
    }
    false
}

/// How many times `adblog` asks `ps` for the process before it gives up.
pub const PID_QUERIES: u32 = 100;

/// The search for the started app's process id: `ps` is asked again while no
/// id is known and queries are left.
pub struct PidSearch {
    /// Queries still allowed.
    pub remaining: u32,
    /// The id found so far (0: none).
    pub pid: u32,
}

/// What a `PidSearch` wants next.
pub enum PidPoll {
    /// Ask `ps` once more.
    Query,
    /// The search is over, with this id (0: not found).
    Finished(u32),
}

/// A search after a poll, and what the poll answers: a query, which uses
/// one up, while no id is known and queries are left; otherwise the end of
/// the search, unchanged.
pub open spec fn polled(s: PidSearch) -> (PidSearch, PidPoll) {
    if s.pid == 0 && s.remaining > 0 {
        (PidSearch { remaining: (s.remaining - 1) as u32, pid: 0 }, PidPoll::Query)
    } else {
        (s, PidPoll::Finished(s.pid))
    }
}

/// A search after taking in the answer to a query: a failed query changes
/// nothing; a successful one sets the id that its lines give, when they give
/// one.
pub open spec fn observed(s: PidSearch, ok: bool, lines: Seq<Seq<char>>, package: Seq<char>) -> PidSearch {
    let found = pid_from_lines(lines, package);
    PidSearch { remaining: s.remaining, pid: if ok && found != 0 { found } else { s.pid } }
}

impl PidSearch {
    /// A search with every query left and no id yet.
    pub fn new() -> (s: Self)
        ensures
            s.remaining == PID_QUERIES,
            s.pid == 0,
    {
        PidSearch { remaining: PID_QUERIES, pid: 0 }
    }

    /// The next move (see `polled`).
    pub fn poll(&mut self) -> (r: PidPoll)
        ensures
            (*final(self), r) == polled(*old(self)),
    {
        if self.pid == 0 && self.remaining > 0 {
            self.remaining = self.remaining - 1;
            PidPoll::Query
        } else {
            PidPoll::Finished(self.pid)
        }
    }

    /// Takes in the answer to a query (see `observed`).
    pub fn observe(&mut self, ok: bool, lines: &Vec<String>, package: &str)
        ensures
            *final(self) == observed(*old(self), ok, string_views(lines@), package@),
    {
        if ok {
            let p = pid_from_ps(lines, package);
            if p != 0 {
                self.pid = p;
            }
        }
    }
}

/// A path without `/cygdrive/c` comes out of `cyg_to_win` unchanged.
pub proof fn law_cyg_to_win_keeps_plain_paths(path: Seq<char>)
    requires
        !contains(path, cygdrive_prefix()),
    ensures
        replace_all(path, cygdrive_prefix(), windows_drive()) == path,
{
    law_replace_without_match(path, cygdrive_prefix(), windows_drive());
}

/// A process id found in `ps` output comes from a line that names the
/// package, as one of that line's words.
pub proof fn law_pid_comes_from_named_line(lines: Seq<Seq<char>>, package: Seq<char>)
    requires
        pid_from_lines(lines, package) != 0,
    ensures
        exists|i: int|
            0 <= i < lines.len() && {
                let ws = words(#[trigger] lines[i]);
                &&& exists|j: int| 0 <= j < ws.len() && names_package(#[trigger] ws[j], package)
                &&& exists|j: int| 0 <= j < ws.len() && parse_u32(#[trigger] ws[j]) == Some(pid_from_lines(lines, package))
            },
    decreases lines.len(),
{
    let p = line_pid(lines[0], package);
    if p != 0 {
        lemma_first_number_occurs(words(lines[0]));
    } else {
        law_pid_comes_from_named_line(lines.drop_first(), package);
        let i = choose|i: int|
            0 <= i < lines.drop_first().len() && {
                let ws = words(#[trigger] lines.drop_first()[i]);
                &&& exists|j: int| 0 <= j < ws.len() && names_package(#[trigger] ws[j], package)
                &&& exists|j: int| 0 <= j < ws.len() && parse_u32(#[trigger] ws[j]) == Some(pid_from_lines(lines.drop_first(), package))
            };
        assert(lines.drop_first()[i] == lines[i + 1]);
    }
}

proof fn lemma_first_number_occurs(ws: Seq<Seq<char>>)
    ensures
        first_number(ws) matches Some(n) ==> exists|j: int| 0 <= j < ws.len() && parse_u32(#[trigger] ws[j]) == Some(n),
    decreases ws.len(),
{
    if ws.len() > 0 {
        lemma_first_number_occurs(ws.drop_first());
        if parse_u32(ws[0]) is None {
            if let Some(n) = first_number(ws) {
                let j = choose|j: int| 0 <= j < ws.drop_first().len() && parse_u32(#[trigger] ws.drop_first()[j]) == Some(n);
                assert(ws.drop_first()[j] == ws[j + 1]);
            }
        }
    }
}

/// The id that the answer to one query yields: what its lines give when the
/// query succeeded, and 0 otherwise.
pub open spec fn answer_pid(a: (bool, Seq<Seq<char>>), package: Seq<char>) -> u32 {
    if a.0 {
        pid_from_lines(a.1, package)
    } else {
        0
    }
}

/// A search run to its end, each query answered by the next of `answers`:
/// how many queries it made, and the id it ended with.
pub open spec fn run_search(
    s: PidSearch,
    answers: Seq<(bool, Seq<Seq<char>>)>,
    package: Seq<char>,
) -> (nat, u32)
    decreases s.remaining,
{
    let (t, r) = polled(s);
    match r {
        PidPoll::Finished(p) => (0, p),
        PidPoll::Query => {
            let u = observed(t, answers[0].0, answers[0].1, package);
            let (q, p) = run_search(u, answers.drop_first(), package);
            (q + 1, p)
        },
    }
}

proof fn lemma_run_search(r: u32, answers: Seq<(bool, Seq<Seq<char>>)>, package: Seq<char>)
    requires
        answers.len() >= r,
    ensures
        ({
            let (q, pid) = run_search(PidSearch { remaining: r, pid: 0 }, answers, package);
            &&& q <= r
            &&& r > 0 ==> q >= 1
            &&& pid == 0 <==> (q == r && forall|i: int| 0 <= i < r ==> answer_pid(#[trigger] answers[i], package) == 0)
            &&& pid != 0 ==> {
                &&& pid == answer_pid(answers[q - 1], package)
                &&& forall|i: int| 0 <= i < q - 1 ==> answer_pid(#[trigger] answers[i], package) == 0
            }
        }),
    decreases r,
{
    if r > 0 {
        let u = observed(PidSearch { remaining: (r - 1) as u32, pid: 0 }, answers[0].0, answers[0].1, package);
        let rest = answers.drop_first();
        let p0 = answer_pid(answers[0], package);
        assert(u.pid == p0);
        if p0 == 0 {
            lemma_run_search((r - 1) as u32, rest, package);
            assert(u == PidSearch { remaining: (r - 1) as u32, pid: 0 });
            let (q, pid) = run_search(PidSearch { remaining: r, pid: 0 }, answers, package);
            if pid == 0 {
                assert forall|i: int| 0 <= i < r implies answer_pid(#[trigger] answers[i], package) == 0 by {
                    if i > 0 {
                        assert(answers[i] == rest[i - 1]);
                    }
                }
            } else {
                assert forall|i: int| 0 <= i < q - 1 implies answer_pid(#[trigger] answers[i], package) == 0 by {
                    if i > 0 {
                        assert(answers[i] == rest[i - 1]);
                    }
                }
                assert(answers[q - 1] == rest[q - 2]);
            }
            if q == r && forall|i: int| 0 <= i < r ==> answer_pid(#[trigger] answers[i], package) == 0 {
                assert forall|i: int| 0 <= i < r - 1 implies answer_pid(#[trigger] rest[i], package) == 0 by {
                    assert(rest[i] == answers[i + 1]);
                }
            }
        } else {
            let u2 = PidSearch { remaining: (r - 1) as u32, pid: p0 };
            assert(u == u2);
            assert(polled(u2) == (u2, PidPoll::Finished(p0)));
            assert(run_search(u2, rest, package) == (0nat, p0));
        }
    }
}

/// A whole search for the process, each query answered in turn: it makes
/// between 1 and `PID_QUERIES` queries; it ends without an id exactly when
/// all `PID_QUERIES` queries yielded none; otherwise its id is what the last
/// query yielded, every earlier one having yielded none.
pub proof fn law_pid_search_whole(answers: Seq<(bool, Seq<Seq<char>>)>, package: Seq<char>)
    requires
        answers.len() >= PID_QUERIES,
    ensures
        ({
            let (q, pid) = run_search(PidSearch { remaining: PID_QUERIES, pid: 0 }, answers, package);
            &&& 1 <= q <= PID_QUERIES
            &&& pid == 0 <==> (q == PID_QUERIES && forall|i: int| 0 <= i < PID_QUERIES ==> answer_pid(#[trigger] answers[i], package) == 0)
            &&& pid != 0 ==> {
                &&& pid == answer_pid(answers[q - 1], package)
                &&& forall|i: int| 0 <= i < q - 1 ==> answer_pid(#[trigger] answers[i], package) == 0
            }
        }),
{
    lemma_run_search(PID_QUERIES, answers, package);
}

/// Converting a converted path changes nothing: no `/cygdrive/c` survives
/// the conversion or is made by it.
pub proof fn law_cyg_to_win_idempotent(path: Seq<char>, on_windows: bool)
    ensures
        windows_form(windows_form(path, on_windows), on_windows) == windows_form(path, on_windows),
{
    if on_windows {
        reveal_strlit("/cygdrive/c");
        reveal_strlit("C:");
        assert(disjoint(cygdrive_prefix(), windows_drive()));
        law_replace_idempotent(path, cygdrive_prefix(), windows_drive());
    }
}

proof fn lemma_first_number_is_first(ws: Seq<Seq<char>>, j: int)
    requires
        0 <= j < ws.len(),
        parse_u32(ws[j]) is Some,
        forall|i: int| 0 <= i < j ==> parse_u32(#[trigger] ws[i]) is None,
    ensures
        first_number(ws) == parse_u32(ws[j]),
    decreases j,
{
    if j > 0 {
        assert(parse_u32(ws[0]) is None);
        let t = ws.drop_first();
        assert forall|i: int| 0 <= i < j - 1 implies parse_u32(#[trigger] t[i]) is None by {
            assert(t[i] == ws[i + 1]);
        }
        assert(t[j - 1] == ws[j]);
        lemma_first_number_is_first(t, j - 1);
    }
}

proof fn lemma_first_number_none(ws: Seq<Seq<char>>)
    requires
        forall|i: int| 0 <= i < ws.len() ==> parse_u32(#[trigger] ws[i]) is None,
    ensures
        first_number(ws) is None,
    decreases ws.len(),
{
    if ws.len() > 0 {
        assert(parse_u32(ws[0]) is None);
        let t = ws.drop_first();
        assert forall|i: int| 0 <= i < t.len() implies parse_u32(#[trigger] t[i]) is None by {
            assert(t[i] == ws[i + 1]);
        }
        lemma_first_number_none(t);
    }
}

/// On a line of `ps` output that names the package, the process id is the
/// first word, from the left, that reads as a `u32` (the PID column, before
/// the memory sizes); with no such word it is 0. A line that does not name
/// the package gives 0. As the only line, it decides the search's answer.
pub proof fn law_pid_is_first_number_word(line: Seq<char>, package: Seq<char>, j: int)
    ensures
        ({
            let ws = words(line);
            let named = exists|i: int| 0 <= i < ws.len() && names_package(#[trigger] ws[i], package);
            &&& (named && 0 <= j < ws.len() && parse_u32(ws[j]) is Some
                && (forall|i: int| 0 <= i < j ==> parse_u32(#[trigger] ws[i]) is None))
                ==> Some(line_pid(line, package)) == parse_u32(ws[j])
            &&& (forall|i: int| 0 <= i < ws.len() ==> parse_u32(#[trigger] ws[i]) is None)
                ==> line_pid(line, package) == 0
            &&& !named ==> line_pid(line, package) == 0
            &&& pid_from_lines(seq![line], package) == line_pid(line, package)
        }),
{
    let ws = words(line);
    if 0 <= j < ws.len() && parse_u32(ws[j]) is Some
        && (forall|i: int| 0 <= i < j ==> parse_u32(#[trigger] ws[i]) is None) {
        lemma_first_number_is_first(ws, j);
    }
    if forall|i: int| 0 <= i < ws.len() ==> parse_u32(#[trigger] ws[i]) is None {
        lemma_first_number_none(ws);
    }
    let one = seq![line];
    assert(one[0] == line);
    assert(one.drop_first() =~= Seq::<Seq<char>>::empty());
    assert(pid_from_lines(one.drop_first(), package) == 0);
    assert(pid_from_lines(one, package) == line_pid(line, package));
}

/// The package counts as installed when any line of the listing, wherever
/// it stands, ends with its name once trimmed; and only then.
pub proof fn law_listed_by_any_line(lines: Seq<Seq<char>>, package: Seq<char>)
    ensures
        listed(lines, package) <==> exists|i: int|
            0 <= i < lines.len() && {
                let t = trim(#[trigger] lines[i], CharClass::Whitespace);
                &&& package.len() <= t.len()
                &&& t.subrange(t.len() - package.len(), t.len() as int) == package
            },
{
}

/// More lines of listing, before or after, never hide a listed package.
pub proof fn law_listed_grows(a: Seq<Seq<char>>, b: Seq<Seq<char>>, package: Seq<char>)
    requires
        listed(a, package),
    ensures
        listed(a + b, package),
        listed(b + a, package),
{
    let i = choose|i: int| 0 <= i < a.len() && ends_with(trim(#[trigger] a[i], CharClass::Whitespace), package);
    assert((a + b)[i] == a[i]);
    assert((b + a)[b.len() + i] == a[i]);
}

/// Over several lines of `ps` output, the first line (from the top) that
/// gives a non-zero id decides; the answer is 0 exactly when no line gives
/// one.
pub proof fn law_first_line_with_pid_decides(lines: Seq<Seq<char>>, package: Seq<char>, i: int)
    ensures
        (0 <= i < lines.len() && line_pid(lines[i], package) != 0 && (forall|k: int|
            0 <= k < i ==> line_pid(#[trigger] lines[k], package) == 0)) ==> pid_from_lines(lines, package)
            == line_pid(lines[i], package),
        pid_from_lines(lines, package) == 0 <==> forall|k: int|
            0 <= k < lines.len() ==> line_pid(#[trigger] lines[k], package) == 0,
    decreases lines.len(),
{
    if lines.len() > 0 {
        let t = lines.drop_first();
        law_first_line_with_pid_decides(t, package, i - 1);
        assert forall|k: int| 0 <= k < t.len() implies t[k] == lines[k + 1] by {}
        if 0 < i < lines.len() && (forall|k: int| 0 <= k < i ==> line_pid(#[trigger] lines[k], package) == 0) {
            assert(line_pid(lines[0], package) == 0);
            assert(t[i - 1] == lines[i]);
            assert forall|k: int| 0 <= k < i - 1 implies line_pid(#[trigger] t[k], package) == 0 by {
                assert(t[k] == lines[k + 1]);
            }
        }
        if pid_from_lines(lines, package) == 0 {
            assert forall|k: int| 0 <= k < lines.len() implies line_pid(#[trigger] lines[k], package) == 0 by {
                if k > 0 {
                    assert(t[k - 1] == lines[k]);
                }
            }
        }
        if forall|k: int| 0 <= k < lines.len() ==> line_pid(#[trigger] lines[k], package) == 0 {
            assert(line_pid(lines[0], package) == 0);
            assert forall|k: int| 0 <= k < t.len() implies line_pid(#[trigger] t[k], package) == 0 by {
                assert(t[k] == lines[k + 1]);
            }
        }
    }
}

} // verus!

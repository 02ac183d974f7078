//! Turning Cygwin paths into Windows paths with `cygpath`, where it exists.
use vstd::prelude::*;
use crate::cmdline::{command, owned, Command, CommandView, Program};
use crate::text::{chars_of, concat, string_of, string_views, trim, trim_vec, CharClass};

verus! {

/// The command that tells whether `cygpath` is on the path.
pub fn probe_command() -> (c: Command)
    ensures
        c@ == (CommandView {
            work: "cygpath_check"@,
            program: Program::Which,
            args: seq!["cygpath"@],
            require_output: false,
        }),
{
    let args = vec![owned("cygpath")];
    assert(string_views(args@) =~= seq!["cygpath"@]);
    command("cygpath_check", Program::Which, args, false)
}

/// The command that prints the absolute Windows form of `path`.
pub fn convert_command(path: &str) -> (c: Command)
    ensures
        c@ == (CommandView {
            work: "cygpath-convert"@,
            program: Program::Cygpath,
            args: seq!["-wa"@, path@],
            require_output: true,
        }),
{
    let args = vec![owned("-wa"), owned(path)];
    assert(string_views(args@) =~= seq!["-wa"@, path@]);
    command("cygpath-convert", Program::Cygpath, args, true)
}

/// The converted path in what `cygpath` printed: its lines joined, without
/// surrounding white space.
pub fn converted_path(lines: &Vec<String>) -> (r: String)
    ensures
        r@ == trim(concat(string_views(lines@)), CharClass::Whitespace),
{
    let ghost all = string_views(lines@);
    let mut joined: Vec<char> = Vec::new();
    assert(all.take(0) =~= Seq::<Seq<char>>::empty());
    for i in 0..lines.len()
        invariant
            all == string_views(lines@),
            joined@ == concat(all.take(i as int)),
    {
        let l = chars_of(lines[i].as_str());
        let ghost before = joined@;
        for k in 0..l.len()
            invariant
                joined@ == before + l@.take(k as int),
        {
            joined.push(l[k]);
            assert(joined@ =~= before + l@.take(k + 1));
        }
        assert(l@.take(l.len() as int) =~= l@);
        assert(all.take(i + 1).drop_last() =~= all.take(i as int));
        assert(all.take(i + 1).last() == l@);
    }
    assert(all.take(lines.len() as int) =~= all);
    let t = trim_vec(&joined, CharClass::Whitespace);
    string_of(&t)
}

} // verus!

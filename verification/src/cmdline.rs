//! Commands for outside programs, as the library hands them to its caller.
use vstd::prelude::*;
use crate::text::{chars_of, string_of, string_views};

verus! {

/// The program a command runs.
#[derive(Clone, Copy, Debug)]
pub enum Program {
    /// `adb` from the SDK's platform tools.
    Adb,
    /// `aapt2` from the newest build tools.
    Aapt2,
    /// `java`.
    Java,
    /// `which`.
    Which,
    /// `cygpath`.
    Cygpath,
}

/// One run of an outside program.
pub struct Command {
    /// What the run is for, as the log names it.
    pub work: String,
    pub program: Program,
    pub args: Vec<String>,
    /// Whether the lines that it prints are wanted back.
    pub require_output: bool,
}

pub struct CommandView {
    pub work: Seq<char>,
    pub program: Program,
    pub args: Seq<Seq<char>>,
    pub require_output: bool,
}

impl View for Command {
    type V = CommandView;

    open spec fn view(&self) -> CommandView {
        CommandView {
            work: self.work@,
            program: self.program,
            args: string_views(self.args@),
            require_output: self.require_output,
        }
    }
}

/// An owned copy of `s`.
pub fn owned(s: &str) -> (r: String)
    ensures
        r@ == s@,
{
    s.to_owned()
}

/// `a` followed by `b`.
pub fn joined(a: &str, b: &str) -> (r: String)
    ensures
        r@ == a@ + b@,
{
    let mut v = chars_of(a);
    let w = chars_of(b);
    let ghost v0 = v@;
    for i in 0..w.len()
        invariant
            v@ == v0 + w@.take(i as int),
    {
        v.push(w[i]);
        assert(v@ =~= v0 + w@.take(i + 1));
    }
    assert(w@.take(w.len() as int) =~= w@);
    string_of(&v)
}

/// A command from its parts.
pub fn command(work: &str, program: Program, args: Vec<String>, require_output: bool) -> (c: Command)
    ensures
        c@ == (CommandView { work: work@, program, args: string_views(args@), require_output }),
{
    Command { work: owned(work), program, args, require_output }
}

} // verus!

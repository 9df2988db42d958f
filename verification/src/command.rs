//! External commands as plain data: what is to be run, and how a run ended.

use crate::text::views;
use vstd::prelude::*;

verus! {

/// One run of an external program: the program and its arguments, in the
/// order in which they are handed over.
#[derive(Debug, PartialEq, Eq)]
pub struct Invocation {
    pub program: String,
    pub args: Vec<String>,
}

/// An invocation as a program name and a sequence of arguments.
pub struct InvocationView {
    pub program: Seq<char>,
    pub args: Seq<Seq<char>>,
}

impl View for Invocation {
    type V = InvocationView;

    open spec fn view(&self) -> InvocationView {
        InvocationView { program: self.program@, args: views(self.args@) }
    }
}

impl InvocationView {
    /// The invocation of `program` without arguments.
    pub open spec fn bare(program: Seq<char>) -> InvocationView {
        InvocationView { program, args: Seq::empty() }
    }

    /// This invocation with `arg` as one more argument at the end.
    pub open spec fn with_arg(self, arg: Seq<char>) -> InvocationView {
        InvocationView { program: self.program, args: self.args.push(arg) }
    }

    /// This invocation with the arguments of `more` added at the end.
    pub open spec fn with_args(self, more: Seq<Seq<char>>) -> InvocationView {
        InvocationView { program: self.program, args: self.args + more }
    }
}

impl Invocation {
    /// The invocation of `program` without arguments.
    pub fn new(program: &str) -> (inv: Invocation)
        ensures
            inv@ == InvocationView::bare(program@),
    {
        let inv = Invocation { program: program.to_owned(), args: Vec::new() };
        assert(inv@.args =~= Seq::<Seq<char>>::empty());
        inv
    }

    /// Adds `arg` as the last argument.
    pub fn arg(&mut self, arg: &str) -> (chain: &mut Invocation)
        ensures
            chain@ == old(self)@.with_arg(arg@),
            *final(self) == *final(chain),
    {
        self.args.push(arg.to_owned());
        assert(self@.args =~= old(self)@.args.push(arg@));
        self
    }
}

/// How the run of an external program ended.
#[derive(Debug, PartialEq, Eq, Structural, Clone, Copy)]
pub enum Outcome {
    /// The program could not be started.
    NotSpawned,
    /// The program ran and exited with this code.
    Exited(i32),
    /// The program ran and ended without an exit code.
    Killed,
}

impl Outcome {
    /// A run succeeded when the program exited with code zero.
    pub open spec fn success(self) -> bool {
        self == Outcome::Exited(0)
    }

    /// Whether the run succeeded.
    pub fn succeeded(self) -> (r: bool)
        ensures
            r == self.success(),
    {
        match self {
            Outcome::Exited(code) => code == 0,
            _ => false,
        }
    }
}

} // verus!

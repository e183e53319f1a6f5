//! Turning a command line into the program and arguments to run.

use crate::text::{fields, lemma_fields_nonempty, split};
use vstd::prelude::*;

verus! {

/// The program that a command line names: what stands before its first
/// space.
pub open spec fn program_of(command: Seq<char>) -> Seq<char> {
    fields(command, ' ')[0]
}

/// The arguments of a command line: what its remaining spaces cut the rest
/// into. Nothing is quoted or escaped, so two spaces in a row enclose an empty
/// argument.
pub open spec fn arguments_of(command: Seq<char>) -> Seq<Seq<char>> {
    fields(command, ' ').subrange(1, fields(command, ' ').len() as int)
}

/// A program with the arguments to hand to it.
pub struct Invocation {
    pub program: String,
    pub args: Vec<String>,
}

impl Invocation {
    /// Reads a command line: the line is cut at every single space, the first
    /// piece names the program and the others are its arguments.
    pub fn parse(command: &str) -> (invocation: Invocation)
        ensures
            invocation.program@ == program_of(command@),
            invocation.args.deep_view() == arguments_of(command@),
    {
        let mut parts = split(command, ' ');
        let ghost pieces = parts.deep_view();
        let program = parts.remove(0);
        proof {
            assert(parts.deep_view() =~= pieces.subrange(1, pieces.len() as int));
        }
        Invocation { program, args: parts }
    }
}

/// The program and the arguments of a command line are, in this order, the
/// pieces into which its spaces cut it.
pub proof fn lemma_program_and_arguments(command: Seq<char>)
    ensures
        seq![program_of(command)] + arguments_of(command) == fields(command, ' '),
{
    lemma_fields_nonempty(command, ' ');
}

} // verus!

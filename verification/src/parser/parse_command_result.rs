use vstd::prelude::*;
use crate::parser::ast::Command;
use crate::parser::ast::CommandView;

verus! {

/// How the parse of one command ended: with the command and the index behind
/// it, with the index at which to go on after a malformed command, or at the
/// end of the tokens.
#[derive(Debug, PartialEq)]
pub enum ParseCommandResult {
    Valid(Command, usize),
    Invalid(usize),
    EndOfInput,
}

/// The mathematical value of a [`ParseCommandResult`].
pub enum CommandOutcome {
    Valid(CommandView, int),
    Invalid(int),
    EndOfInput,
}

impl DeepView for ParseCommandResult {
    type V = CommandOutcome;

    open spec fn deep_view(&self) -> CommandOutcome {
        match self {
            ParseCommandResult::Valid(command, next) => CommandOutcome::Valid(
                command.deep_view(),
                *next as int,
            ),
            ParseCommandResult::Invalid(next) => CommandOutcome::Invalid(*next as int),
            ParseCommandResult::EndOfInput => CommandOutcome::EndOfInput,
        }
    }
}

impl View for ParseCommandResult {
    type V = CommandOutcome;

    open spec fn view(&self) -> CommandOutcome {
        self.deep_view()
    }
}

} // verus!

use vstd::prelude::*;
use crate::lexer::token::Token;
use crate::parser::ast::Command;
use crate::parser::ast::CommandView;
use crate::parser::ast::EmptyCommand;
use crate::parser::parse_command_result::CommandOutcome;
use crate::parser::parse_command_result::ParseCommandResult;

verus! {

/// The empty command is the `;` alone, which lies before `start_idx`: it
/// takes no token more and never fails.
pub fn parse_empty_command(_tokens: &Vec<Token>, start_idx: usize) -> (result: ParseCommandResult)
    ensures
        result@ == CommandOutcome::Valid(CommandView::Empty, start_idx as int),
{
    return ParseCommandResult::Valid(Command::Empty(EmptyCommand {  }), start_idx);
}

} // verus!

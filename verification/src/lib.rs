use vstd::prelude::*;
use lexer::model::tokens_of;
use lexer::tokenize_postgresql;
use parser::ast::commands_are_well_formed;
use parser::ast::CommandView;
use parser::ast::PostgresqlAbstractSyntaxTree;
use parser::commands_of;
use parser::diagnostics::dropped_commands_of;
use parser::diagnostics::parse_postgresql_tokens_with_diagnostics;
use parser::diagnostics::DroppedCommand;
use parser::parse_postgresql_tokens;

pub mod lexer;
pub mod parser;
pub mod test_utils;
pub mod text;

pub use parser::ast;

verus! {

/// The commands that `text` holds.
pub open spec fn parsed_commands(text: Seq<char>) -> Seq<CommandView> {
    commands_of(tokens_of(text))
}

/// Reads `text` as a list of commands. The function never fails: a command
/// that is malformed is left out of the tree.
pub fn parse_postgresql(text: &str) -> (tree: PostgresqlAbstractSyntaxTree)
    requires
        text@.len() < usize::MAX,
    ensures
        tree@ == parsed_commands(text@),
        commands_are_well_formed(tree@),
{
    let tokens = tokenize_postgresql(text);
    proof {
        lexer::lemmas::lemma_token_count_at_most_char_count(text@, 0);
    }
    return parse_postgresql_tokens(tokens);
}

/// Reads `text` as [`parse_postgresql`] does, and says beside the tree which
/// commands are not in it: where each of them starts, and whether it is
/// malformed or cut short by the end of the text.
pub fn parse_postgresql_with_diagnostics(text: &str) -> (result: (
    PostgresqlAbstractSyntaxTree,
    Vec<DroppedCommand>,
))
    requires
        text@.len() < usize::MAX,
    ensures
        result.0@ == parsed_commands(text@),
        result.1.deep_view() == dropped_commands_of(tokens_of(text@)),
{
    let tokens = tokenize_postgresql(text);
    proof {
        lexer::lemmas::lemma_token_count_at_most_char_count(text@, 0);
    }
    return parse_postgresql_tokens_with_diagnostics(tokens);
}

/// Whether `text` holds at least one command that can be read.
pub fn is_valid_postgresql(text: &str) -> (result: bool)
    requires
        text@.len() < usize::MAX,
    ensures
        result == (parsed_commands(text@).len() > 0),
{
    let ast = parse_postgresql(text);
    return ast.commands.len() > 0;
}

} // verus!

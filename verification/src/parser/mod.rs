use vstd::prelude::*;
use crate::lexer::token::tokens_are_nonempty;
use crate::lexer::token::Token;
use crate::lexer::token::TokenView;
use crate::text::ascii_lowercase;
use crate::text::str_equals;
use ast::commands_are_well_formed;
use ast::CommandView;
use ast::PostgresqlAbstractSyntaxTree;
use commands::empty::parse_empty_command;
use commands::sections::keywords::SELECT_KEYWORD;
use commands::select::lemma_select_command_bounds;
use commands::select::parse_select_command;
use commands::select::select_command;
use parse_command_result::CommandOutcome;
use parse_command_result::ParseCommandResult;
use utils::idx_after_optional_whitespace;
use utils::index_after_next_semicolon;
use utils::index_after_optional_whitespace;
use utils::lemma_index_after_next_semicolon_bounds;
use utils::semicolon;
use utils::skip_invalid_command;

pub mod ast;
pub mod commands;
pub mod diagnostics;
pub mod lemmas;
pub mod parse_command_result;
pub mod utils;

verus! {

/// The command that starts at `start`. One token of whitespace may precede
/// it. Its first token, in lower case, says which command it is: `;` is the
/// empty command, `select` starts a select command; any other token makes
/// the command malformed, and the parse goes on behind the next `;`.
pub open spec fn command_at(tokens: Seq<TokenView>, start: int) -> CommandOutcome {
    let idx = index_after_optional_whitespace(tokens, start);
    if idx < 0 || idx >= tokens.len() {
        CommandOutcome::EndOfInput
    } else if ascii_lowercase(tokens[idx].value) == semicolon() {
        CommandOutcome::Valid(CommandView::Empty, idx + 1)
    } else if ascii_lowercase(tokens[idx].value) == "select"@ {
        select_command(tokens, idx + 1)
    } else {
        CommandOutcome::Invalid(index_after_next_semicolon(tokens, idx))
    }
}

/// The commands of `tokens` from `start` on: those that were read, in order.
/// A malformed command leaves nothing behind; a command that the end of the
/// tokens cuts short ends the list.
pub open spec fn commands_from(tokens: Seq<TokenView>, start: int) -> Seq<CommandView>
    decreases tokens.len() + 1 - start,
    via commands_from_decreases
{
    if start < 0 || start >= tokens.len() {
        Seq::empty()
    } else {
        match command_at(tokens, start) {
            CommandOutcome::Valid(command, next) => seq![command] + commands_from(tokens, next),
            CommandOutcome::Invalid(next) => commands_from(tokens, next),
            CommandOutcome::EndOfInput => Seq::empty(),
        }
    }
}

#[via_fn]
proof fn commands_from_decreases(tokens: Seq<TokenView>, start: int) {
    if 0 <= start {
        lemma_command_at_bounds(tokens, start);
    }
}

/// The commands of `tokens`.
pub open spec fn commands_of(tokens: Seq<TokenView>) -> Seq<CommandView> {
    commands_from(tokens, 0)
}

/// Each command moves the parse forward, at most to one past the end of the
/// tokens.
pub proof fn lemma_command_at_bounds(tokens: Seq<TokenView>, start: int)
    requires
        0 <= start,
    ensures
        match command_at(tokens, start) {
            CommandOutcome::Valid(_, next) => start < next <= tokens.len(),
            CommandOutcome::Invalid(next) => start < next <= tokens.len() + 1,
            CommandOutcome::EndOfInput => true,
        },
{
    let idx = index_after_optional_whitespace(tokens, start);
    lemma_select_command_bounds(tokens, idx + 1);
    lemma_index_after_next_semicolon_bounds(tokens, idx);
}

/// Reads `tokens` command by command and collects the commands that were
/// read.
pub fn parse_postgresql_tokens(tokens: Vec<Token>) -> (tree: PostgresqlAbstractSyntaxTree)
    requires
        tokens_are_nonempty(tokens.deep_view()),
        tokens.len() < usize::MAX,
    ensures
        tree@ == commands_of(tokens.deep_view()),
        commands_are_well_formed(tree@),
{
    proof {
        lemmas::lemma_commands_are_well_formed(tokens.deep_view(), 0);
    }
    let mut tree = PostgresqlAbstractSyntaxTree::new();

    let mut token_idx: usize = 0;
    proof {
        assert(tree@ + commands_from(tokens.deep_view(), 0) =~= commands_of(tokens.deep_view()));
    }
    while token_idx < tokens.len()
        invariant
            tokens_are_nonempty(tokens.deep_view()),
            tokens.len() < usize::MAX,
            commands_are_well_formed(commands_of(tokens.deep_view())),
            tree@ + commands_from(tokens.deep_view(), token_idx as int) == commands_of(
                tokens.deep_view(),
            ),
        decreases tokens.len() + 1 - token_idx,
    {
        proof {
            lemma_command_at_bounds(tokens.deep_view(), token_idx as int);
        }
        let ghost found = tree@;
        match parse_command(&tokens, token_idx) {
            ParseCommandResult::Valid(command, new_idx) => {
                proof {
                    assert(found.push(command@) + commands_from(tokens.deep_view(), new_idx as int)
                        =~= found + commands_from(tokens.deep_view(), token_idx as int));
                }
                tree = tree.push_command(command);
                token_idx = new_idx;
            },
            ParseCommandResult::Invalid(new_idx) => {
                token_idx = new_idx;
            },
            ParseCommandResult::EndOfInput => {
                proof {
                    assert(found + Seq::<CommandView>::empty() =~= found);
                }
                return tree;
            },
        }
    }

    proof {
        assert(tree@ + Seq::<CommandView>::empty() =~= tree@);
    }
    return tree;
}

/// Reads the command that starts at `start_idx`.
fn parse_command(tokens: &Vec<Token>, start_idx: usize) -> (result: ParseCommandResult)
    requires
        tokens_are_nonempty(tokens.deep_view()),
        tokens.len() < usize::MAX,
    ensures
        result@ == command_at(tokens.deep_view(), start_idx as int),
{
    assert(start_idx < tokens.len() ==> tokens.deep_view()[start_idx as int].value.len() > 0);
    let idx_after_whitespace = idx_after_optional_whitespace(tokens, start_idx);
    if idx_after_whitespace >= tokens.len() {
        return ParseCommandResult::EndOfInput;
    }
    let token = &tokens[idx_after_whitespace];
    let lowered = token.value.as_str().to_ascii_lowercase();
    proof {
        reveal_strlit(";");
        assert(";"@ =~= semicolon());
        lemma_index_after_next_semicolon_bounds(tokens.deep_view(), idx_after_whitespace as int);
    }
    if str_equals(lowered.as_str(), ";") {
        return parse_empty_command(tokens, idx_after_whitespace + 1);
    } else if str_equals(lowered.as_str(), SELECT_KEYWORD) {
        return parse_select_command(tokens, idx_after_whitespace + 1);
    } else {
        return ParseCommandResult::Invalid(skip_invalid_command(tokens, idx_after_whitespace));
    }
}

} // verus!

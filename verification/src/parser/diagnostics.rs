//! The parse that also says which commands it left out of the tree.

use vstd::prelude::*;
use crate::lexer::token::tokens_are_nonempty;
use crate::lexer::token::PositionView;
use crate::lexer::token::Token;
use crate::lexer::token::TokenPosition;
use crate::lexer::token::TokenView;
use crate::parser::ast::CommandView;
use crate::parser::ast::PostgresqlAbstractSyntaxTree;
use crate::parser::command_at;
use crate::parser::commands_from;
use crate::parser::commands_of;
use crate::parser::lemma_command_at_bounds;
use crate::parser::parse_command;
use crate::parser::parse_command_result::CommandOutcome;
use crate::parser::parse_command_result::ParseCommandResult;
use crate::parser::utils::idx_after_optional_whitespace;
use crate::parser::utils::index_after_optional_whitespace;

verus! {

/// Why a command is not in the tree.
#[derive(Debug, PartialEq, Eq, Structural)]
pub enum DroppedCommandReason {
    /// Its tokens do not form a command.
    Malformed,
    /// The tokens end before the command does.
    Incomplete,
}

/// A command that was left out of the tree: the index and the position of
/// its first token, and the reason.
#[derive(Debug, PartialEq)]
pub struct DroppedCommand {
    pub token_idx: usize,
    pub position: TokenPosition,
    pub reason: DroppedCommandReason,
}

/// The mathematical value of a [`DroppedCommand`].
pub struct DroppedCommandView {
    pub token_idx: int,
    pub position: PositionView,
    pub reason: DroppedCommandReason,
}

impl DeepView for DroppedCommand {
    type V = DroppedCommandView;

    open spec fn deep_view(&self) -> DroppedCommandView {
        DroppedCommandView {
            token_idx: self.token_idx as int,
            position: self.position@,
            reason: self.reason,
        }
    }
}

impl View for DroppedCommand {
    type V = DroppedCommandView;

    open spec fn view(&self) -> DroppedCommandView {
        self.deep_view()
    }
}

/// The record of a command that starts with the token at `idx` and was left
/// out for `reason`.
pub open spec fn dropped_at(
    tokens: Seq<TokenView>,
    idx: int,
    reason: DroppedCommandReason,
) -> DroppedCommandView {
    DroppedCommandView { token_idx: idx, position: tokens[idx].position, reason: reason }
}

/// The commands from `start` on that are left out of the tree, in order:
/// each malformed command, and at the end the command that the end of the
/// tokens cuts short, if there is one. Whitespace alone is no command.
pub open spec fn dropped_commands_from(tokens: Seq<TokenView>, start: int) -> Seq<
    DroppedCommandView,
>
    decreases tokens.len() + 1 - start,
    via dropped_commands_from_decreases
{
    if start < 0 || start >= tokens.len() {
        Seq::empty()
    } else {
        let first = index_after_optional_whitespace(tokens, start);
        match command_at(tokens, start) {
            CommandOutcome::Valid(_, next) => dropped_commands_from(tokens, next),
            CommandOutcome::Invalid(next) => seq![
                dropped_at(tokens, first, DroppedCommandReason::Malformed),
            ] + dropped_commands_from(tokens, next),
            CommandOutcome::EndOfInput => if first < tokens.len() {
                seq![dropped_at(tokens, first, DroppedCommandReason::Incomplete)]
            } else {
                Seq::empty()
            },
        }
    }
}

#[via_fn]
proof fn dropped_commands_from_decreases(tokens: Seq<TokenView>, start: int) {
    if 0 <= start {
        lemma_command_at_bounds(tokens, start);
    }
}

/// The commands of `tokens` that are left out of the tree.
pub open spec fn dropped_commands_of(tokens: Seq<TokenView>) -> Seq<DroppedCommandView> {
    dropped_commands_from(tokens, 0)
}

/// Reads `tokens` as [`parse_postgresql_tokens`] does, and says beside the
/// tree which commands are not in it.
///
/// [`parse_postgresql_tokens`]: crate::parser::parse_postgresql_tokens
pub fn parse_postgresql_tokens_with_diagnostics(tokens: Vec<Token>) -> (result: (
    PostgresqlAbstractSyntaxTree,
    Vec<DroppedCommand>,
))
    requires
        tokens_are_nonempty(tokens.deep_view()),
        tokens.len() < usize::MAX,
    ensures
        result.0@ == commands_of(tokens.deep_view()),
        result.1.deep_view() == dropped_commands_of(tokens.deep_view()),
{
    let mut tree = PostgresqlAbstractSyntaxTree::new();
    let mut dropped: Vec<DroppedCommand> = Vec::new();

    let mut token_idx: usize = 0;
    proof {
        assert(tree@ + commands_from(tokens.deep_view(), 0) =~= commands_of(tokens.deep_view()));
        assert(dropped.deep_view() + dropped_commands_from(tokens.deep_view(), 0)
            =~= dropped_commands_of(tokens.deep_view()));
    }
    while token_idx < tokens.len()
        invariant
            tokens_are_nonempty(tokens.deep_view()),
            tokens.len() < usize::MAX,
            tree@ + commands_from(tokens.deep_view(), token_idx as int) == commands_of(
                tokens.deep_view(),
            ),
            dropped.deep_view() + dropped_commands_from(tokens.deep_view(), token_idx as int)
                == dropped_commands_of(tokens.deep_view()),
        decreases tokens.len() + 1 - token_idx,
    {
        proof {
            lemma_command_at_bounds(tokens.deep_view(), token_idx as int);
        }
        let ghost found = tree@;
        let ghost noted = dropped.deep_view();
        assert(tokens.deep_view()[token_idx as int].value.len() > 0);
        let first = idx_after_optional_whitespace(&tokens, token_idx);
        match parse_command(&tokens, token_idx) {
            ParseCommandResult::Valid(command, new_idx) => {
                proof {
                    assert(found.push(command@) + commands_from(tokens.deep_view(), new_idx as int)
                        =~= found + commands_from(tokens.deep_view(), token_idx as int));
                }
                tree = tree.push_command(command);
                token_idx = new_idx;
            },
            ParseCommandResult::Invalid(new_idx) => {
                let record = DroppedCommand {
                    token_idx: first,
                    position: tokens[first].position.clone(),
                    reason: DroppedCommandReason::Malformed,
                };
                proof {
                    assert(noted.push(record@) + dropped_commands_from(
                        tokens.deep_view(),
                        new_idx as int,
                    ) =~= noted + dropped_commands_from(tokens.deep_view(), token_idx as int));
                }
                dropped.push(record);
                assert(dropped.deep_view() =~= noted.push(record@));
                token_idx = new_idx;
            },
            ParseCommandResult::EndOfInput => {
                if first < tokens.len() {
                    let record = DroppedCommand {
                        token_idx: first,
                        position: tokens[first].position.clone(),
                        reason: DroppedCommandReason::Incomplete,
                    };
                    dropped.push(record);
                    assert(dropped.deep_view() =~= noted.push(record@));
                }
                proof {
                    assert(found + Seq::<CommandView>::empty() =~= found);
                    assert(noted + Seq::<DroppedCommandView>::empty() =~= noted);
                    assert(noted + seq![
                        dropped_at(tokens.deep_view(), first as int, DroppedCommandReason::Incomplete),
                    ] =~= noted.push(
                        dropped_at(tokens.deep_view(), first as int, DroppedCommandReason::Incomplete),
                    ));
                }
                return (tree, dropped);
            },
        }
    }

    proof {
        assert(tree@ + Seq::<CommandView>::empty() =~= tree@);
        assert(dropped.deep_view() + Seq::<DroppedCommandView>::empty() =~= dropped.deep_view());
    }
    return (tree, dropped);
}

} // verus!

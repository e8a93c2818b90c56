use vstd::prelude::*;
use crate::lexer::token::tokens_are_nonempty;
use crate::lexer::token::Token;
use crate::lexer::token::TokenView;
use crate::parser::ast::Command;
use crate::parser::ast::CommandView;
use crate::parser::ast::DataManipulationCommand;
use crate::parser::ast::SelectCommand;
use crate::parser::ast::SelectCommandView;
use crate::parser::commands::parse_section::ParseCommandSectionResult;
use crate::parser::commands::parse_section::SectionOutcome;
use crate::parser::commands::sections::dot_separated_value::lemma_dot_separated_value_section_bounds;
use crate::parser::commands::sections::from_item::from_item_section;
use crate::parser::commands::sections::from_item::parse_from_item;
use crate::parser::commands::sections::keywords::keyword_section;
use crate::parser::commands::sections::keywords::parse_keyword_from;
use crate::parser::commands::sections::selected_expressions::lemma_selected_expressions_section_bounds;
use crate::parser::commands::sections::selected_expressions::parse_selected_expressions;
use crate::parser::commands::sections::selected_expressions::selected_expressions_section;
use crate::parser::commands::sections::semicolon::parse_semicolon;
use crate::parser::commands::sections::semicolon::semicolon_section;
use crate::parser::commands::sections::whitespace::parse_whitespace;
use crate::parser::commands::sections::whitespace::whitespace_section;
use crate::parser::parse_command_result::CommandOutcome;
use crate::parser::parse_command_result::ParseCommandResult;
use crate::parser::utils::idx_after_optional_whitespace;
use crate::parser::utils::index_after_next_semicolon;
use crate::parser::utils::index_after_optional_whitespace;
use crate::parser::utils::lemma_index_after_next_semicolon_bounds;
use crate::parser::utils::skip_invalid_command;

verus! {

/// What becomes of a command when the section that starts at `idx` was not
/// read: at the end of the tokens the command is cut short, else it is
/// malformed, and the parse goes on behind the next `;` from `idx` on.
pub open spec fn section_not_read<V>(
    tokens: Seq<TokenView>,
    idx: int,
    outcome: SectionOutcome<V>,
) -> CommandOutcome {
    if outcome is EndOfInput {
        CommandOutcome::EndOfInput
    } else {
        CommandOutcome::Invalid(index_after_next_semicolon(tokens, idx))
    }
}

/// The command `select`, read behind its keyword: whitespace, the selected
/// expressions, whitespace, the keyword `from`, whitespace, the table to
/// select from, one token of whitespace or none, and `;`.
pub open spec fn select_command(tokens: Seq<TokenView>, start: int) -> CommandOutcome {
    match whitespace_section(tokens, start) {
        SectionOutcome::Valid(expressions_idx, _) => match selected_expressions_section(
            tokens,
            expressions_idx,
        ) {
            SectionOutcome::Valid(
                expressions_end,
                selected_expressions,
            ) => match whitespace_section(tokens, expressions_end) {
                SectionOutcome::Valid(from_idx, _) => match keyword_section(
                    tokens,
                    from_idx,
                    "from"@,
                ) {
                    SectionOutcome::Valid(from_end, _) => match whitespace_section(
                        tokens,
                        from_end,
                    ) {
                        SectionOutcome::Valid(item_idx, _) => match from_item_section(
                            tokens,
                            item_idx,
                        ) {
                            SectionOutcome::Valid(item_end, from_item) => {
                                let semicolon_idx = index_after_optional_whitespace(
                                    tokens,
                                    item_end,
                                );
                                match semicolon_section(tokens, semicolon_idx) {
                                    SectionOutcome::Valid(end, _) => CommandOutcome::Valid(
                                        CommandView::Select(
                                            SelectCommandView { selected_expressions, from_item },
                                        ),
                                        end,
                                    ),
                                    outcome => section_not_read(tokens, semicolon_idx, outcome),
                                }
                            },
                            outcome => section_not_read(tokens, item_idx, outcome),
                        },
                        outcome => section_not_read(tokens, from_end, outcome),
                    },
                    outcome => section_not_read(tokens, from_idx, outcome),
                },
                outcome => section_not_read(tokens, expressions_end, outcome),
            },
            outcome => section_not_read(tokens, expressions_idx, outcome),
        },
        outcome => section_not_read(tokens, start, outcome),
    }
}

/// The parse goes forward whatever becomes of the command, and a command that
/// was read ends inside the tokens.
pub proof fn lemma_select_command_bounds(tokens: Seq<TokenView>, start: int)
    requires
        0 <= start,
    ensures
        match select_command(tokens, start) {
            CommandOutcome::Valid(command, next) => start < next <= tokens.len()
                && command is Select && command->Select_0.selected_expressions.len() >= 1,
            CommandOutcome::Invalid(next) => start < next <= tokens.len() + 1,
            CommandOutcome::EndOfInput => true,
        },
{
    if let SectionOutcome::Valid(expressions_idx, _) = whitespace_section(tokens, start) {
        lemma_selected_expressions_section_bounds(tokens, expressions_idx);
        lemma_index_after_next_semicolon_bounds(tokens, expressions_idx);
        if let SectionOutcome::Valid(expressions_end, _) = selected_expressions_section(
            tokens,
            expressions_idx,
        ) {
            lemma_index_after_next_semicolon_bounds(tokens, expressions_end);
            if let SectionOutcome::Valid(from_idx, _) = whitespace_section(tokens, expressions_end) {
                lemma_index_after_next_semicolon_bounds(tokens, from_idx);
                if let SectionOutcome::Valid(from_end, _) = keyword_section(
                    tokens,
                    from_idx,
                    "from"@,
                ) {
                    lemma_index_after_next_semicolon_bounds(tokens, from_end);
                    if let SectionOutcome::Valid(item_idx, _) = whitespace_section(
                        tokens,
                        from_end,
                    ) {
                        lemma_index_after_next_semicolon_bounds(tokens, item_idx);
                        lemma_dot_separated_value_section_bounds(tokens, item_idx, 1);
                        if let SectionOutcome::Valid(item_end, _) = from_item_section(
                            tokens,
                            item_idx,
                        ) {
                            lemma_index_after_next_semicolon_bounds(
                                tokens,
                                index_after_optional_whitespace(tokens, item_end),
                            );
                        }
                    }
                }
            }
        }
    } else {
        lemma_index_after_next_semicolon_bounds(tokens, start);
    }
}

/// Reads a select command from the token behind its keyword on.
pub fn parse_select_command(tokens: &Vec<Token>, start_idx: usize) -> (result: ParseCommandResult)
    requires
        tokens_are_nonempty(tokens.deep_view()),
        tokens.len() < usize::MAX,
    ensures
        result@ == select_command(tokens.deep_view(), start_idx as int),
{
    let mut idx = start_idx;
    proof {
        lemma_select_command_bounds(tokens.deep_view(), start_idx as int);
    }
    assert(idx < tokens.len() ==> tokens.deep_view()[idx as int].value.len() > 0);
    idx = match parse_whitespace(tokens, idx) {
        ParseCommandSectionResult::Valid(idx_after_section, _) => idx_after_section,
        ParseCommandSectionResult::Invalid => {
            return ParseCommandResult::Invalid(skip_invalid_command(tokens, idx));
        },
        ParseCommandSectionResult::EndOfInput => {
            return ParseCommandResult::EndOfInput;
        },
    };
    let (idx_after_expressions, selected_expressions) = match parse_selected_expressions(
        tokens,
        idx,
    ) {
        ParseCommandSectionResult::Valid(idx_after_section, parsed_data) => (
            idx_after_section,
            parsed_data,
        ),
        ParseCommandSectionResult::Invalid => {
            return ParseCommandResult::Invalid(skip_invalid_command(tokens, idx));
        },
        ParseCommandSectionResult::EndOfInput => {
            return ParseCommandResult::EndOfInput;
        },
    };
    idx = idx_after_expressions;
    assert(idx < tokens.len() ==> tokens.deep_view()[idx as int].value.len() > 0);
    idx = match parse_whitespace(tokens, idx) {
        ParseCommandSectionResult::Valid(idx_after_section, _) => idx_after_section,
        ParseCommandSectionResult::Invalid => {
            return ParseCommandResult::Invalid(skip_invalid_command(tokens, idx));
        },
        ParseCommandSectionResult::EndOfInput => {
            return ParseCommandResult::EndOfInput;
        },
    };
    idx = match parse_keyword_from(tokens, idx) {
        ParseCommandSectionResult::Valid(idx_after_section, _) => idx_after_section,
        ParseCommandSectionResult::Invalid => {
            return ParseCommandResult::Invalid(skip_invalid_command(tokens, idx));
        },
        ParseCommandSectionResult::EndOfInput => {
            return ParseCommandResult::EndOfInput;
        },
    };
    assert(idx < tokens.len() ==> tokens.deep_view()[idx as int].value.len() > 0);
    idx = match parse_whitespace(tokens, idx) {
        ParseCommandSectionResult::Valid(idx_after_section, _) => idx_after_section,
        ParseCommandSectionResult::Invalid => {
            return ParseCommandResult::Invalid(skip_invalid_command(tokens, idx));
        },
        ParseCommandSectionResult::EndOfInput => {
            return ParseCommandResult::EndOfInput;
        },
    };
    let (idx_after_item, from_item) = match parse_from_item(tokens, idx) {
        ParseCommandSectionResult::Valid(idx_after_section, parsed_data) => (
            idx_after_section,
            parsed_data,
        ),
        ParseCommandSectionResult::Invalid => {
            return ParseCommandResult::Invalid(skip_invalid_command(tokens, idx));
        },
        ParseCommandSectionResult::EndOfInput => {
            return ParseCommandResult::EndOfInput;
        },
    };
    idx = idx_after_item;
    assert(idx < tokens.len() ==> tokens.deep_view()[idx as int].value.len() > 0);
    idx = idx_after_optional_whitespace(tokens, idx);
    idx = match parse_semicolon(tokens, idx) {
        ParseCommandSectionResult::Valid(idx_after_section, _) => idx_after_section,
        ParseCommandSectionResult::Invalid => {
            return ParseCommandResult::Invalid(skip_invalid_command(tokens, idx));
        },
        ParseCommandSectionResult::EndOfInput => {
            return ParseCommandResult::EndOfInput;
        },
    };
    return ParseCommandResult::Valid(
        Command::DataManipulation(
            DataManipulationCommand::Select(
                SelectCommand { selected_expressions: selected_expressions, from_item: from_item },
            ),
        ),
        idx,
    );
}

} // verus!

use vstd::prelude::*;
use crate::lexer::token::tokens_are_nonempty;
use crate::lexer::token::Token;
use crate::lexer::token::TokenView;
use crate::parser::ast::AllColumnsSelectedExpression;
use crate::parser::ast::ColumnSelectedExpression;
use crate::parser::ast::Identifier;
use crate::parser::ast::SelectedExpression;
use crate::parser::ast::SelectedExpressionView;
use crate::parser::commands::parse_section::ParseCommandSectionResult;
use crate::parser::commands::parse_section::SectionOutcome;
use crate::parser::commands::sections::comma::comma;
use crate::parser::commands::sections::comma::parse_comma;
use crate::parser::commands::sections::dot_separated_value::dot_separated_value_section;
use crate::parser::commands::sections::dot_separated_value::lemma_dot_separated_value_section_bounds;
use crate::parser::commands::sections::dot_separated_value::parse_dot_separated_value;
use crate::parser::commands::sections::identifier::identifier_of;
use crate::parser::commands::sections::identifier::identifiers_of;
use crate::parser::commands::sections::identifier::lemma_identifiers_read;
use crate::parser::commands::sections::identifier::parse_identifier_token_value;
use crate::parser::commands::sections::identifier::SimpleParseResult;
use crate::parser::commands::sections::star::star;
use crate::parser::utils::idx_after_optional_whitespace;
use crate::parser::utils::index_after_optional_whitespace;
use crate::text::str_equals;

verus! {

/// What `values` select. Where the last value is `*`, all columns, of the
/// table and schema that the values before it name. Else one column: the
/// last value names it, the values before it its table and schema. Each value
/// but the `*` has to be a name.
pub open spec fn selected_expression_of(values: Seq<Seq<char>>) -> Option<SelectedExpressionView>
    recommends
        1 <= values.len() <= 3,
{
    if values[values.len() - 1] == star() {
        match identifiers_of(values.drop_last()) {
            Some(qualifiers) => Some(
                SelectedExpressionView::AllColumns {
                    schema_name: if qualifiers.len() == 2 {
                        Some(qualifiers[0])
                    } else {
                        None
                    },
                    table_name: if qualifiers.len() >= 1 {
                        Some(qualifiers[qualifiers.len() - 1])
                    } else {
                        None
                    },
                },
            ),
            None => None,
        }
    } else {
        match identifiers_of(values) {
            Some(identifiers) => Some(
                SelectedExpressionView::Column {
                    schema_name: if identifiers.len() == 3 {
                        Some(identifiers[0])
                    } else {
                        None
                    },
                    table_name: if identifiers.len() >= 2 {
                        Some(identifiers[identifiers.len() - 2])
                    } else {
                        None
                    },
                    column_name: identifiers[identifiers.len() - 1],
                },
            ),
            None => None,
        }
    }
}

/// The section of one selected expression: up to three values with dots
/// between them, which say what is selected.
pub open spec fn selected_expression_section(tokens: Seq<TokenView>, start: int) -> SectionOutcome<
    SelectedExpressionView,
> {
    match dot_separated_value_section(tokens, start, 2) {
        SectionOutcome::Valid(next, values) => match selected_expression_of(values) {
            Some(expression) => SectionOutcome::Valid(next, expression),
            None => SectionOutcome::Invalid,
        },
        SectionOutcome::Invalid => SectionOutcome::Invalid,
        SectionOutcome::EndOfInput => SectionOutcome::EndOfInput,
    }
}

/// The section of the selected expressions: one or more expressions with a
/// comma between each two. One token of whitespace may stand before and one
/// after each comma; whitespace behind the last expression is not part of the
/// section.
pub open spec fn selected_expressions_section(tokens: Seq<TokenView>, start: int) -> SectionOutcome<
    Seq<SelectedExpressionView>,
>
    decreases tokens.len() - start,
    via selected_expressions_section_decreases
{
    match selected_expression_section(tokens, start) {
        SectionOutcome::Valid(next, expression) => {
            let comma_idx = index_after_optional_whitespace(tokens, next);
            if comma_idx < tokens.len() && tokens[comma_idx].value == comma() {
                match selected_expressions_section(
                    tokens,
                    index_after_optional_whitespace(tokens, comma_idx + 1),
                ) {
                    SectionOutcome::Valid(end, more) => SectionOutcome::Valid(
                        end,
                        seq![expression] + more,
                    ),
                    SectionOutcome::Invalid => SectionOutcome::Invalid,
                    SectionOutcome::EndOfInput => SectionOutcome::EndOfInput,
                }
            } else {
                SectionOutcome::Valid(next, seq![expression])
            }
        },
        SectionOutcome::Invalid => SectionOutcome::Invalid,
        SectionOutcome::EndOfInput => SectionOutcome::EndOfInput,
    }
}

#[via_fn]
proof fn selected_expressions_section_decreases(tokens: Seq<TokenView>, start: int) {
    lemma_dot_separated_value_section_bounds(tokens, start, 2);
}

/// The outcome of a section of which `expressions` were read before `rest`.
pub open spec fn after_expressions(
    expressions: Seq<SelectedExpressionView>,
    rest: SectionOutcome<Seq<SelectedExpressionView>>,
) -> SectionOutcome<Seq<SelectedExpressionView>> {
    match rest {
        SectionOutcome::Valid(next, more) => SectionOutcome::Valid(next, expressions + more),
        SectionOutcome::Invalid => SectionOutcome::Invalid,
        SectionOutcome::EndOfInput => SectionOutcome::EndOfInput,
    }
}

/// A section that was read holds at least one expression, each of them well
/// formed, and ends behind its start, inside the tokens.
pub proof fn lemma_selected_expressions_section_bounds(tokens: Seq<TokenView>, start: int)
    ensures
        selected_expressions_section(tokens, start) matches SectionOutcome::Valid(
            next,
            expressions,
        ) ==> {
            &&& 0 <= start < next <= tokens.len()
            &&& expressions.len() >= 1
            &&& forall|i: int|
                0 <= i < expressions.len() ==> (#[trigger] expressions[i]).well_formed()
        },
    decreases tokens.len() - start,
{
    lemma_dot_separated_value_section_bounds(tokens, start, 2);
    if let SectionOutcome::Valid(next, expression) = selected_expression_section(tokens, start) {
        let comma_idx = index_after_optional_whitespace(tokens, next);
        if comma_idx < tokens.len() && tokens[comma_idx].value == comma() {
            lemma_selected_expressions_section_bounds(
                tokens,
                index_after_optional_whitespace(tokens, comma_idx + 1),
            );
        }
    }
}

/// Reads one selected expression.
fn parse_selected_expression(tokens: &Vec<Token>, start_idx: usize) -> (result:
    ParseCommandSectionResult<SelectedExpression>)
    ensures
        result.deep_view() == selected_expression_section(tokens.deep_view(), start_idx as int),
        result matches ParseCommandSectionResult::Valid(next, _) ==> start_idx < next
            <= tokens.len(),
{
    let (idx_after, separated_values) = match parse_dot_separated_value(tokens, start_idx, 2) {
        ParseCommandSectionResult::Valid(idx_after_section, parsed_data) => (
            idx_after_section,
            parsed_data,
        ),
        ParseCommandSectionResult::Invalid => {
            return ParseCommandSectionResult::Invalid;
        },
        ParseCommandSectionResult::EndOfInput => {
            return ParseCommandSectionResult::EndOfInput;
        },
    };
    let ghost values = separated_values.deep_view();

    let mut column_is_star = false;

    let mut identifiers: Vec<Identifier> = Vec::new();
    let mut idx: usize = 0;
    proof {
        reveal_strlit("*");
        assert("*"@ =~= star());
    }
    while idx < separated_values.len()
        invariant
            values == separated_values.deep_view(),
            dot_separated_value_section(tokens.deep_view(), start_idx as int, 2)
                == SectionOutcome::Valid(idx_after as int, values),
            1 <= values.len() <= 3,
            idx <= separated_values.len(),
            "*"@ == star(),
            column_is_star == (idx == values.len() && values[values.len() - 1] == star()),
            identifiers.len() == if column_is_star {
                idx - 1
            } else {
                idx as int
            },
            forall|i: int|
                0 <= i < identifiers.len() ==> identifier_of(values[i]) == Some(
                    (#[trigger] identifiers[i])@,
                ),
        decreases separated_values.len() - idx,
    {
        let value = &separated_values[idx];
        assert(value@ == values[idx as int]);
        if idx == separated_values.len() - 1 && str_equals(value.as_str(), "*") {
            column_is_star = true
        } else {
            match parse_identifier_token_value(value) {
                SimpleParseResult::Valid(identifier) => identifiers.push(identifier),
                SimpleParseResult::Invalid => {
                    proof {
                        assert(identifier_of(values[idx as int]) is None);
                        if values[values.len() - 1] == star() {
                            assert(values.drop_last()[idx as int] == values[idx as int]);
                            assert(identifier_of(values.drop_last()[idx as int]) is None);
                        }
                    }
                    return ParseCommandSectionResult::Invalid;
                },
            }
        }
        idx += 1;
    }

    if column_is_star {
        proof {
            lemma_identifiers_read(values.drop_last(), identifiers.deep_view());
        }
        let mut schema_name: Option<Identifier> = None;
        let mut table_name: Option<Identifier> = None;
        if identifiers.len() == 2 {
            schema_name = Some(identifiers[0].clone());
            table_name = Some(identifiers[identifiers.len() - 1].clone());
        } else if identifiers.len() == 1 {
            table_name = Some(identifiers[identifiers.len() - 1].clone());
        }
        return ParseCommandSectionResult::Valid(
            idx_after,
            SelectedExpression::AllColumns(
                AllColumnsSelectedExpression { schema_name: schema_name, table_name: table_name },
            ),
        );
    }
    proof {
        lemma_identifiers_read(values, identifiers.deep_view());
    }

    let mut schema_name: Option<Identifier> = None;
    let mut table_name: Option<Identifier> = None;
    if identifiers.len() == 3 {
        schema_name = Some(identifiers[0].clone());
        table_name = Some(identifiers[1].clone());
    } else if separated_values.len() == 2 {
        table_name = Some(identifiers[0].clone())
    };
    let column = identifiers[identifiers.len() - 1].clone();
    return ParseCommandSectionResult::Valid(
        idx_after,
        SelectedExpression::Column(
            ColumnSelectedExpression {
                schema_name: schema_name,
                table_name: table_name,
                column_name: column,
            },
        ),
    );
}

/// Reads the list of selected expressions.
pub fn parse_selected_expressions(tokens: &Vec<Token>, start_idx: usize) -> (result:
    ParseCommandSectionResult<Vec<SelectedExpression>>)
    requires
        tokens_are_nonempty(tokens.deep_view()),
    ensures
        result.deep_view() == selected_expressions_section(tokens.deep_view(), start_idx as int),
        result matches ParseCommandSectionResult::Valid(next, expressions) ==> start_idx < next
            <= tokens.len() && expressions.len() >= 1,
{
    let mut selected_expressions: Vec<SelectedExpression> = Vec::new();
    let mut idx = start_idx;
    let ghost whole = selected_expressions_section(tokens.deep_view(), start_idx as int);
    proof {
        reveal_strlit(",");
        assert(selected_expressions.deep_view() =~= Seq::<SelectedExpressionView>::empty());
        if let SectionOutcome::Valid(next, more) = whole {
            assert(Seq::<SelectedExpressionView>::empty() + more =~= more);
        }
    }

    loop
        invariant_except_break
            whole == after_expressions(
                selected_expressions.deep_view(),
                selected_expressions_section(tokens.deep_view(), idx as int),
            ),
            idx == start_idx || selected_expressions.len() >= 1,
        invariant
            tokens_are_nonempty(tokens.deep_view()),
            whole == selected_expressions_section(tokens.deep_view(), start_idx as int),
            start_idx <= idx,
        ensures
            whole == SectionOutcome::Valid(idx as int, selected_expressions.deep_view()),
            start_idx < idx <= tokens.len(),
            selected_expressions.len() >= 1,
        decreases tokens.len() - idx,
    {
        let ghost expressions = selected_expressions.deep_view();
        let (idx_after_expression, selected_expression) = match parse_selected_expression(
            tokens,
            idx,
        ) {
            ParseCommandSectionResult::Valid(idx_after_section, parsed_data) => (
                idx_after_section,
                parsed_data,
            ),
            ParseCommandSectionResult::Invalid => {
                return ParseCommandSectionResult::Invalid;
            },
            ParseCommandSectionResult::EndOfInput => {
                return ParseCommandSectionResult::EndOfInput;
            },
        };
        let ghost expression = selected_expression@;
        selected_expressions.push(selected_expression);
        assert(selected_expressions.deep_view() =~= expressions + seq![expression]);
        assert(idx_after_expression < tokens.len() ==> tokens.deep_view()[
            idx_after_expression as int
        ].value.len() > 0);
        let idx_after_whitespace = idx_after_optional_whitespace(tokens, idx_after_expression);
        match parse_comma(tokens, idx_after_whitespace) {
            ParseCommandSectionResult::Valid(idx_after_comma, _) => {
                assert(idx_after_comma < tokens.len() ==> tokens.deep_view()[
                    idx_after_comma as int
                ].value.len() > 0);
                idx = idx_after_optional_whitespace(tokens, idx_after_comma);
                proof {
                    let rest = selected_expressions_section(tokens.deep_view(), idx as int);
                    if let SectionOutcome::Valid(next, more) = rest {
                        assert(expressions + (seq![expression] + more) =~= (expressions
                            + seq![expression]) + more);
                    }
                }
            },
            ParseCommandSectionResult::Invalid | ParseCommandSectionResult::EndOfInput => {
                idx = idx_after_expression;
                break ;
            },
        }
    }
    return ParseCommandSectionResult::Valid(idx, selected_expressions);
}

} // verus!

use vstd::prelude::*;
use crate::lexer::token::Token;
use crate::lexer::token::TokenView;
use crate::parser::ast::FromItem;
use crate::parser::ast::FromItemView;
use crate::parser::ast::Identifier;
use crate::parser::commands::parse_section::ParseCommandSectionResult;
use crate::parser::commands::parse_section::SectionOutcome;
use crate::parser::commands::sections::dot_separated_value::dot_separated_value_section;
use crate::parser::commands::sections::dot_separated_value::parse_dot_separated_value;
use crate::parser::commands::sections::identifier::identifiers_of;
use crate::parser::commands::sections::identifier::parse_identifiers_from_dot_separated_values;
use crate::parser::commands::sections::identifier::SimpleParseResult;

verus! {

/// The table that `values` name: the last value is the table, and one value
/// before it is its schema. Each value has to be a name.
pub open spec fn from_item_of(values: Seq<Seq<char>>) -> Option<FromItemView>
    recommends
        1 <= values.len() <= 2,
{
    match identifiers_of(values) {
        Some(identifiers) => Some(
            FromItemView {
                schema_name: if identifiers.len() == 2 {
                    Some(identifiers[0])
                } else {
                    None
                },
                table_name: identifiers[identifiers.len() - 1],
            },
        ),
        None => None,
    }
}

/// The section of the table to select from: a table name that a schema name
/// and a dot may precede.
pub open spec fn from_item_section(tokens: Seq<TokenView>, start: int) -> SectionOutcome<
    FromItemView,
> {
    match dot_separated_value_section(tokens, start, 1) {
        SectionOutcome::Valid(next, values) => match from_item_of(values) {
            Some(from_item) => SectionOutcome::Valid(next, from_item),
            None => SectionOutcome::Invalid,
        },
        SectionOutcome::Invalid => SectionOutcome::Invalid,
        SectionOutcome::EndOfInput => SectionOutcome::EndOfInput,
    }
}

/// Reads the table to select from.
pub fn parse_from_item(tokens: &Vec<Token>, start_idx: usize) -> (result: ParseCommandSectionResult<
    FromItem,
>)
    ensures
        result.deep_view() == from_item_section(tokens.deep_view(), start_idx as int),
        result matches ParseCommandSectionResult::Valid(next, _) ==> start_idx < next
            <= tokens.len(),
{
    let (idx_after, separated_values) = match parse_dot_separated_value(tokens, start_idx, 1) {
        ParseCommandSectionResult::Valid(idx_after_section, parsed_data) => (
            idx_after_section,
            parsed_data,
        ),
        ParseCommandSectionResult::Invalid => {
            return ParseCommandSectionResult::Invalid;
        },
        ParseCommandSectionResult::EndOfInput => {
            return ParseCommandSectionResult::EndOfInput;
        },
    };

    let identifiers = match parse_identifiers_from_dot_separated_values(separated_values) {
        SimpleParseResult::Valid(identifiers) => identifiers,
        SimpleParseResult::Invalid => return ParseCommandSectionResult::Invalid,
    };

    let mut schema_name: Option<Identifier> = None;
    if identifiers.len() == 2 {
        schema_name = Some(identifiers[0].clone());
    }
    let table_name = identifiers[identifiers.len() - 1].clone();
    return ParseCommandSectionResult::Valid(
        idx_after,
        FromItem { schema_name: schema_name, table_name: table_name },
    );
}

} // verus!

use vstd::prelude::*;
use crate::lexer::token::Token;
use crate::lexer::token::TokenView;
use crate::parser::commands::parse_section::one_token_section;
use crate::parser::commands::parse_section::ParseCommandSectionResult;
use crate::parser::commands::parse_section::SectionOutcome;
use crate::parser::utils::empty_parsed_datum;
use crate::lexer::token::is_whitespace_token;
use crate::parser::utils::parse_simple_token;
use crate::parser::utils::token_is_whitespace;

verus! {

/// The section of whitespace: one token that is a run of whitespace.
pub open spec fn whitespace_section(tokens: Seq<TokenView>, idx: int) -> SectionOutcome<()> {
    one_token_section(tokens, idx, is_whitespace_token(tokens[idx]), ())
}

/// Reads the whitespace that has to stand between two words.
pub fn parse_whitespace(tokens: &Vec<Token>, idx: usize) -> (result: ParseCommandSectionResult<()>)
    requires
        idx < tokens.len() ==> tokens[idx as int]@.value.len() > 0,
    ensures
        result.deep_view() == whitespace_section(tokens.deep_view(), idx as int),
{
    return parse_simple_token(tokens, idx, token_is_whitespace, empty_parsed_datum);
}

} // verus!

use vstd::prelude::*;
use crate::lexer::token::Token;
use crate::lexer::token::TokenView;
use crate::parser::commands::parse_section::one_token_section;
use crate::parser::commands::parse_section::ParseCommandSectionResult;
use crate::parser::commands::parse_section::SectionOutcome;
use crate::parser::utils::empty_parsed_datum;
use crate::parser::utils::parse_simple_token;
use crate::text::ascii_lowercase;
use crate::text::str_equals;

verus! {

/// The keyword that starts a select command, in lower case.
pub const SELECT_KEYWORD: &'static str = "select";

/// The keyword before the table to select from, in lower case.
pub const FROM_KEYWORD: &'static str = "from";

/// The section of a keyword: one token that is the keyword in any mix of
/// upper and lower case. `keyword` is written in lower case.
pub open spec fn keyword_section(tokens: Seq<TokenView>, idx: int, keyword: Seq<char>) -> SectionOutcome<()> {
    one_token_section(tokens, idx, ascii_lowercase(tokens[idx].value) == keyword, ())
}

/// Reads the keyword `select`.
pub fn parse_keyword_select(tokens: &Vec<Token>, idx: usize) -> (result: ParseCommandSectionResult<
    (),
>)
    ensures
        result.deep_view() == keyword_section(tokens.deep_view(), idx as int, "select"@),
{
    return parse_keyword(tokens, idx, SELECT_KEYWORD);
}

/// Reads the keyword `from`.
pub fn parse_keyword_from(tokens: &Vec<Token>, idx: usize) -> (result: ParseCommandSectionResult<()>)
    ensures
        result.deep_view() == keyword_section(tokens.deep_view(), idx as int, "from"@),
{
    return parse_keyword(tokens, idx, FROM_KEYWORD);
}

/// Reads `keyword`, which is written in lower case, in any mix of cases.
fn parse_keyword(tokens: &Vec<Token>, idx: usize, keyword: &str) -> (result: ParseCommandSectionResult<()>)
    ensures
        result.deep_view() == keyword_section(tokens.deep_view(), idx as int, keyword@),
{
    let parse_test = |token: &Token| -> (accepted: bool)
        ensures
            accepted == (ascii_lowercase(token@.value) == keyword@),
        { str_equals(token.value.as_str().to_ascii_lowercase().as_str(), keyword) };
    return parse_simple_token(tokens, idx, parse_test, empty_parsed_datum);
}

} // verus!

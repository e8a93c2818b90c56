use vstd::prelude::*;
use crate::lexer::token::Token;
use crate::lexer::token::TokenView;
use crate::parser::commands::parse_section::one_token_section;
use crate::parser::commands::parse_section::ParseCommandSectionResult;
use crate::parser::commands::parse_section::SectionOutcome;
use crate::parser::utils::empty_parsed_datum;
use crate::parser::utils::parse_simple_token;
use crate::text::str_equals;

verus! {

/// The value of the token `.`.
pub open spec fn dot() -> Seq<char> {
    seq!['.']
}

/// The section `.`: one token with exactly that value.
pub open spec fn dot_section(tokens: Seq<TokenView>, idx: int) -> SectionOutcome<()> {
    one_token_section(tokens, idx, tokens[idx].value == dot(), ())
}

/// Reads the `.` between a qualifier and what it qualifies.
pub fn parse_dot(tokens: &Vec<Token>, idx: usize) -> (result: ParseCommandSectionResult<()>)
    ensures
        result.deep_view() == dot_section(tokens.deep_view(), idx as int),
{
    proof {
        reveal_strlit(".");
        assert("."@ =~= dot());
    }
    let parse_test = |token: &Token| -> (accepted: bool)
        ensures
            accepted == (token@.value == dot()),
        { str_equals(token.value.as_str(), ".") };
    return parse_simple_token(tokens, idx, parse_test, empty_parsed_datum);
}

/// The section "anything but a dot": one token with another value than `.`,
/// which is what the section reads.
pub open spec fn non_dot_section(tokens: Seq<TokenView>, idx: int) -> SectionOutcome<Seq<char>> {
    one_token_section(tokens, idx, tokens[idx].value != dot(), tokens[idx].value)
}

/// Reads one value of a dotted name: any token but a dot.
pub fn parse_non_dot(tokens: &Vec<Token>, idx: usize) -> (result: ParseCommandSectionResult<String>)
    ensures
        result.deep_view() == non_dot_section(tokens.deep_view(), idx as int),
{
    proof {
        reveal_strlit(".");
        assert("."@ =~= dot());
    }
    let parse_test = |token: &Token| -> (accepted: bool)
        ensures
            accepted == (token@.value != dot()),
        { !str_equals(token.value.as_str(), ".") };
    let extract_parsed_data = |token: &Token| -> (value: String)
        ensures
            value@ == token@.value,
        { token.value.clone() };
    return parse_simple_token(tokens, idx, parse_test, extract_parsed_data);
}

} // verus!

use vstd::prelude::*;
use crate::lexer::token::Token;
use crate::lexer::token::TokenView;
use crate::parser::commands::parse_section::one_token_section;
use crate::parser::commands::parse_section::ParseCommandSectionResult;
use crate::parser::commands::parse_section::SectionOutcome;
use crate::parser::utils::empty_parsed_datum;
use crate::parser::utils::parse_simple_token;
use crate::parser::utils::semicolon;
use crate::text::str_equals;

verus! {

/// The section `;`: one token with exactly that value.
pub open spec fn semicolon_section(tokens: Seq<TokenView>, idx: int) -> SectionOutcome<()> {
    one_token_section(tokens, idx, tokens[idx].value == semicolon(), ())
}

/// Reads the `;` that ends a command.
pub fn parse_semicolon(tokens: &Vec<Token>, idx: usize) -> (result: ParseCommandSectionResult<()>)
    ensures
        result.deep_view() == semicolon_section(tokens.deep_view(), idx as int),
{
    proof {
        reveal_strlit(";");
        assert(";"@ =~= semicolon());
    }
    let parse_test = |token: &Token| -> (accepted: bool)
        ensures
            accepted == (token@.value == semicolon()),
        { str_equals(token.value.as_str(), ";") };
    return parse_simple_token(tokens, idx, parse_test, empty_parsed_datum);
}

} // verus!

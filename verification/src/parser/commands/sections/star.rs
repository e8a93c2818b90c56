use vstd::prelude::*;
use crate::lexer::token::Token;
use crate::lexer::token::TokenView;
use crate::parser::commands::parse_section::one_token_section;
use crate::parser::commands::parse_section::ParseCommandSectionResult;
use crate::parser::commands::parse_section::SectionOutcome;
use crate::parser::utils::empty_parsed_datum;
use crate::parser::utils::parse_simple_token;
use crate::text::str_equals;

verus! {

/// The value of the token `*`.
pub open spec fn star() -> Seq<char> {
    seq!['*']
}

/// The section `*`: one token with exactly that value.
pub open spec fn star_section(tokens: Seq<TokenView>, idx: int) -> SectionOutcome<()> {
    one_token_section(tokens, idx, tokens[idx].value == star(), ())
}

/// Reads the `*` that selects all columns.
pub fn parse_star(tokens: &Vec<Token>, idx: usize) -> (result: ParseCommandSectionResult<()>)
    ensures
        result.deep_view() == star_section(tokens.deep_view(), idx as int),
{
    proof {
        reveal_strlit("*");
        assert("*"@ =~= star());
    }
    let parse_test = |token: &Token| -> (accepted: bool)
        ensures
            accepted == (token@.value == star()),
        { str_equals(token.value.as_str(), "*") };
    return parse_simple_token(tokens, idx, parse_test, empty_parsed_datum);
}

} // verus!

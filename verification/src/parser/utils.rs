use vstd::prelude::*;
use crate::lexer::char_is_whitespace;
use crate::lexer::token::is_whitespace_token;
use crate::lexer::token::Token;
use crate::lexer::token::TokenView;
use crate::parser::commands::parse_section::ParseCommandSectionResult;
use crate::text::str_equals;

verus! {

/// The value of the token that ends a command.
pub open spec fn semicolon() -> Seq<char> {
    seq![';']
}

/// Where to go on after a malformed command that was noticed at `start`: the
/// index behind the first `;` at or behind `start`, or one past the end of
/// the tokens where no `;` follows.
pub open spec fn index_after_next_semicolon(tokens: Seq<TokenView>, start: int) -> int
    decreases tokens.len() - start,
{
    if start < 0 || start >= tokens.len() {
        start + 1
    } else if tokens[start].value == semicolon() {
        start + 1
    } else {
        index_after_next_semicolon(tokens, start + 1)
    }
}

/// The index behind one token of whitespace at `start`, if there is one, else
/// `start`.
pub open spec fn index_after_optional_whitespace(tokens: Seq<TokenView>, start: int) -> int {
    if 0 <= start < tokens.len() && is_whitespace_token(tokens[start]) {
        start + 1
    } else {
        start
    }
}

/// Skipping goes forward, and not further than one past the end of the
/// tokens, or one past its own start where that lies behind the end.
pub proof fn lemma_index_after_next_semicolon_bounds(tokens: Seq<TokenView>, start: int)
    requires
        0 <= start,
    ensures
        start < index_after_next_semicolon(tokens, start),
        index_after_next_semicolon(tokens, start) <= tokens.len() + 1
            || index_after_next_semicolon(tokens, start) == start + 1,
    decreases tokens.len() - start,
{
    if start < tokens.len() && tokens[start].value != semicolon() {
        lemma_index_after_next_semicolon_bounds(tokens, start + 1);
    }
}

/// Where to go on after a malformed command that was noticed at `start_idx`.
pub fn skip_invalid_command(tokens: &Vec<Token>, start_idx: usize) -> (idx: usize)
    requires
        index_after_next_semicolon(tokens.deep_view(), start_idx as int) <= usize::MAX,
    ensures
        idx == index_after_next_semicolon(tokens.deep_view(), start_idx as int),
{
    let mut idx = start_idx;
    while !token_is_semicolon(token_at_index(tokens, idx)) && option_is_some(
        token_at_index(tokens, idx),
    )
        invariant
            index_after_next_semicolon(tokens.deep_view(), idx as int)
                == index_after_next_semicolon(tokens.deep_view(), start_idx as int),
        decreases tokens.len() - idx,
    {
        idx += 1;
    }
    return idx + 1;
}

/// The token at `idx`, if there is one.
fn token_at_index(tokens: &Vec<Token>, idx: usize) -> (token: Option<&Token>)
    ensures
        token == if idx < tokens.len() {
            Some(&tokens[idx as int])
        } else {
            None
        },
{
    if idx < tokens.len() {
        Some(&tokens[idx])
    } else {
        None
    }
}

/// Whether there is a token, and it is `;`.
fn token_is_semicolon(token: Option<&Token>) -> (result: bool)
    ensures
        result == (token matches Some(token) && token@.value == semicolon()),
{
    proof {
        reveal_strlit(";");
        assert(";"@ =~= semicolon());
    }
    return token_is_str(token, ";");
}

/// Whether there is a token, and its value is `test_str`.
fn token_is_str(token: Option<&Token>, test_str: &str) -> (result: bool)
    ensures
        result == (token matches Some(token) && token@.value == test_str@),
{
    let test_function = |token: &Token| -> (equal: bool)
        ensures
            equal == (token@.value == test_str@),
        { str_equals(token.value.as_str(), test_str) };
    return option_is(token, test_function);
}

/// Whether `option` holds a value.
fn option_is_some<T>(option: Option<&T>) -> (result: bool)
    ensures
        result == (option is Some),
{
    return match option {
        Some(_) => true,
        None => false,
    };
}

/// Whether `option` holds a value that passes `test_function`.
fn option_is<T, F>(option: Option<&T>, test_function: F) -> (result: bool) where
    F: FnOnce(&T) -> bool,

    requires
        option matches Some(value) ==> call_requires(test_function, (value,)),
    ensures
        match option {
            Some(value) => call_ensures(test_function, (value,), result),
            None => !result,
        },
{
    return match option {
        Some(value) => test_function(value),
        None => false,
    };
}

/// Steps over one token of whitespace at `start_idx`, if there is one.
pub fn idx_after_optional_whitespace(tokens: &Vec<Token>, start_idx: usize) -> (idx: usize)
    requires
        start_idx < tokens.len() ==> tokens[start_idx as int]@.value.len() > 0,
    ensures
        idx == index_after_optional_whitespace(tokens.deep_view(), start_idx as int),
{
    return match token_at_index(tokens, start_idx) {
        Some(token) => {
            if token_is_whitespace(token) {
                start_idx + 1
            } else {
                start_idx
            }
        },
        None => start_idx,
    };
}

/// Whether `token` is a run of whitespace. The token must not be empty.
pub fn token_is_whitespace(token: &Token) -> (result: bool)
    requires
        token@.value.len() > 0,
    ensures
        result == is_whitespace_token(token@),
{
    broadcast use vstd::string::group_string_axioms;

    let first_char = token.value.as_str().chars().next();
    return match first_char {
        Some(character) => char_is_whitespace(character),
        None => false,
    };
}

/// Reads the one token at `idx`: it is accepted where it passes `parse_test`,
/// and `extract_parsed_data` says what was read.
pub fn parse_simple_token<TParsedDatum, FTestFunction, FExtractFunction>(
    tokens: &Vec<Token>,
    idx: usize,
    parse_test: FTestFunction,
    extract_parsed_data: FExtractFunction,
) -> (result: ParseCommandSectionResult<TParsedDatum>) where
    FTestFunction: Fn(&Token) -> bool,
    FExtractFunction: Fn(&Token) -> TParsedDatum,

    requires
        idx < tokens.len() ==> call_requires(parse_test, (&tokens[idx as int],)),
        idx < tokens.len() ==> call_requires(extract_parsed_data, (&tokens[idx as int],)),
    ensures
        idx >= tokens.len() ==> result is EndOfInput,
        idx < tokens.len() ==> match result {
            ParseCommandSectionResult::Valid(next, datum) => {
                &&& next == idx + 1
                &&& call_ensures(parse_test, (&tokens[idx as int],), true)
                &&& call_ensures(extract_parsed_data, (&tokens[idx as int],), datum)
            },
            ParseCommandSectionResult::Invalid => call_ensures(
                parse_test,
                (&tokens[idx as int],),
                false,
            ),
            ParseCommandSectionResult::EndOfInput => false,
        },
{
    return match token_at_index(tokens, idx) {
        Some(token) => {
            if parse_test(token) {
                ParseCommandSectionResult::Valid(idx + 1, extract_parsed_data(token))
            } else {
                ParseCommandSectionResult::Invalid
            }
        },
        None => ParseCommandSectionResult::EndOfInput,
    };
}

/// What a section reads that only has to be there: nothing.
pub fn empty_parsed_datum(_token: &Token) -> () {
    return ();
}

} // verus!

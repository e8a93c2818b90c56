use vstd::prelude::*;
use crate::text::char_count_bound;
use lemmas::lemma_token_reconstruction;
use model::column_at;
use model::is_quote_char;
use model::is_terminator_char;
use model::lemma_tokens_are_nonempty;
use model::line_at;
use model::position_at;
use model::quoted_end;
use model::run_end;
use model::token_at;
use model::token_end;
use model::tokens_from;
use model::tokens_of;
use token::token_values;
use token::tokens_are_nonempty;
use token::Token;
use token::TokenPosition;
use token::TokenView;

pub mod lemmas;
pub mod model;
pub mod token;

verus! {

/// Whether `character` separates words: a space, a tab or a line break.
pub open spec fn is_whitespace_char(character: char) -> bool {
    character == ' ' || character == '\n' || character == '\t'
}

/// Whether `character` is one of the three whitespace characters.
pub fn char_is_whitespace(character: char) -> (result: bool)
    ensures
        result == is_whitespace_char(character),
{
    return character == ' ' || character == '\n' || character == '\t';
}

/// Whether `character` always forms a token of its own.
fn char_is_terminator(character: char) -> (result: bool)
    ensures
        result == is_terminator_char(character),
{
    return character == '.' || character == ';' || character == ',';
}

/// Moves the value of `opt_val`, if there is one, to the end of `push_to`.
fn push_if_some<T>(opt_val: Option<T>, push_to: Vec<T>) -> (result: (Option<T>, Vec<T>))
    ensures
        result.0 is None,
        result.1@ == match opt_val {
            Some(some_val) => push_to@.push(some_val),
            None => push_to@,
        },
{
    let mut opt_val = opt_val;
    let mut push_to = push_to;
    match opt_val.take() {
        Some(some_val) => {
            push_to.push(some_val);
        },
        None => {},
    };
    return (opt_val, push_to);
}

/// What the lexer knows of the token it is building, after it has read the
/// first `read` characters of `text`: the token started at `start`, holds
/// what was read since, and ends where the rest of its run ends.
spec fn pending_token_fits(
    text: Seq<char>,
    start: int,
    read: int,
    token: TokenView,
    whitespace: bool,
    quoted: bool,
) -> bool {
    &&& 0 <= start < read <= text.len()
    &&& token.position == position_at(text, start)
    &&& token.value == text.subrange(start, read)
    &&& if quoted {
        &&& is_quote_char(text[start])
        &&& token_end(text, start) == quoted_end(text, read)
    } else {
        &&& !is_quote_char(text[start])
        &&& !is_terminator_char(text[start])
        &&& whitespace == is_whitespace_char(text[start])
        &&& token_end(text, start) == run_end(text, read, whitespace)
    }
}

/// The tokens found so far, followed by those from `start` on, are the tokens
/// of the whole text.
spec fn found_so_far(text: Seq<char>, found: Seq<TokenView>, start: int) -> bool {
    &&& 0 <= start <= text.len()
    &&& found + tokens_from(text, start) == tokens_of(text)
}

/// A finished token moves the boundary to its end.
proof fn lemma_token_found(text: Seq<char>, found: Seq<TokenView>, start: int)
    requires
        found_so_far(text, found, start),
        start < text.len(),
    ensures
        found_so_far(text, found.push(token_at(text, start)), token_end(text, start)),
{
    model::lemma_token_end_bounds(text, start);
    assert(found.push(token_at(text, start)) + tokens_from(text, token_end(text, start)) =~= found
        + tokens_from(text, start));
}

/// Cuts `text` into tokens: quoted runs, the terminators `.`, `;` and `,`,
/// runs of whitespace and runs of other characters, each with the line and
/// column of its first character. Every character of the text ends up in
/// exactly one token.
pub fn tokenize_postgresql(text: &str) -> (tokens: Vec<Token>)
    ensures
        tokens.deep_view() == tokens_of(text@),
        tokens_are_nonempty(tokens.deep_view()),
        token_values(tokens.deep_view()).flatten() == text@,
{
    let mut tokens: Vec<Token> = Vec::new();
    let mut current_token: Option<Token> = None;
    let mut current_token_is_whitespace: bool = false;
    let mut current_token_is_quoted_identifier: bool = false;
    let mut current_line: usize = 0;
    let mut current_column: usize = 0;
    let bound = char_count_bound(text);
    let ghost mut start: int = 0;

    proof {
        assert(tokens.deep_view() + tokens_from(text@, 0) =~= tokens_of(text@));
    }

    for character in it: text.chars()
        invariant
            it.seq() == text@,
            text@.len() <= bound,
            found_so_far(text@, tokens.deep_view(), start),
            start <= it.index(),
            current_line == line_at(text@, it.index()),
            current_column == column_at(text@, it.index()),
            current_line <= it.index(),
            current_column <= it.index(),
            current_token matches Some(token) ==> pending_token_fits(
                text@,
                start,
                it.index(),
                token@,
                current_token_is_whitespace,
                current_token_is_quoted_identifier,
            ),
            current_token is None ==> start == it.index() && !current_token_is_quoted_identifier,
    {
        let ghost read = it.index();
        let ghost found = tokens.deep_view();
        assert(character == text@[read]);
        let changing_between_whitespace_and_non = current_token_is_whitespace
            != char_is_whitespace(character);
        if character == '"' {
            if current_token_is_quoted_identifier {
                let token = current_token.take().unwrap().append(character);
                proof {
                    assert(token@.value =~= text@.subrange(start, read + 1));
                    lemma_token_found(text@, found, start);
                    start = read + 1;
                }
                tokens.push(token);
                assert(tokens.deep_view() =~= found.push(token@));
                current_token_is_quoted_identifier = false;
            } else {
                proof {
                    if current_token is Some {
                        lemma_token_found(text@, found, start);
                    }
                    start = read;
                }
                let (_, pushed) = push_if_some(current_token, tokens);
                tokens = pushed;
                assert(tokens.deep_view() =~= match current_token {
                    Some(token) => found.push(token@),
                    None => found,
                });
                current_token = Some(
                    Token::new(
                        TokenPosition { line: current_line, column: current_column },
                        character,
                    ),
                );
                current_token_is_quoted_identifier = true;
                assert(current_token->0@.value =~= text@.subrange(read, read + 1));
            }
        } else if current_token_is_quoted_identifier {
            let token = current_token.unwrap().append(character);
            assert(token@.value =~= text@.subrange(start, read + 1));
            current_token = Some(token);
        } else if char_is_terminator(character) {
            proof {
                if current_token is Some {
                    lemma_token_found(text@, found, start);
                }
                start = read;
            }
            let (rest, pushed) = push_if_some(current_token, tokens);
            assert(pushed.deep_view() =~= match current_token {
                Some(token) => found.push(token@),
                None => found,
            });
            current_token = rest;
            tokens = pushed;
            let ghost flushed = tokens.deep_view();
            let token = Token::new(
                TokenPosition { line: current_line, column: current_column },
                character,
            );
            proof {
                assert(token@.value =~= text@.subrange(read, read + 1));
                lemma_token_found(text@, flushed, read);
                start = read + 1;
            }
            tokens.push(token);
            assert(tokens.deep_view() =~= flushed.push(token@));
            current_token_is_whitespace = false;
        } else if changing_between_whitespace_and_non {
            proof {
                if current_token is Some {
                    lemma_token_found(text@, found, start);
                }
                start = read;
            }
            let (_, pushed) = push_if_some(current_token, tokens);
            tokens = pushed;
            assert(tokens.deep_view() =~= match current_token {
                Some(token) => found.push(token@),
                None => found,
            });
            current_token = Some(
                Token::new(TokenPosition { line: current_line, column: current_column }, character),
            );
            current_token_is_whitespace = !current_token_is_whitespace;
            assert(current_token->0@.value =~= text@.subrange(read, read + 1));
        } else {
            current_token = match current_token {
                Some(token) => {
                    let longer = token.append(character);
                    assert(longer@.value =~= text@.subrange(start, read + 1));
                    Some(longer)
                },
                None => {
                    let fresh = Token::new(
                        TokenPosition { line: current_line, column: current_column },
                        character,
                    );
                    assert(fresh@.value =~= text@.subrange(read, read + 1));
                    Some(fresh)
                },
            };
        }

        if character == '\n' {
            current_line += 1;
            current_column = 0;
        } else {
            current_column += 1;
        }
    }

    let ghost found = tokens.deep_view();
    match current_token.take() {
        Some(token) => {
            proof {
                lemma_token_found(text@, found, start);
            }
            tokens.push(token);
            assert(tokens.deep_view() =~= found.push(token@));
        },
        None => {},
    }

    proof {
        assert(tokens.deep_view() =~= tokens_of(text@));
        lemma_tokens_are_nonempty(text@, 0);
        lemma_token_reconstruction(text@);
    }
    return tokens;
}

} // verus!

//! What the lexer computes, stated on sequences of characters.
//!
//! A text is cut into tokens from left to right. The first character of a
//! token decides its kind, and the kind decides where the token ends:
//!
//! * a quote opens a quoted run, which reaches to the next quote inclusive,
//!   or to the end of the text where no quote follows;
//! * `.`, `;` and `,` stand alone;
//! * any other character opens a run of characters of its own class
//!   (whitespace or not), which ends before the first quote, terminator or
//!   character of the other class.

use vstd::prelude::*;
use super::is_whitespace_char;
use super::token::tokens_are_nonempty;
use super::token::PositionView;
use super::token::TokenView;

verus! {

/// The character that opens and closes a quoted run.
pub open spec fn is_quote_char(character: char) -> bool {
    character == '"'
}

/// The characters that always form a token of their own.
pub open spec fn is_terminator_char(character: char) -> bool {
    character == '.' || character == ';' || character == ','
}

/// Whether `character` may continue a run of whitespace (`whitespace` true)
/// or of other plain characters (`whitespace` false).
pub open spec fn continues_run(character: char, whitespace: bool) -> bool {
    !is_quote_char(character) && !is_terminator_char(character) && is_whitespace_char(character)
        == whitespace
}

/// The end of a quoted run whose inside is read from `from` on: the index
/// after the first quote at or behind `from`, or the length of the text.
pub open spec fn quoted_end(text: Seq<char>, from: int) -> int
    decreases text.len() - from,
{
    if from < 0 || from >= text.len() {
        text.len() as int
    } else if is_quote_char(text[from]) {
        from + 1
    } else {
        quoted_end(text, from + 1)
    }
}

/// The end of a run of the class `whitespace` that is read from `from` on:
/// the first index at or behind `from` whose character does not continue the
/// run, or the length of the text.
pub open spec fn run_end(text: Seq<char>, from: int, whitespace: bool) -> int
    decreases text.len() - from,
{
    if from < 0 || from >= text.len() {
        text.len() as int
    } else if continues_run(text[from], whitespace) {
        run_end(text, from + 1, whitespace)
    } else {
        from
    }
}

/// The index after the last character of the token that starts at `start`.
pub open spec fn token_end(text: Seq<char>, start: int) -> int
    recommends
        0 <= start < text.len(),
{
    if is_quote_char(text[start]) {
        quoted_end(text, start + 1)
    } else if is_terminator_char(text[start]) {
        start + 1
    } else {
        run_end(text, start + 1, is_whitespace_char(text[start]))
    }
}

/// The number of line breaks among the first `index` characters of `text`.
pub open spec fn line_at(text: Seq<char>, index: int) -> nat
    decreases index,
{
    if index <= 0 || index > text.len() {
        0
    } else if text[index - 1] == '\n' {
        line_at(text, index - 1) + 1
    } else {
        line_at(text, index - 1)
    }
}

/// The number of characters between the last line break before `index` (or
/// the start of the text) and `index`.
pub open spec fn column_at(text: Seq<char>, index: int) -> nat
    decreases index,
{
    if index <= 0 || index > text.len() {
        0
    } else if text[index - 1] == '\n' {
        0
    } else {
        column_at(text, index - 1) + 1
    }
}

/// The position of the character at `index`: its line and its column.
pub open spec fn position_at(text: Seq<char>, index: int) -> PositionView {
    PositionView { line: line_at(text, index), column: column_at(text, index) }
}

/// The token of `text` that starts at `start`.
pub open spec fn token_at(text: Seq<char>, start: int) -> TokenView
    recommends
        0 <= start < text.len(),
{
    TokenView {
        position: position_at(text, start),
        value: text.subrange(start, token_end(text, start)),
    }
}

/// The tokens of `text` from the token boundary `start` on.
pub open spec fn tokens_from(text: Seq<char>, start: int) -> Seq<TokenView>
    decreases text.len() - start,
    via tokens_from_decreases
{
    if start < 0 || start >= text.len() {
        Seq::empty()
    } else {
        seq![token_at(text, start)] + tokens_from(text, token_end(text, start))
    }
}

#[via_fn]
proof fn tokens_from_decreases(text: Seq<char>, start: int) {
    if 0 <= start < text.len() {
        lemma_token_end_bounds(text, start);
    }
}

/// The tokens of `text`.
pub open spec fn tokens_of(text: Seq<char>) -> Seq<TokenView> {
    tokens_from(text, 0)
}

/// A quoted run ends behind the place from which it is read, inside the text.
pub proof fn lemma_quoted_end_bounds(text: Seq<char>, from: int)
    requires
        0 <= from <= text.len(),
    ensures
        from <= quoted_end(text, from) <= text.len(),
    decreases text.len() - from,
{
    if from < text.len() && !is_quote_char(text[from]) {
        lemma_quoted_end_bounds(text, from + 1);
    }
}

/// A run ends at or behind the place from which it is read, inside the text.
pub proof fn lemma_run_end_bounds(text: Seq<char>, from: int, whitespace: bool)
    requires
        0 <= from <= text.len(),
    ensures
        from <= run_end(text, from, whitespace) <= text.len(),
    decreases text.len() - from,
{
    if from < text.len() && continues_run(text[from], whitespace) {
        lemma_run_end_bounds(text, from + 1, whitespace);
    }
}

/// Every token holds at least one character and ends inside the text.
pub proof fn lemma_token_end_bounds(text: Seq<char>, start: int)
    requires
        0 <= start < text.len(),
    ensures
        start < token_end(text, start) <= text.len(),
{
    lemma_quoted_end_bounds(text, start + 1);
    lemma_run_end_bounds(text, start + 1, is_whitespace_char(text[start]));
}

/// No token of a text is empty.
pub proof fn lemma_tokens_are_nonempty(text: Seq<char>, start: int)
    ensures
        tokens_are_nonempty(tokens_from(text, start)),
    decreases text.len() - start,
{
    if 0 <= start < text.len() {
        lemma_token_end_bounds(text, start);
        lemma_tokens_are_nonempty(text, token_end(text, start));
    }
}

} // verus!

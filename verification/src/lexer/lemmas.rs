//! What holds of the tokens of every text.

use vstd::prelude::*;
use super::model::continues_run;
use super::model::run_end;
use super::model::is_quote_char;
use super::model::lemma_token_end_bounds;
use super::model::line_at;
use super::model::position_at;
use super::model::quoted_end;
use super::model::token_at;
use super::model::token_end;
use super::model::tokens_from;
use super::model::tokens_of;
use super::token::is_whitespace_token;
use super::token::token_values;
use super::token::PositionView;
use super::token::Token;
use super::token::TokenView;
use super::tokenize_postgresql;

verus! {

/// `earlier` is not behind `later`: it lies on an earlier line, or on the same
/// line and not further right.
pub open spec fn position_le(earlier: PositionView, later: PositionView) -> bool {
    earlier.line < later.line || (earlier.line == later.line && earlier.column <= later.column)
}

/// Where the token with the number `k` begins, counted from the boundary
/// `start`: each token begins where the one before it ends.
pub open spec fn token_start(text: Seq<char>, start: int, k: nat) -> int
    decreases k,
{
    if k == 0 || start < 0 || start >= text.len() {
        start
    } else {
        token_start(text, token_end(text, start), (k - 1) as nat)
    }
}

/// The values of the tokens from a boundary on, put together, are the text
/// from that boundary on.
pub proof fn lemma_values_rebuild_rest(text: Seq<char>, start: int)
    requires
        0 <= start <= text.len(),
    ensures
        token_values(tokens_from(text, start)).flatten() == text.subrange(
            start,
            text.len() as int,
        ),
    decreases text.len() - start,
{
    let values = token_values(tokens_from(text, start));
    if start < text.len() {
        let end = token_end(text, start);
        lemma_token_end_bounds(text, start);
        lemma_values_rebuild_rest(text, end);
        assert(values.drop_first() =~= token_values(tokens_from(text, end)));
        assert(values.first() == text.subrange(start, end));
        assert(values.flatten() =~= text.subrange(start, text.len() as int));
    } else {
        assert(values.flatten() =~= text.subrange(start, text.len() as int));
    }
}

/// Putting the values of all tokens of a text together, in order, gives the
/// text back.
pub proof fn lemma_token_reconstruction(text: Seq<char>)
    ensures
        token_values(tokens_of(text)).flatten() == text,
{
    lemma_values_rebuild_rest(text, 0);
    assert(text.subrange(0, text.len() as int) =~= text);
}

/// A text has at most as many tokens as characters.
pub proof fn lemma_token_count_at_most_char_count(text: Seq<char>, start: int)
    requires
        0 <= start <= text.len(),
    ensures
        tokens_from(text, start).len() <= text.len() - start,
    decreases text.len() - start,
{
    if start < text.len() {
        lemma_token_end_bounds(text, start);
        lemma_token_count_at_most_char_count(text, token_end(text, start));
    }
}

/// The token with the number `k` is the one that the text holds at its start.
pub proof fn lemma_token_is_at_its_start(text: Seq<char>, start: int, k: nat)
    requires
        0 <= start <= text.len(),
        k < tokens_from(text, start).len(),
    ensures
        start <= token_start(text, start, k) < text.len(),
        tokens_from(text, start)[k as int] == token_at(text, token_start(text, start, k)),
    decreases k,
{
    lemma_token_end_bounds(text, start);
    if k > 0 {
        let end = token_end(text, start);
        assert(tokens_from(text, start).drop_first() =~= tokens_from(text, end));
        assert(tokens_from(text, start)[k as int] == tokens_from(text, start).drop_first()[k - 1]);
        lemma_token_is_at_its_start(text, end, (k - 1) as nat);
    }
}

/// A later token begins behind an earlier one, at or behind its end.
pub proof fn lemma_token_starts_increase(text: Seq<char>, start: int, i: nat, j: nat)
    requires
        0 <= start <= text.len(),
        i < j < tokens_from(text, start).len(),
    ensures
        token_end(text, token_start(text, start, i)) <= token_start(text, start, j),
    decreases i,
{
    lemma_token_end_bounds(text, start);
    let end = token_end(text, start);
    assert(tokens_from(text, start).drop_first() =~= tokens_from(text, end));
    if i == 0 {
        lemma_token_is_at_its_start(text, end, (j - 1) as nat);
    } else {
        lemma_token_starts_increase(text, end, (i - 1) as nat, (j - 1) as nat);
    }
}

/// Positions follow the text: a later index is not before an earlier one, and
/// it is on a later line where a line break lies between the two.
pub proof fn lemma_position_follows_index(text: Seq<char>, from: int, to: int)
    requires
        0 <= from <= to <= text.len(),
    ensures
        position_le(position_at(text, from), position_at(text, to)),
        (exists|k: int| from <= k < to && text[k] == '\n') ==> line_at(text, from) < line_at(
            text,
            to,
        ),
    decreases to - from,
{
    if from < to {
        lemma_position_follows_index(text, from, to - 1);
        if text[to - 1] != '\n' {
            if exists|k: int| from <= k < to && text[k] == '\n' {
                let k = choose|k: int| from <= k < to && text[k] == '\n';
                assert(from <= k < to - 1 && text[k] == '\n');
            }
        }
    }
}

/// The positions of the tokens of a text never go back, in the order of line
/// and then column; and a token that follows a line break is on a later line
/// than every token that begins before that line break.
pub proof fn lemma_position_monotonicity(text: Seq<char>, i: int, j: int)
    requires
        0 <= i <= j < tokens_of(text).len(),
    ensures
        position_le(tokens_of(text)[i].position, tokens_of(text)[j].position),
        (exists|k: int| i <= k < j && tokens_of(text)[k].value.contains('\n')) ==> tokens_of(
            text,
        )[i].position.line < tokens_of(text)[j].position.line,
{
    let tokens = tokens_of(text);
    let from = token_start(text, 0, i as nat);
    let to = token_start(text, 0, j as nat);
    lemma_token_is_at_its_start(text, 0, i as nat);
    lemma_token_is_at_its_start(text, 0, j as nat);
    if i < j {
        lemma_token_starts_increase(text, 0, i as nat, j as nat);
        lemma_token_end_bounds(text, from);
    }
    lemma_position_follows_index(text, from, to);
    if exists|k: int| i <= k < j && tokens[k].value.contains('\n') {
        let k = choose|k: int| i <= k < j && tokens[k].value.contains('\n');
        let begin = token_start(text, 0, k as nat);
        lemma_token_is_at_its_start(text, 0, k as nat);
        lemma_token_end_bounds(text, begin);
        lemma_token_starts_increase(text, 0, k as nat, j as nat);
        if i < k {
            lemma_token_starts_increase(text, 0, i as nat, k as nat);
            lemma_token_end_bounds(text, from);
        }
        let value = tokens[k].value;
        let offset = choose|offset: int| 0 <= offset < value.len() && value[offset] == '\n';
        assert(text[begin + offset] == '\n');
        assert(from <= begin + offset < to);
    }
}

/// Each token begins where the one before it ends.
pub proof fn lemma_token_start_step(text: Seq<char>, start: int, k: nat)
    requires
        0 <= start <= text.len(),
        k + 1 < tokens_from(text, start).len(),
    ensures
        token_start(text, start, k + 1) == token_end(text, token_start(text, start, k)),
    decreases k,
{
    lemma_token_end_bounds(text, start);
    let end = token_end(text, start);
    assert(tokens_from(text, start).drop_first() =~= tokens_from(text, end));
    assert(token_start(text, start, k + 1) == token_start(text, end, k));
    if k > 0 {
        lemma_token_start_step(text, end, (k - 1) as nat);
        assert(token_start(text, start, k) == token_start(text, end, (k - 1) as nat));
    }
}

/// A run takes all that continues it: the character at which it ends, if
/// there is one, does not continue it.
pub proof fn lemma_run_is_maximal(text: Seq<char>, from: int, whitespace: bool)
    requires
        0 <= from <= text.len(),
    ensures
        run_end(text, from, whitespace) < text.len() ==> !continues_run(
            text[run_end(text, from, whitespace)],
            whitespace,
        ),
    decreases text.len() - from,
{
    if from < text.len() && continues_run(text[from], whitespace) {
        lemma_run_is_maximal(text, from + 1, whitespace);
    }
}

/// The lexer puts all whitespace that stands together into one token: no
/// whitespace token follows another.
pub proof fn lemma_whitespace_tokens_are_apart(text: Seq<char>, k: int)
    requires
        0 <= k,
        k + 1 < tokens_of(text).len(),
        is_whitespace_token(tokens_of(text)[k]),
    ensures
        !is_whitespace_token(tokens_of(text)[k + 1]),
{
    let begin = token_start(text, 0, k as nat);
    let end = token_start(text, 0, (k + 1) as nat);
    lemma_token_is_at_its_start(text, 0, k as nat);
    lemma_token_is_at_its_start(text, 0, (k + 1) as nat);
    lemma_token_start_step(text, 0, k as nat);
    lemma_token_end_bounds(text, begin);
    lemma_token_end_bounds(text, end);
    assert(tokens_of(text)[k].value[0] == text[begin]);
    assert(tokens_of(text)[k + 1].value[0] == text[end]);
    lemma_run_is_maximal(text, begin + 1, true);
}

/// Tokenizing has no hidden state: two runs on the same text give the same
/// tokens.
pub proof fn lemma_tokenizing_is_repeatable(text: &str, first: Vec<Token>, second: Vec<Token>)
    requires
        call_ensures(tokenize_postgresql, (text,), first),
        call_ensures(tokenize_postgresql, (text,), second),
    ensures
        first.deep_view() == second.deep_view(),
{
}

/// A quoted run that is read from `from` on ends with the text, where the
/// text ends in a quote and holds none between `from` and that quote.
pub proof fn lemma_quoted_end_without_inner_quote(text: Seq<char>, from: int)
    requires
        0 <= from < text.len(),
        is_quote_char(text.last()),
        forall|i: int| from <= i < text.len() - 1 ==> !is_quote_char(#[trigger] text[i]),
    ensures
        quoted_end(text, from) == text.len(),
    decreases text.len() - from,
{
    if from < text.len() - 1 {
        lemma_quoted_end_without_inner_quote(text, from + 1);
    }
}

/// A text in quotes with no quote inside is one token, whatever else it holds:
/// whitespace, dots, commas and semicolons do not split it.
pub proof fn lemma_quoted_identifier_transparency(inside: Seq<char>)
    requires
        forall|i: int| 0 <= i < inside.len() ==> !is_quote_char(#[trigger] inside[i]),
    ensures
        tokens_of(seq!['"'] + inside + seq!['"']) == seq![
            TokenView {
                position: PositionView { line: 0, column: 0 },
                value: seq!['"'] + inside + seq!['"'],
            },
        ],
{
    let text = seq!['"'] + inside + seq!['"'];
    assert forall|i: int| 1 <= i < text.len() - 1 implies !is_quote_char(#[trigger] text[i]) by {
        assert(text[i] == inside[i - 1]);
    }
    lemma_quoted_end_without_inner_quote(text, 1);
    assert(token_end(text, 0) == text.len());
    assert(text.subrange(0, text.len() as int) =~= text);
    assert(tokens_from(text, text.len() as int) =~= Seq::<TokenView>::empty());
    assert(tokens_of(text) =~= seq![token_at(text, 0)]);
}

} // verus!

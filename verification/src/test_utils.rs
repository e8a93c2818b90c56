//! Building token sequences by hand, for trying the parser without the lexer.

use vstd::prelude::*;
use vstd::utf8::encode_utf8;
use crate::lexer::token::PositionView;
use crate::lexer::token::Token;
use crate::lexer::token::TokenPosition;
use crate::lexer::token::TokenView;
use crate::text::str_equals;

verus! {

/// The value of an item that counts as a line break.
pub open spec fn line_break() -> Seq<char> {
    seq!['\n']
}

/// The number of line breaks among the first `count` items.
pub open spec fn line_before(items: Seq<Seq<char>>, count: int) -> nat
    decreases count,
{
    if count <= 0 || count > items.len() {
        0
    } else if items[count - 1] == line_break() {
        line_before(items, count - 1) + 1
    } else {
        line_before(items, count - 1)
    }
}

/// The number of bytes that the first `count` items take in UTF-8, line
/// breaks left out.
pub open spec fn column_before(items: Seq<Seq<char>>, count: int) -> nat
    decreases count,
{
    if count <= 0 || count > items.len() {
        0
    } else if items[count - 1] == line_break() {
        column_before(items, count - 1)
    } else {
        column_before(items, count - 1) + encode_utf8(items[count - 1]).len()
    }
}

/// The token that stands for the item with the number `idx`.
pub open spec fn token_for_item(items: Seq<Seq<char>>, idx: int) -> TokenView {
    TokenView {
        position: PositionView {
            line: line_before(items, idx),
            column: column_before(items, idx),
        },
        value: items[idx],
    }
}

/// One token for each item, in order. An item that is a line break moves the
/// following tokens to the next line; any other item moves them to the right
/// by its length in bytes. The column is not set back at a line break.
pub fn tokens_from_str_vector(str_vector: Vec<&str>) -> (tokens: Vec<Token>)
    requires
        column_before(str_vector.deep_view(), str_vector.len() as int) <= usize::MAX,
    ensures
        tokens.deep_view() == Seq::new(
            str_vector.len() as nat,
            |idx: int| token_for_item(str_vector.deep_view(), idx),
        ),
{
    let mut tokens: Vec<Token> = vec![];
    let mut current_line: usize = 0;
    let mut current_column: usize = 0;
    let ghost items = str_vector.deep_view();
    proof {
        reveal_strlit("\n");
        assert("\n"@ =~= line_break());
    }
    let mut idx: usize = 0;
    while idx < str_vector.len()
        invariant
            items == str_vector.deep_view(),
            "\n"@ == line_break(),
            idx <= str_vector.len(),
            column_before(items, str_vector.len() as int) <= usize::MAX,
            current_line == line_before(items, idx as int),
            current_line <= idx,
            current_column == column_before(items, idx as int),
            tokens.len() == idx,
            forall|i: int| 0 <= i < idx ==> (#[trigger] tokens[i])@ == token_for_item(items, i),
        decreases str_vector.len() - idx,
    {
        let item = str_vector[idx];
        assert(item@ == items[idx as int]);
        tokens.push(
            Token {
                position: TokenPosition { line: current_line, column: current_column },
                value: String::from_str(item),
            },
        );
        proof {
            lemma_column_grows(items, idx + 1, str_vector.len() as int);
        }
        if str_equals(item, "\n") {
            current_line += 1;
        } else {
            current_column += item.as_bytes().len();
        }
        idx += 1;
    }
    proof {
        assert(tokens.deep_view() =~= Seq::new(
            str_vector.len() as nat,
            |idx: int| token_for_item(items, idx),
        ));
    }
    return tokens;
}

/// The column never goes back from one item to a later one.
pub proof fn lemma_column_grows(items: Seq<Seq<char>>, earlier: int, later: int)
    requires
        0 <= earlier <= later <= items.len(),
    ensures
        column_before(items, earlier) <= column_before(items, later),
    decreases later - earlier,
{
    if earlier < later {
        lemma_column_grows(items, earlier, later - 1);
    }
}

} // verus!

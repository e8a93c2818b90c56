//! What holds of the commands of every sequence of tokens.

use vstd::prelude::*;
use crate::lexer::lemmas::lemma_whitespace_tokens_are_apart;
use crate::lexer::model::tokens_of;
use crate::lexer::token::TokenView;
use crate::parser::ast::commands_are_well_formed;
use crate::parser::command_at;
use crate::parser::commands::sections::comma::comma;
use crate::parser::commands::sections::dot::dot;
use crate::parser::commands::sections::dot_separated_value::dot_separated_value_section;
use crate::parser::commands::sections::dot_separated_value::lemma_dot_separated_value_section_bounds;
use crate::parser::commands::sections::from_item::from_item_section;
use crate::parser::commands::sections::keywords::keyword_section;
use crate::parser::commands::sections::selected_expressions::lemma_selected_expressions_section_bounds;
use crate::parser::commands::sections::selected_expressions::selected_expression_section;
use crate::parser::commands::sections::selected_expressions::selected_expressions_section;
use crate::parser::commands::sections::semicolon::semicolon_section;
use crate::parser::commands::sections::star::star;
use crate::parser::commands::sections::whitespace::whitespace_section;
use crate::parser::commands::parse_section::SectionOutcome;
use crate::parser::commands::select::select_command;
use crate::parser::commands_from;
use crate::parser::commands_of;
use crate::parser::lemma_command_at_bounds;
use crate::parser::parse_command_result::CommandOutcome;
use crate::parser::utils::index_after_next_semicolon;
use crate::parser::utils::index_after_optional_whitespace;
use crate::lexer::token::is_whitespace_token;
use crate::parser::utils::semicolon;
use crate::text::ascii_lowercase;

verus! {

/// A select command that was read is well formed.
pub proof fn lemma_select_command_is_well_formed(tokens: Seq<TokenView>, start: int)
    ensures
        select_command(tokens, start) matches CommandOutcome::Valid(command, _)
            ==> command.well_formed(),
{
    if let SectionOutcome::Valid(expressions_idx, _) = whitespace_section(tokens, start) {
        lemma_selected_expressions_section_bounds(tokens, expressions_idx);
    }
}

/// Every command that the parser reads is well formed: a select command
/// selects at least one expression, and no expression names a schema without
/// a table.
pub proof fn lemma_commands_are_well_formed(tokens: Seq<TokenView>, start: int)
    ensures
        commands_are_well_formed(commands_from(tokens, start)),
    decreases tokens.len() + 1 - start,
{
    if 0 <= start < tokens.len() {
        lemma_command_at_bounds(tokens, start);
        lemma_select_command_is_well_formed(
            tokens,
            index_after_optional_whitespace(tokens, start) + 1,
        );
        match command_at(tokens, start) {
            CommandOutcome::Valid(command, next) => {
                lemma_commands_are_well_formed(tokens, next);
                let rest = commands_from(tokens, next);
                assert forall|i: int| 0 <= i < commands_from(tokens, start).len() implies (
                #[trigger] commands_from(tokens, start)[i]).well_formed() by {
                    if i > 0 {
                        assert(commands_from(tokens, start)[i] == rest[i - 1]);
                    }
                }
            },
            CommandOutcome::Invalid(next) => lemma_commands_are_well_formed(tokens, next),
            CommandOutcome::EndOfInput => {},
        }
    }
}

/// The two sequences hold the same tokens, but that where one holds
/// whitespace the other may hold other whitespace.
pub open spec fn same_up_to_whitespace(left: Seq<TokenView>, right: Seq<TokenView>) -> bool {
    &&& left.len() == right.len()
    &&& forall|i: int|
        0 <= i < left.len() ==> (#[trigger] left[i]).value == right[i].value || (
        is_whitespace_token(left[i]) && is_whitespace_token(right[i]))
}

/// Whether a value may be read at `idx`: no whitespace stands there.
pub open spec fn no_whitespace_at(tokens: Seq<TokenView>, idx: int) -> bool {
    0 <= idx < tokens.len() ==> !is_whitespace_token(tokens[idx])
}

/// No whitespace stands directly behind a dot or behind other whitespace.
pub open spec fn whitespace_stands_apart(tokens: Seq<TokenView>) -> bool {
    forall|i: int|
        0 <= i < tokens.len() && (is_whitespace_token(#[trigger] tokens[i]) || tokens[i].value
            == dot()) ==> no_whitespace_at(tokens, i + 1)
}

/// Whitespace is none of the tokens that the parser looks for by value.
pub proof fn lemma_whitespace_is_no_mark(token: TokenView)
    requires
        is_whitespace_token(token),
    ensures
        token.value != dot(),
        token.value != comma(),
        token.value != star(),
        token.value != semicolon(),
        ascii_lowercase(token.value) != semicolon(),
        ascii_lowercase(token.value) != "select"@,
        ascii_lowercase(token.value) != "from"@,
{
    reveal_strlit("select");
    reveal_strlit("from");
    assert(ascii_lowercase(token.value)[0] == token.value[0]);
}

/// Two sequences that are the same up to whitespace hold the same marks at
/// the same places.
pub proof fn lemma_same_marks(left: Seq<TokenView>, right: Seq<TokenView>, idx: int)
    requires
        same_up_to_whitespace(left, right),
        0 <= idx < left.len(),
    ensures
        is_whitespace_token(left[idx]) == is_whitespace_token(right[idx]),
        !is_whitespace_token(left[idx]) ==> left[idx].value == right[idx].value,
        (left[idx].value == dot()) == (right[idx].value == dot()),
        (left[idx].value == comma()) == (right[idx].value == comma()),
        (left[idx].value == semicolon()) == (right[idx].value == semicolon()),
        (ascii_lowercase(left[idx].value) == semicolon()) == (ascii_lowercase(right[idx].value)
            == semicolon()),
        (ascii_lowercase(left[idx].value) == "select"@) == (ascii_lowercase(right[idx].value)
            == "select"@),
        (ascii_lowercase(left[idx].value) == "from"@) == (ascii_lowercase(right[idx].value)
            == "from"@),
{
    if left[idx].value != right[idx].value {
        lemma_whitespace_is_no_mark(left[idx]);
        lemma_whitespace_is_no_mark(right[idx]);
    }
}

proof fn lemma_same_dot_separated_value(
    left: Seq<TokenView>,
    right: Seq<TokenView>,
    start: int,
    max_dots: nat,
)
    requires
        same_up_to_whitespace(left, right),
        whitespace_stands_apart(left),
        no_whitespace_at(left, start),
    ensures
        dot_separated_value_section(left, start, max_dots) == dot_separated_value_section(
            right,
            start,
            max_dots,
        ),
    decreases max_dots,
{
    if 0 <= start < left.len() {
        lemma_same_marks(left, right, start);
        if start + 1 < left.len() {
            lemma_same_marks(left, right, start + 1);
            if max_dots > 0 && left[start + 1].value == dot() {
                lemma_same_dot_separated_value(left, right, start + 2, (max_dots - 1) as nat);
            }
        }
    }
}

proof fn lemma_same_index_after_optional_whitespace(
    left: Seq<TokenView>,
    right: Seq<TokenView>,
    start: int,
)
    requires
        same_up_to_whitespace(left, right),
        whitespace_stands_apart(left),
    ensures
        index_after_optional_whitespace(left, start) == index_after_optional_whitespace(
            right,
            start,
        ),
        0 <= start ==> no_whitespace_at(left, index_after_optional_whitespace(left, start)),
{
    if 0 <= start < left.len() {
        lemma_same_marks(left, right, start);
    }
}

proof fn lemma_same_selected_expressions(
    left: Seq<TokenView>,
    right: Seq<TokenView>,
    start: int,
)
    requires
        same_up_to_whitespace(left, right),
        whitespace_stands_apart(left),
        no_whitespace_at(left, start),
    ensures
        selected_expressions_section(left, start) == selected_expressions_section(right, start),
    decreases left.len() - start,
{
    lemma_same_dot_separated_value(left, right, start, 2);
    lemma_dot_separated_value_section_bounds(left, start, 2);
    if let SectionOutcome::Valid(next, expression) = selected_expression_section(left, start) {
        let comma_idx = index_after_optional_whitespace(left, next);
        lemma_same_index_after_optional_whitespace(left, right, next);
        if comma_idx < left.len() {
            lemma_same_marks(left, right, comma_idx);
            if left[comma_idx].value == comma() {
                let after = index_after_optional_whitespace(left, comma_idx + 1);
                lemma_same_index_after_optional_whitespace(left, right, comma_idx + 1);
                lemma_same_selected_expressions(left, right, after);
            }
        }
    }
}

proof fn lemma_same_index_after_next_semicolon(
    left: Seq<TokenView>,
    right: Seq<TokenView>,
    start: int,
)
    requires
        same_up_to_whitespace(left, right),
    ensures
        index_after_next_semicolon(left, start) == index_after_next_semicolon(right, start),
    decreases left.len() - start,
{
    if 0 <= start < left.len() {
        lemma_same_marks(left, right, start);
        if left[start].value != semicolon() {
            lemma_same_index_after_next_semicolon(left, right, start + 1);
        }
    }
}

proof fn lemma_same_one_token_sections(left: Seq<TokenView>, right: Seq<TokenView>, idx: int)
    requires
        same_up_to_whitespace(left, right),
    ensures
        whitespace_section(left, idx) == whitespace_section(right, idx),
        keyword_section(left, idx, "from"@) == keyword_section(right, idx, "from"@),
        semicolon_section(left, idx) == semicolon_section(right, idx),
{
    if 0 <= idx < left.len() {
        lemma_same_marks(left, right, idx);
    }
}

proof fn lemma_same_select_command(left: Seq<TokenView>, right: Seq<TokenView>, start: int)
    requires
        same_up_to_whitespace(left, right),
        whitespace_stands_apart(left),
        0 <= start,
    ensures
        select_command(left, start) == select_command(right, start),
{
    lemma_same_one_token_sections(left, right, start);
    lemma_same_index_after_next_semicolon(left, right, start);
    if let SectionOutcome::Valid(expressions_idx, _) = whitespace_section(left, start) {
        assert(is_whitespace_token(left[start]));
        lemma_same_selected_expressions(left, right, expressions_idx);
        lemma_selected_expressions_section_bounds(left, expressions_idx);
        lemma_same_index_after_next_semicolon(left, right, expressions_idx);
        if let SectionOutcome::Valid(expressions_end, _) = selected_expressions_section(
            left,
            expressions_idx,
        ) {
            lemma_same_one_token_sections(left, right, expressions_end);
            lemma_same_index_after_next_semicolon(left, right, expressions_end);
            if let SectionOutcome::Valid(from_idx, _) = whitespace_section(left, expressions_end) {
                lemma_same_one_token_sections(left, right, from_idx);
                lemma_same_index_after_next_semicolon(left, right, from_idx);
                if let SectionOutcome::Valid(from_end, _) = keyword_section(
                    left,
                    from_idx,
                    "from"@,
                ) {
                    lemma_same_one_token_sections(left, right, from_end);
                    lemma_same_index_after_next_semicolon(left, right, from_end);
                    if let SectionOutcome::Valid(item_idx, _) = whitespace_section(
                        left,
                        from_end,
                    ) {
                        assert(is_whitespace_token(left[from_end]));
                        lemma_same_dot_separated_value(left, right, item_idx, 1);
                        lemma_dot_separated_value_section_bounds(left, item_idx, 1);
                        lemma_same_index_after_next_semicolon(left, right, item_idx);
                        if let SectionOutcome::Valid(item_end, _) = from_item_section(
                            left,
                            item_idx,
                        ) {
                            let semicolon_idx = index_after_optional_whitespace(left, item_end);
                            lemma_same_index_after_optional_whitespace(left, right, item_end);
                            lemma_same_one_token_sections(left, right, semicolon_idx);
                            lemma_same_index_after_next_semicolon(left, right, semicolon_idx);
                        }
                    }
                }
            }
        }
    }
}

proof fn lemma_same_command_at(left: Seq<TokenView>, right: Seq<TokenView>, start: int)
    requires
        same_up_to_whitespace(left, right),
        whitespace_stands_apart(left),
        0 <= start,
    ensures
        command_at(left, start) == command_at(right, start),
{
    let idx = index_after_optional_whitespace(left, start);
    lemma_same_index_after_optional_whitespace(left, right, start);
    if idx < left.len() {
        lemma_same_marks(left, right, idx);
        lemma_same_select_command(left, right, idx + 1);
        lemma_same_index_after_next_semicolon(left, right, idx);
    }
}

proof fn lemma_same_commands_from(left: Seq<TokenView>, right: Seq<TokenView>, start: int)
    requires
        same_up_to_whitespace(left, right),
        whitespace_stands_apart(left),
        0 <= start,
    ensures
        commands_from(left, start) == commands_from(right, start),
    decreases left.len() + 1 - start,
{
    if start < left.len() {
        lemma_same_command_at(left, right, start);
        lemma_command_at_bounds(left, start);
        match command_at(left, start) {
            CommandOutcome::Valid(_, next) => lemma_same_commands_from(left, right, next),
            CommandOutcome::Invalid(next) => lemma_same_commands_from(left, right, next),
            CommandOutcome::EndOfInput => {},
        }
    }
}

/// The parser reads whitespace without looking at what it holds: two
/// sequences of tokens that differ only in what their whitespace tokens hold
/// give the same commands. Left out are sequences with whitespace directly
/// behind a dot or behind other whitespace, where a whitespace token stands
/// in the place of a name.
pub proof fn lemma_whitespace_tolerance(left: Seq<TokenView>, right: Seq<TokenView>)
    requires
        same_up_to_whitespace(left, right),
        whitespace_stands_apart(left),
    ensures
        commands_of(left) == commands_of(right),
{
    lemma_same_commands_from(left, right, 0);
}

/// No whitespace stands directly behind a dot.
pub open spec fn no_whitespace_behind_dots(tokens: Seq<TokenView>) -> bool {
    forall|i: int|
        0 <= i < tokens.len() && (#[trigger] tokens[i]).value == dot() ==> no_whitespace_at(
            tokens,
            i + 1,
        )
}

/// How much whitespace stands between two tokens, and of which kind, does not
/// change what a text says: two texts whose tokens differ only in what their
/// whitespace tokens hold give the same commands. Left out are texts with
/// whitespace directly behind a dot, where it stands in the place of a name.
pub proof fn lemma_whitespace_tolerance_of_texts(left: Seq<char>, right: Seq<char>)
    requires
        same_up_to_whitespace(tokens_of(left), tokens_of(right)),
        no_whitespace_behind_dots(tokens_of(left)),
    ensures
        commands_of(tokens_of(left)) == commands_of(tokens_of(right)),
{
    let tokens = tokens_of(left);
    assert forall|i: int|
        0 <= i < tokens.len() && (is_whitespace_token(#[trigger] tokens[i]) || tokens[i].value
            == dot()) implies no_whitespace_at(tokens, i + 1) by {
        if is_whitespace_token(tokens[i]) && i + 1 < tokens.len() {
            lemma_whitespace_tokens_are_apart(left, i);
        }
    }
    lemma_whitespace_tolerance(tokens, tokens_of(right));
}

} // verus!

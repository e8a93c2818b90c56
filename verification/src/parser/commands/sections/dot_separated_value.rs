use vstd::prelude::*;
use crate::lexer::token::Token;
use crate::lexer::token::TokenView;
use crate::parser::commands::parse_section::ParseCommandSectionResult;
use crate::parser::commands::parse_section::SectionOutcome;
use crate::parser::commands::sections::dot::dot;
use crate::parser::commands::sections::dot::parse_dot;
use crate::parser::commands::sections::dot::parse_non_dot;

verus! {

/// The section of a name with its qualifiers: values that are no dots, with
/// one dot between each two, read from `start`.
///
/// The section takes as many values as it can get, up to `max_dots` dots. It
/// ends behind a value that no dot follows, or behind the value after the
/// last dot that it may take. A dot where a value has to stand, or the end of
/// the tokens behind a dot, is `Invalid`; the end of the tokens at `start` is
/// `EndOfInput`.
pub open spec fn dot_separated_value_section(
    tokens: Seq<TokenView>,
    start: int,
    max_dots: nat,
) -> SectionOutcome<Seq<Seq<char>>>
    decreases max_dots,
{
    if start < 0 || start >= tokens.len() {
        SectionOutcome::EndOfInput
    } else if tokens[start].value == dot() {
        SectionOutcome::Invalid
    } else if max_dots == 0 || start + 1 >= tokens.len() || tokens[start + 1].value != dot() {
        SectionOutcome::Valid(start + 1, seq![tokens[start].value])
    } else {
        match dot_separated_value_section(tokens, start + 2, (max_dots - 1) as nat) {
            SectionOutcome::Valid(next, values) => SectionOutcome::Valid(
                next,
                seq![tokens[start].value] + values,
            ),
            SectionOutcome::Invalid => SectionOutcome::Invalid,
            SectionOutcome::EndOfInput => SectionOutcome::Invalid,
        }
    }
}

/// The outcome of a section of which `values` were read before `rest`.
pub open spec fn after_values(
    values: Seq<Seq<char>>,
    rest: SectionOutcome<Seq<Seq<char>>>,
) -> SectionOutcome<Seq<Seq<char>>> {
    match rest {
        SectionOutcome::Valid(next, more) => SectionOutcome::Valid(next, values + more),
        SectionOutcome::Invalid => SectionOutcome::Invalid,
        SectionOutcome::EndOfInput => if values.len() == 0 {
            SectionOutcome::EndOfInput
        } else {
            SectionOutcome::Invalid
        },
    }
}

/// A section that was read holds between one value and one more than the
/// dots it may take, and as many tokens as its values and the dots between
/// them; none of its values is a dot.
pub proof fn lemma_dot_separated_value_section_bounds(
    tokens: Seq<TokenView>,
    start: int,
    max_dots: nat,
)
    ensures
        dot_separated_value_section(tokens, start, max_dots) matches SectionOutcome::Valid(
            next,
            values,
        ) ==> {
            &&& 1 <= values.len() <= max_dots + 1
            &&& next == start + 2 * values.len() - 1
            &&& 0 <= start < next <= tokens.len()
            &&& forall|i: int|
                0 <= i < values.len() ==> #[trigger] values[i] == tokens[start + 2 * i].value
            &&& forall|i: int| 0 <= i < values.len() ==> #[trigger] values[i] != dot()
        },
    decreases max_dots,
{
    if 0 <= start < tokens.len() && tokens[start].value != dot() && max_dots > 0 && start + 1
        < tokens.len() && tokens[start + 1].value == dot() {
        lemma_dot_separated_value_section_bounds(tokens, start + 2, (max_dots - 1) as nat);
    }
}

/// Reads a name with its qualifiers, with `max_dots` dots at most, and gives
/// back the values between the dots as they stand.
pub fn parse_dot_separated_value(tokens: &Vec<Token>, start_idx: usize, max_dots: usize) -> (result:
    ParseCommandSectionResult<Vec<String>>)
    ensures
        result.deep_view() == dot_separated_value_section(
            tokens.deep_view(),
            start_idx as int,
            max_dots as nat,
        ),
        result matches ParseCommandSectionResult::Valid(next, values) ==> 1 <= values.len()
            <= max_dots + 1 && start_idx < next <= tokens.len(),
{
    let mut remaining_dots = max_dots;
    let mut current_idx = start_idx;
    let mut separated_values: Vec<String> = Vec::new();
    let ghost whole = dot_separated_value_section(
        tokens.deep_view(),
        start_idx as int,
        max_dots as nat,
    );
    proof {
        lemma_dot_separated_value_section_bounds(
            tokens.deep_view(),
            start_idx as int,
            max_dots as nat,
        );
        assert(separated_values.deep_view() =~= Seq::<Seq<char>>::empty());
        assert(after_values(separated_values.deep_view(), whole) == whole) by {
            if let SectionOutcome::Valid(next, more) = whole {
                assert(Seq::<Seq<char>>::empty() + more =~= more);
            }
        }
    }
    loop
        invariant_except_break
            whole == after_values(
                separated_values.deep_view(),
                dot_separated_value_section(
                    tokens.deep_view(),
                    current_idx as int,
                    remaining_dots as nat,
                ),
            ),
            start_idx <= current_idx,
            (separated_values.len() == 0) == (current_idx == start_idx),
        invariant
            whole == dot_separated_value_section(
                tokens.deep_view(),
                start_idx as int,
                max_dots as nat,
            ),
        ensures
            whole == SectionOutcome::Valid(current_idx as int, separated_values.deep_view()),
        decreases remaining_dots,
    {
        let ghost values = separated_values.deep_view();
        match parse_non_dot(tokens, current_idx) {
            ParseCommandSectionResult::Valid(idx_after_value, value) => {
                let ghost value_seq = value@;
                separated_values.push(value);
                assert(separated_values.deep_view() =~= values + seq![value_seq]);
                current_idx = idx_after_value;
                if remaining_dots == 0 {
                    break ;
                }
                match parse_dot(tokens, idx_after_value) {
                    ParseCommandSectionResult::Valid(idx_after_dot, _) => {
                        current_idx = idx_after_dot;
                        remaining_dots -= 1;
                        proof {
                            let rest = dot_separated_value_section(
                                tokens.deep_view(),
                                current_idx as int,
                                remaining_dots as nat,
                            );
                            if let SectionOutcome::Valid(next, more) = rest {
                                assert(values + (seq![value_seq] + more) =~= (values
                                    + seq![value_seq]) + more);
                            }
                        }
                    },
                    ParseCommandSectionResult::Invalid | ParseCommandSectionResult::EndOfInput => {
                        break ;
                    },
                }
            },
            ParseCommandSectionResult::Invalid => return ParseCommandSectionResult::Invalid,
            ParseCommandSectionResult::EndOfInput => {
                if current_idx == start_idx {
                    return ParseCommandSectionResult::EndOfInput;
                }
                return ParseCommandSectionResult::Invalid;
            },
        }
    }
    return ParseCommandSectionResult::Valid(current_idx, separated_values);
}

} // verus!

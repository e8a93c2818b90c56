use vstd::prelude::*;
use crate::lexer::token::TokenView;

verus! {

/// How the parse of one section ended: with the index behind the section and
/// what was read, with tokens that do not fit, or at the end of the tokens.
#[derive(Debug, PartialEq)]
pub enum ParseCommandSectionResult<TParsedData> {
    Valid(usize, TParsedData),
    Invalid,
    EndOfInput,
}

/// The mathematical value of a [`ParseCommandSectionResult`].
pub enum SectionOutcome<V> {
    Valid(int, V),
    Invalid,
    EndOfInput,
}

impl<TParsedData: DeepView> DeepView for ParseCommandSectionResult<TParsedData> {
    type V = SectionOutcome<TParsedData::V>;

    open spec fn deep_view(&self) -> SectionOutcome<TParsedData::V> {
        match self {
            ParseCommandSectionResult::Valid(next, data) => SectionOutcome::Valid(
                *next as int,
                data.deep_view(),
            ),
            ParseCommandSectionResult::Invalid => SectionOutcome::Invalid,
            ParseCommandSectionResult::EndOfInput => SectionOutcome::EndOfInput,
        }
    }
}

/// The outcome of a section that is one token long: it needs a token at
/// `idx`, and that token has to be `accepted`.
pub open spec fn one_token_section<V>(
    tokens: Seq<TokenView>,
    idx: int,
    accepted: bool,
    datum: V,
) -> SectionOutcome<V> {
    if idx < 0 || idx >= tokens.len() {
        SectionOutcome::EndOfInput
    } else if accepted {
        SectionOutcome::Valid(idx + 1, datum)
    } else {
        SectionOutcome::Invalid
    }
}

} // verus!

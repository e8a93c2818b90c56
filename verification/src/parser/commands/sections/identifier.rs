use vstd::prelude::*;
use crate::lexer::token::Token;
use crate::lexer::token::TokenView;
use crate::parser::ast::Identifier;
use crate::parser::ast::IdentifierView;
use crate::parser::commands::parse_section::one_token_section;
use crate::parser::commands::parse_section::ParseCommandSectionResult;
use crate::parser::commands::parse_section::SectionOutcome;
use crate::parser::commands::sections::comma::comma;
use crate::parser::commands::sections::dot::dot;
use crate::parser::utils::parse_simple_token;
use crate::parser::utils::semicolon;
use crate::text::char_is_alphabetic;
use crate::text::char_is_alphanumeric;
use crate::text::str_equals;

verus! {

/// How the reading of one value ended: with what was read, or with a value
/// that does not fit.
#[derive(Debug, PartialEq)]
pub enum SimpleParseResult<TParsedData> {
    Valid(TParsedData),
    Invalid,
}

impl<TParsedData: DeepView> DeepView for SimpleParseResult<TParsedData> {
    type V = Option<TParsedData::V>;

    open spec fn deep_view(&self) -> Option<TParsedData::V> {
        match self {
            SimpleParseResult::Valid(data) => Some(data.deep_view()),
            SimpleParseResult::Invalid => None,
        }
    }
}

/// The values of the tokens that separate names and commands.
pub open spec fn is_reserved_delimiter(value: Seq<char>) -> bool {
    value == dot() || value == comma() || value == semicolon()
}

/// The section of a name as the lexer sees it: one token that is not empty
/// and no reserved delimiter. Whether the token is a name is decided when it
/// is read with [`identifier_of`].
pub open spec fn identifier_section(tokens: Seq<TokenView>, idx: int) -> SectionOutcome<
    Seq<char>,
> {
    one_token_section(
        tokens,
        idx,
        tokens[idx].value.len() > 0 && !is_reserved_delimiter(tokens[idx].value),
        tokens[idx].value,
    )
}

/// Reads one token that may be a name, and gives back its value.
pub fn parse_identifier(tokens: &Vec<Token>, idx: usize) -> (result: ParseCommandSectionResult<
    String,
>)
    ensures
        result.deep_view() == identifier_section(tokens.deep_view(), idx as int),
{
    proof {
        reveal_strlit(".");
        reveal_strlit(",");
        reveal_strlit(";");
        reveal_strlit("");
        assert("."@ =~= dot());
        assert(","@ =~= comma());
        assert(";"@ =~= semicolon());
        assert(""@ =~= Seq::<char>::empty());
    }
    let parse_test = |token: &Token| -> (accepted: bool)
        ensures
            accepted == (token@.value.len() > 0 && !is_reserved_delimiter(token@.value)),
        {
            let value = token.value.as_str();
            proof {
                if value@.len() == 0 {
                    assert(value@ =~= Seq::<char>::empty());
                }
            }
            !str_equals(value, "") && !str_equals(value, ".") && !str_equals(value, ",")
                && !str_equals(value, ";")
        };
    let extract_parsed_data = |token: &Token| -> (value: String)
        ensures
            value@ == token@.value,
        { token.value.clone() };
    return parse_simple_token(tokens, idx, parse_test, extract_parsed_data);
}

/// A quoted name: a quote at each end. Nothing has to stand between the two
/// quotes; one quote alone is no quoted name.
pub open spec fn is_quoted_identifier(value: Seq<char>) -> bool {
    value.len() >= 2 && value[0] == '"' && value[value.len() - 1] == '"'
}

/// An unquoted name may start with a letter or an underscore.
pub open spec fn is_unquoted_identifier_start(character: char) -> bool {
    character == '_' || char_is_alphabetic(character)
}

/// An unquoted name may hold letters, digits, underscores and dollar signs.
pub open spec fn is_unquoted_identifier_char(character: char) -> bool {
    character == '_' || character == '$' || char_is_alphanumeric(character)
}

/// An unquoted name: not empty, a start character first, and name characters
/// throughout.
pub open spec fn is_unquoted_identifier_value(value: Seq<char>) -> bool {
    &&& value.len() > 0
    &&& is_unquoted_identifier_start(value[0])
    &&& forall|i: int| 0 <= i < value.len() ==> is_unquoted_identifier_char(#[trigger] value[i])
}

/// The name that `value` is: a quoted one without its quotes, an unquoted one
/// as it stands, or none.
pub open spec fn identifier_of(value: Seq<char>) -> Option<IdentifierView> {
    if is_quoted_identifier(value) {
        Some(IdentifierView { quoted: true, value: value.subrange(1, value.len() - 1) })
    } else if is_unquoted_identifier_value(value) {
        Some(IdentifierView { quoted: false, value: value })
    } else {
        None
    }
}

/// The names that `values` are, if each of them is one.
pub open spec fn identifiers_of(values: Seq<Seq<char>>) -> Option<Seq<IdentifierView>> {
    if forall|i: int| 0 <= i < values.len() ==> (#[trigger] identifier_of(values[i])) is Some {
        Some(values.map_values(|value: Seq<char>| identifier_of(value)->0))
    } else {
        None
    }
}

/// Values that were read as names one by one are names together: where
/// `identifiers` holds, place by place, the name that each of `values` is,
/// it is what `values` are read as.
pub proof fn lemma_identifiers_read(values: Seq<Seq<char>>, identifiers: Seq<IdentifierView>)
    requires
        identifiers.len() == values.len(),
        forall|i: int|
            0 <= i < values.len() ==> identifier_of(values[i]) == Some(#[trigger] identifiers[i]),
    ensures
        identifiers_of(values) == Some(identifiers),
{
    assert forall|i: int| 0 <= i < values.len() implies (#[trigger] identifier_of(
        values[i],
    )) is Some by {
        assert(identifier_of(values[i]) == Some(identifiers[i]));
    }
    assert(identifiers =~= identifiers_of(values)->0) by {
        assert forall|i: int| 0 <= i < values.len() implies identifiers[i] == identifiers_of(
            values,
        )->0[i] by {
            assert(identifier_of(values[i]) == Some(identifiers[i]));
        }
    }
}

/// Reads each of `separated_values` as a name, and fails where one of them is
/// none.
pub fn parse_identifiers_from_dot_separated_values(separated_values: Vec<String>) -> (result:
    SimpleParseResult<Vec<Identifier>>)
    ensures
        result.deep_view() == identifiers_of(separated_values.deep_view()),
{
    let mut identifiers: Vec<Identifier> = Vec::new();
    let ghost values = separated_values.deep_view();
    for value in it: separated_values.iter()
        invariant
            it.seq().len() == separated_values.len(),
            forall|i: int| 0 <= i < it.seq().len() ==> *(#[trigger] it.seq()[i]) == separated_values[i],
            values == separated_values.deep_view(),
            identifiers.len() == it.index(),
            forall|i: int|
                0 <= i < it.index() ==> identifier_of(values[i]) == Some(
                    (#[trigger] identifiers[i])@,
                ),
    {
        assert(value@ == values[it.index()]);
        match parse_identifier_token_value(value) {
            SimpleParseResult::Valid(identifier) => identifiers.push(identifier),
            SimpleParseResult::Invalid => return SimpleParseResult::Invalid,
        }
    }
    proof {
        lemma_identifiers_read(values, identifiers.deep_view());
    }
    return SimpleParseResult::Valid(identifiers);
}

/// Reads `token_value` as a name: as a quoted one where it can be one, else
/// as an unquoted one.
pub fn parse_identifier_token_value(token_value: &String) -> (result: SimpleParseResult<Identifier>)
    ensures
        result.deep_view() == identifier_of(token_value@),
{
    return match parse_quoted_identifier_token_value(token_value) {
        SimpleParseResult::Valid(identifier) => SimpleParseResult::Valid(identifier),
        SimpleParseResult::Invalid => parse_unquoted_identifier_token_value(token_value),
    };
}

/// Reads `token_value` as a quoted name, and takes the quotes off.
fn parse_quoted_identifier_token_value(token_value: &String) -> (result: SimpleParseResult<
    Identifier,
>)
    ensures
        result.deep_view() == if is_quoted_identifier(token_value@) {
            identifier_of(token_value@)
        } else {
            None
        },
{
    let mut identifier_value = String::new();
    let char_count = token_value.as_str().unicode_len();
    if char_count < 2 {
        return SimpleParseResult::Invalid;
    }
    let mut idx: usize = 0;
    for character in it: token_value.as_str().chars()
        invariant
            it.seq() == token_value@,
            char_count == token_value@.len(),
            char_count >= 2,
            idx == it.index(),
            idx > 0 ==> token_value@[0] == '"',
            idx == char_count ==> token_value@[char_count - 1] == '"',
            identifier_value@ == if idx == 0 {
                Seq::<char>::empty()
            } else if idx == char_count {
                token_value@.subrange(1, char_count - 1)
            } else {
                token_value@.subrange(1, idx as int)
            },
    {
        if idx == 0 || idx == char_count - 1 {
            if character != '"' {
                return SimpleParseResult::Invalid;
            }
            proof {
                if idx == 0 {
                    assert(identifier_value@ =~= token_value@.subrange(1, 1));
                }
            }
        } else {
            identifier_value.push(character);
            assert(identifier_value@ =~= token_value@.subrange(1, idx + 1));
        }
        idx += 1;
    }
    return SimpleParseResult::Valid(Identifier { quoted: true, value: identifier_value });
}

/// Reads `token_value` as an unquoted name.
fn parse_unquoted_identifier_token_value(token_value: &String) -> (result: SimpleParseResult<
    Identifier,
>)
    ensures
        result.deep_view() == if is_unquoted_identifier_value(token_value@) {
            Some(IdentifierView { quoted: false, value: token_value@ })
        } else {
            None
        },
{
    if !is_unquoted_identifier(&token_value) {
        return SimpleParseResult::Invalid;
    }
    return SimpleParseResult::Valid(Identifier { quoted: false, value: token_value.clone() });
}

/// Whether `token_value` can stand as a name without quotes.
fn is_unquoted_identifier(token_value: &String) -> (result: bool)
    ensures
        result == is_unquoted_identifier_value(token_value@),
{
    let mut first = true;
    for character in it: token_value.as_str().chars()
        invariant
            it.seq() == token_value@,
            first == (it.index() == 0),
            it.index() > 0 ==> is_unquoted_identifier_start(token_value@[0]),
            forall|i: int|
                0 <= i < it.index() ==> is_unquoted_identifier_char(#[trigger] token_value@[i]),
    {
        if first && !char_is_valid_unquoted_identifier_start(character) {
            return false;
        }
        if !(character == '_' || character == '$' || character.is_alphanumeric()) {
            return false;
        }
        first = false;
    }
    return !first;
}

/// Whether an unquoted name may start with `character`.
fn char_is_valid_unquoted_identifier_start(character: char) -> (result: bool)
    ensures
        result == is_unquoted_identifier_start(character),
{
    return character == '_' || character.is_alphabetic();
}

} // verus!

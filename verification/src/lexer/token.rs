use vstd::prelude::*;
use super::is_whitespace_char;

verus! {

/// Where a token starts in the source text: both coordinates count from zero.
#[derive(Debug, PartialEq)]
pub struct TokenPosition {
    pub line: usize,
    pub column: usize,
}

impl Clone for TokenPosition {
    fn clone(&self) -> (copy: Self)
        ensures
            copy == *self,
    {
        TokenPosition { line: self.line, column: self.column }
    }
}

/// The mathematical value of a [`TokenPosition`].
pub struct PositionView {
    pub line: nat,
    pub column: nat,
}

impl View for TokenPosition {
    type V = PositionView;

    open spec fn view(&self) -> PositionView {
        PositionView { line: self.line as nat, column: self.column as nat }
    }
}

impl DeepView for TokenPosition {
    type V = PositionView;

    open spec fn deep_view(&self) -> PositionView {
        self.view()
    }
}

/// A run of source characters that the lexer grouped together, with the
/// position of its first character.
#[derive(Debug, PartialEq)]
pub struct Token {
    pub position: TokenPosition,
    pub value: String,
}

impl Clone for Token {
    fn clone(&self) -> (copy: Self)
        ensures
            copy@ == self@,
    {
        Token { position: self.position.clone(), value: self.value.clone() }
    }
}

/// The mathematical value of a [`Token`].
pub struct TokenView {
    pub position: PositionView,
    pub value: Seq<char>,
}

impl View for Token {
    type V = TokenView;

    open spec fn view(&self) -> TokenView {
        TokenView { position: self.position@, value: self.value@ }
    }
}

impl DeepView for Token {
    type V = TokenView;

    open spec fn deep_view(&self) -> TokenView {
        self.view()
    }
}

impl Token {
    /// A token that starts at `position` and holds the one character `c`.
    pub fn new(position: TokenPosition, c: char) -> (token: Token)
        ensures
            token@ == (TokenView { position: position@, value: seq![c] }),
    {
        let mut value = String::new();
        value.push(c);
        proof {
            assert(value@ =~= seq![c]);
        }
        return Token { position: position, value: value };
    }

    /// The same token with `c` added at the end of its value.
    pub fn append(self, c: char) -> (token: Token)
        ensures
            token@ == (TokenView { position: self@.position, value: self@.value.push(c) }),
    {
        let mut token = self;
        token.value.push(c);
        return token;
    }
}

/// Whether `token` is a run of whitespace: the lexer never mixes whitespace
/// with other characters, so the first character decides.
pub open spec fn is_whitespace_token(token: TokenView) -> bool {
    token.value.len() > 0 && is_whitespace_char(token.value[0])
}

/// The values of `tokens`, in order.
pub open spec fn token_values(tokens: Seq<TokenView>) -> Seq<Seq<char>> {
    tokens.map_values(|token: TokenView| token.value)
}

/// No token of `tokens` is empty.
pub open spec fn tokens_are_nonempty(tokens: Seq<TokenView>) -> bool {
    forall|i: int| 0 <= i < tokens.len() ==> (#[trigger] tokens[i]).value.len() > 0
}

} // verus!

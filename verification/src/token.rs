use vstd::prelude::*;

verus! {

/// The closed set of instruction keywords.
#[derive(Debug, Clone, Copy, PartialEq, Eq, Structural)]
pub enum Operator {
    Print,
    Await,
    Accept,
    Foreground,
    Background,
    Move,
    Shift,
    StringAssign,
    NumberAssign,
    ColorAssign,
}

/// One token of a script. Tokens are built once by the tokenizer and only read
/// afterwards.
#[derive(Debug, Clone, PartialEq, Eq)]
pub enum Token {
    Operator(Operator),
    Separator,
    Identifier(String),
    Literal(String),
}

/// What a token is, with its text as a sequence of characters.
pub enum TokenView {
    Operator(Operator),
    Separator,
    Identifier(Seq<char>),
    Literal(Seq<char>),
}

impl View for Token {
    type V = TokenView;

    open spec fn view(&self) -> TokenView {
        match *self {
            Token::Operator(op) => TokenView::Operator(op),
            Token::Separator => TokenView::Separator,
            Token::Identifier(name) => TokenView::Identifier(name@),
            Token::Literal(text) => TokenView::Literal(text@),
        }
    }
}

/// The views of a run of tokens, in order.
pub open spec fn token_views(tokens: Seq<Token>) -> Seq<TokenView> {
    Seq::new(tokens.len(), |i: int| tokens[i]@)
}

} // verus!

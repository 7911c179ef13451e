//! The tokens the scanner produces.

use vstd::prelude::*;

verus! {

/// The reserved words of the language.
///
/// The scanner defines this set but never consults it: scanned identifier
/// text is not checked against it, so `Token::Keyword` is never produced.
/// Whether keyword recognition should be added is an open question of the
/// lexical grammar; the variant is kept as declared.
#[derive(Debug, PartialEq, Eq, Clone, Copy)]
pub enum Keyword {
    Function,
    Let,
    Const,
}

/// One lexical token. Tokens are immutable values; the scanner produces
/// them in input order.
#[derive(Debug, PartialEq, Clone)]
pub enum Token {
    /// Never produced by the scanner (see `Keyword`).
    Keyword { value: Keyword },
    Identifier { value: String },
    LeftParens,
    RightParens,
    LeftCurly,
    RightCurly,
    LeftBracket,
    RightBracket,
    Dot,
    SemiColon,
    Colon,
    /// The text between the quotes; the quotes themselves are stripped.
    StringLiteral { value: String },
    /// The raw matched slice, untyped: letters may follow the leading digit.
    NumberLiteral { value: String },
    Equals,
    Plus,
    Minus,
    Multiply,
    Division,
}

/// The mathematical shape of a token: the same variants, with the carried
/// text as a sequence of characters. Contracts speak of these.
pub enum TokenView {
    Keyword { value: Keyword },
    Identifier { value: Seq<char> },
    LeftParens,
    RightParens,
    LeftCurly,
    RightCurly,
    LeftBracket,
    RightBracket,
    Dot,
    SemiColon,
    Colon,
    StringLiteral { value: Seq<char> },
    NumberLiteral { value: Seq<char> },
    Equals,
    Plus,
    Minus,
    Multiply,
    Division,
}

impl View for Token {
    type V = TokenView;

    open spec fn view(&self) -> TokenView {
        match self {
            Token::Keyword { value } => TokenView::Keyword { value: *value },
            Token::Identifier { value } => TokenView::Identifier { value: value@ },
            Token::LeftParens => TokenView::LeftParens,
            Token::RightParens => TokenView::RightParens,
            Token::LeftCurly => TokenView::LeftCurly,
            Token::RightCurly => TokenView::RightCurly,
            Token::LeftBracket => TokenView::LeftBracket,
            Token::RightBracket => TokenView::RightBracket,
            Token::Dot => TokenView::Dot,
            Token::SemiColon => TokenView::SemiColon,
            Token::Colon => TokenView::Colon,
            Token::StringLiteral { value } => TokenView::StringLiteral { value: value@ },
            Token::NumberLiteral { value } => TokenView::NumberLiteral { value: value@ },
            Token::Equals => TokenView::Equals,
            Token::Plus => TokenView::Plus,
            Token::Minus => TokenView::Minus,
            Token::Multiply => TokenView::Multiply,
            Token::Division => TokenView::Division,
        }
    }
}

impl DeepView for Token {
    type V = TokenView;

    open spec fn deep_view(&self) -> TokenView {
        self.view()
    }
}

} // verus!

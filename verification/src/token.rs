//! Tokens produced by the lexer: their kinds, operators, keywords, and the
//! mathematical views that the contracts of the lexer and parser speak of.

use vstd::prelude::*;

verus! {

/// The keywords of the language.
#[derive(Debug, PartialEq, Eq, Clone, Copy, Structural)]
pub enum KeyWords {
    Let,
    If,
    Else,
    Fn,
    Bool,
    While,
    For,
    Return,
    Number,
    String,
    Use,
    Const,
}

/// The comparison and assignment operators. `Invalid` carries the
/// lookahead characters that could not be read as an operator.
#[derive(Debug, PartialEq)]
pub enum Operators {
    EqEq,
    Eq,
    Less,
    LessEq,
    More,
    MoreEq,
    Invalid(Vec<char>),
}

/// Mathematical model of an operator.
pub enum OperatorsView {
    EqEq,
    Eq,
    Less,
    LessEq,
    More,
    MoreEq,
    Invalid(Seq<char>),
}

impl View for Operators {
    type V = OperatorsView;

    open spec fn view(&self) -> OperatorsView {
        match self {
            Operators::EqEq => OperatorsView::EqEq,
            Operators::Eq => OperatorsView::Eq,
            Operators::Less => OperatorsView::Less,
            Operators::LessEq => OperatorsView::LessEq,
            Operators::More => OperatorsView::More,
            Operators::MoreEq => OperatorsView::MoreEq,
            Operators::Invalid(cs) => OperatorsView::Invalid(cs@),
        }
    }
}

/// The kinds of token the lexer can emit.
#[derive(Debug, PartialEq)]
pub enum TokenType {
    Identifier,
    Number,
    String,
    Operator(Operators),
    Keyword(KeyWords),
    Dot,
    Comma,
    Space,
    SemiColon,
    Colon,
    Invalid,
    Min,
    Plus,
    OpenBrace,
    CloseBrace,
    OpenBracket,
    CloseBracket,
    OpenCurlyBracket,
    CloseCurlyBracket,
    Comment,
    Slash,
}

/// Mathematical model of a token kind.
pub enum TokenTypeView {
    Identifier,
    Number,
    String,
    Operator(OperatorsView),
    Keyword(KeyWords),
    Dot,
    Comma,
    Space,
    SemiColon,
    Colon,
    Invalid,
    Min,
    Plus,
    OpenBrace,
    CloseBrace,
    OpenBracket,
    CloseBracket,
    OpenCurlyBracket,
    CloseCurlyBracket,
    Comment,
    Slash,
}

impl View for TokenType {
    type V = TokenTypeView;

    open spec fn view(&self) -> TokenTypeView {
        match self {
            TokenType::Identifier => TokenTypeView::Identifier,
            TokenType::Number => TokenTypeView::Number,
            TokenType::String => TokenTypeView::String,
            TokenType::Operator(op) => TokenTypeView::Operator(op@),
            TokenType::Keyword(kw) => TokenTypeView::Keyword(*kw),
            TokenType::Dot => TokenTypeView::Dot,
            TokenType::Comma => TokenTypeView::Comma,
            TokenType::Space => TokenTypeView::Space,
            TokenType::SemiColon => TokenTypeView::SemiColon,
            TokenType::Colon => TokenTypeView::Colon,
            TokenType::Invalid => TokenTypeView::Invalid,
            TokenType::Min => TokenTypeView::Min,
            TokenType::Plus => TokenTypeView::Plus,
            TokenType::OpenBrace => TokenTypeView::OpenBrace,
            TokenType::CloseBrace => TokenTypeView::CloseBrace,
            TokenType::OpenBracket => TokenTypeView::OpenBracket,
            TokenType::CloseBracket => TokenTypeView::CloseBracket,
            TokenType::OpenCurlyBracket => TokenTypeView::OpenCurlyBracket,
            TokenType::CloseCurlyBracket => TokenTypeView::CloseCurlyBracket,
            TokenType::Comment => TokenTypeView::Comment,
            TokenType::Slash => TokenTypeView::Slash,
        }
    }
}

/// A token: its kind, its literal text, and the source line it was read on.
#[derive(Debug, PartialEq)]
pub struct Token {
    pub token_type: TokenType,
    pub value: String,
    pub line: usize,
}

/// Mathematical model of a token.
pub struct TokenView {
    pub kind: TokenTypeView,
    pub text: Seq<char>,
    pub line: nat,
}

impl View for Token {
    type V = TokenView;

    open spec fn view(&self) -> TokenView {
        TokenView { kind: self.token_type@, text: self.value@, line: self.line as nat }
    }
}

impl Clone for Operators {
    /// Clone the operator, keeping what it carries.
    fn clone(&self) -> (r: Self)
        ensures
            r@ == self@,
    {
        match self {
            Operators::EqEq => Operators::EqEq,
            Operators::Eq => Operators::Eq,
            Operators::Less => Operators::Less,
            Operators::LessEq => Operators::LessEq,
            Operators::More => Operators::More,
            Operators::MoreEq => Operators::MoreEq,
            Operators::Invalid(cs) => {
                let copy = cs.clone();
                proof {
                    assert(copy@ =~= cs@);
                }
                Operators::Invalid(copy)
            },
        }
    }
}

impl Clone for TokenType {
    /// Clone the token kind, keeping what it carries.
    fn clone(&self) -> (r: Self)
        ensures
            r@ == self@,
    {
        match self {
            TokenType::Identifier => TokenType::Identifier,
            TokenType::Number => TokenType::Number,
            TokenType::String => TokenType::String,
            TokenType::Operator(op) => TokenType::Operator(op.clone()),
            TokenType::Keyword(kw) => TokenType::Keyword(*kw),
            TokenType::Dot => TokenType::Dot,
            TokenType::Comma => TokenType::Comma,
            TokenType::Space => TokenType::Space,
            TokenType::SemiColon => TokenType::SemiColon,
            TokenType::Colon => TokenType::Colon,
            TokenType::Invalid => TokenType::Invalid,
            TokenType::Min => TokenType::Min,
            TokenType::Plus => TokenType::Plus,
            TokenType::OpenBrace => TokenType::OpenBrace,
            TokenType::CloseBrace => TokenType::CloseBrace,
            TokenType::OpenBracket => TokenType::OpenBracket,
            TokenType::CloseBracket => TokenType::CloseBracket,
            TokenType::OpenCurlyBracket => TokenType::OpenCurlyBracket,
            TokenType::CloseCurlyBracket => TokenType::CloseCurlyBracket,
            TokenType::Comment => TokenType::Comment,
            TokenType::Slash => TokenType::Slash,
        }
    }
}

impl Clone for Token {
    /// Clone the token, keeping its kind, text and line.
    fn clone(&self) -> (r: Self)
        ensures
            r@ == self@,
    {
        Token { token_type: self.token_type.clone(), value: self.value.clone(), line: self.line }
    }
}

impl Token {
    /// Build a token from a kind, its text and its line number.
    pub fn new(token_type: TokenType, value: &str, line: usize) -> (t: Token)
        ensures
            t@ == (TokenView { kind: token_type@, text: value@, line: line as nat }),
    {
        Token { token_type, value: value.to_owned(), line }
    }
}

/// Whether two operator values are the same operator (an `Invalid`
/// operator counts as the same as another `Invalid` one exactly when they
/// carry the same characters).
pub open spec fn op_eqv(a: OperatorsView, b: OperatorsView) -> bool {
    match (a, b) {
        (OperatorsView::EqEq, OperatorsView::EqEq) => true,
        (OperatorsView::Eq, OperatorsView::Eq) => true,
        (OperatorsView::Less, OperatorsView::Less) => true,
        (OperatorsView::LessEq, OperatorsView::LessEq) => true,
        (OperatorsView::More, OperatorsView::More) => true,
        (OperatorsView::MoreEq, OperatorsView::MoreEq) => true,
        (OperatorsView::Invalid(x), OperatorsView::Invalid(y)) => x == y,
        _ => false,
    }
}

/// Whether two token kinds are the same kind.
pub open spec fn tt_eqv(a: TokenTypeView, b: TokenTypeView) -> bool {
    match (a, b) {
        (TokenTypeView::Identifier, TokenTypeView::Identifier) => true,
        (TokenTypeView::Number, TokenTypeView::Number) => true,
        (TokenTypeView::String, TokenTypeView::String) => true,
        (TokenTypeView::Operator(x), TokenTypeView::Operator(y)) => op_eqv(x, y),
        (TokenTypeView::Keyword(x), TokenTypeView::Keyword(y)) => x == y,
        (TokenTypeView::Dot, TokenTypeView::Dot) => true,
        (TokenTypeView::Comma, TokenTypeView::Comma) => true,
        (TokenTypeView::Space, TokenTypeView::Space) => true,
        (TokenTypeView::SemiColon, TokenTypeView::SemiColon) => true,
        (TokenTypeView::Colon, TokenTypeView::Colon) => true,
        (TokenTypeView::Invalid, TokenTypeView::Invalid) => true,
        (TokenTypeView::Min, TokenTypeView::Min) => true,
        (TokenTypeView::Plus, TokenTypeView::Plus) => true,
        (TokenTypeView::OpenBrace, TokenTypeView::OpenBrace) => true,
        (TokenTypeView::CloseBrace, TokenTypeView::CloseBrace) => true,
        (TokenTypeView::OpenBracket, TokenTypeView::OpenBracket) => true,
        (TokenTypeView::CloseBracket, TokenTypeView::CloseBracket) => true,
        (TokenTypeView::OpenCurlyBracket, TokenTypeView::OpenCurlyBracket) => true,
        (TokenTypeView::CloseCurlyBracket, TokenTypeView::CloseCurlyBracket) => true,
        (TokenTypeView::Comment, TokenTypeView::Comment) => true,
        (TokenTypeView::Slash, TokenTypeView::Slash) => true,
        _ => false,
    }
}

/// Decide whether two operator values are the same operator.
pub fn op_eq(a: &Operators, b: &Operators) -> (r: bool)
    ensures
        r == op_eqv(a@, b@),
{
    match (a, b) {
        (Operators::EqEq, Operators::EqEq) => true,
        (Operators::Eq, Operators::Eq) => true,
        (Operators::Less, Operators::Less) => true,
        (Operators::LessEq, Operators::LessEq) => true,
        (Operators::More, Operators::More) => true,
        (Operators::MoreEq, Operators::MoreEq) => true,
        (Operators::Invalid(x), Operators::Invalid(y)) => crate::text::chars_eq(x, y),
        _ => false,
    }
}

/// Decide whether two token kinds are the same kind.
pub fn tt_eq(a: &TokenType, b: &TokenType) -> (r: bool)
    ensures
        r == tt_eqv(a@, b@),
{
    match (a, b) {
        (TokenType::Identifier, TokenType::Identifier) => true,
        (TokenType::Number, TokenType::Number) => true,
        (TokenType::String, TokenType::String) => true,
        (TokenType::Operator(x), TokenType::Operator(y)) => op_eq(x, y),
        (TokenType::Keyword(x), TokenType::Keyword(y)) => x == y,
        (TokenType::Dot, TokenType::Dot) => true,
        (TokenType::Comma, TokenType::Comma) => true,
        (TokenType::Space, TokenType::Space) => true,
        (TokenType::SemiColon, TokenType::SemiColon) => true,
        (TokenType::Colon, TokenType::Colon) => true,
        (TokenType::Invalid, TokenType::Invalid) => true,
        (TokenType::Min, TokenType::Min) => true,
        (TokenType::Plus, TokenType::Plus) => true,
        (TokenType::OpenBrace, TokenType::OpenBrace) => true,
        (TokenType::CloseBrace, TokenType::CloseBrace) => true,
        (TokenType::OpenBracket, TokenType::OpenBracket) => true,
        (TokenType::CloseBracket, TokenType::CloseBracket) => true,
        (TokenType::OpenCurlyBracket, TokenType::OpenCurlyBracket) => true,
        (TokenType::CloseCurlyBracket, TokenType::CloseCurlyBracket) => true,
        (TokenType::Comment, TokenType::Comment) => true,
        (TokenType::Slash, TokenType::Slash) => true,
        _ => false,
    }
}

} // verus!

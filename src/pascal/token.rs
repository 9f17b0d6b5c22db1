//! Tokens of the language.
use vstd::prelude::*;

verus! {

#[derive(Debug, Clone)]
pub enum Token {
    Integer(i32),
    Plus,
    Minus,
    Multiply,
    Divide,
    LParen,
    RParen,
    Begin,
    End,
    Semi,
    Dot,
    Assign,
    Id(String),
    Eof,
}

/// A token with its identifier as a character sequence.
pub enum TokenModel {
    Integer(i32),
    Plus,
    Minus,
    Multiply,
    Divide,
    LParen,
    RParen,
    Begin,
    End,
    Semi,
    Dot,
    Assign,
    Id(Seq<char>),
    Eof,
}

/// Whether two token models are of the same kind, whatever they carry.
pub open spec fn same_kind_model(a: TokenModel, b: TokenModel) -> bool {
    match (a, b) {
        (TokenModel::Integer(_), TokenModel::Integer(_)) => true,
        (TokenModel::Id(_), TokenModel::Id(_)) => true,
        (TokenModel::Plus, TokenModel::Plus) => true,
        (TokenModel::Minus, TokenModel::Minus) => true,
        (TokenModel::Multiply, TokenModel::Multiply) => true,
        (TokenModel::Divide, TokenModel::Divide) => true,
        (TokenModel::LParen, TokenModel::LParen) => true,
        (TokenModel::RParen, TokenModel::RParen) => true,
        (TokenModel::Begin, TokenModel::Begin) => true,
        (TokenModel::End, TokenModel::End) => true,
        (TokenModel::Semi, TokenModel::Semi) => true,
        (TokenModel::Dot, TokenModel::Dot) => true,
        (TokenModel::Assign, TokenModel::Assign) => true,
        (TokenModel::Eof, TokenModel::Eof) => true,
        _ => false,
    }
}

impl View for Token {
    type V = TokenModel;

    open spec fn view(&self) -> TokenModel {
        match self {
            Token::Integer(v) => TokenModel::Integer(*v),
            Token::Plus => TokenModel::Plus,
            Token::Minus => TokenModel::Minus,
            Token::Multiply => TokenModel::Multiply,
            Token::Divide => TokenModel::Divide,
            Token::LParen => TokenModel::LParen,
            Token::RParen => TokenModel::RParen,
            Token::Begin => TokenModel::Begin,
            Token::End => TokenModel::End,
            Token::Semi => TokenModel::Semi,
            Token::Dot => TokenModel::Dot,
            Token::Assign => TokenModel::Assign,
            Token::Id(s) => TokenModel::Id(s@),
            Token::Eof => TokenModel::Eof,
        }
    }
}

impl Token {
    /// Whether two tokens are of the same kind, whatever they carry.
    pub open spec fn same_kind(self, other: Token) -> bool {
        same_kind_model(self@, other@)
    }

    /// Whether two tokens are of the same kind.
    pub fn kind_eq(&self, other: &Token) -> (r: bool)
        ensures
            r == self.same_kind(*other),
    {
        match (self, other) {
            (Token::Integer(_), Token::Integer(_)) => true,
            (Token::Id(_), Token::Id(_)) => true,
            (Token::Plus, Token::Plus) => true,
            (Token::Minus, Token::Minus) => true,
            (Token::Multiply, Token::Multiply) => true,
            (Token::Divide, Token::Divide) => true,
            (Token::LParen, Token::LParen) => true,
            (Token::RParen, Token::RParen) => true,
            (Token::Begin, Token::Begin) => true,
            (Token::End, Token::End) => true,
            (Token::Semi, Token::Semi) => true,
            (Token::Dot, Token::Dot) => true,
            (Token::Assign, Token::Assign) => true,
            (Token::Eof, Token::Eof) => true,
            _ => false,
        }
    }

    /// A copy with the same view.
    pub fn duplicate(&self) -> (r: Token)
        ensures
            r@ == self@,
    {
        match self {
            Token::Integer(v) => Token::Integer(*v),
            Token::Plus => Token::Plus,
            Token::Minus => Token::Minus,
            Token::Multiply => Token::Multiply,
            Token::Divide => Token::Divide,
            Token::LParen => Token::LParen,
            Token::RParen => Token::RParen,
            Token::Begin => Token::Begin,
            Token::End => Token::End,
            Token::Semi => Token::Semi,
            Token::Dot => Token::Dot,
            Token::Assign => Token::Assign,
            Token::Id(s) => Token::Id(s.clone()),
            Token::Eof => Token::Eof,
        }
    }
}

impl PartialEq for Token {
    fn eq(&self, other: &Token) -> (r: bool) {
        match (self, other) {
            (Token::Integer(a), Token::Integer(b)) => *a == *b,
            (Token::Id(a), Token::Id(b)) => *a == *b,
            _ => self.kind_eq(other),
        }
    }
}

impl vstd::std_specs::cmp::PartialEqSpecImpl for Token {
    open spec fn obeys_eq_spec() -> bool {
        true
    }

    open spec fn eq_spec(&self, other: &Token) -> bool {
        self@ == other@
    }
}

} // verus!

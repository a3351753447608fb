use vstd::prelude::*;

use crate::prelude::{copy_span, Span};

verus! {

/// How an infix operator groups with operators of equal precedence.
#[derive(Clone, Copy, Debug, PartialEq, Eq, Structural)]
pub enum Associativity {
    Left,
    Right,
}

/// The kinds of tokens of the language.
#[derive(Clone, Copy, Debug, PartialEq, Eq, Structural)]
pub enum TokenKind {
    Par,
    Kung,
    Kungdi,
    Kungwala,
    Ibalik,
    LParen,
    RParen,
    LSquare,
    RSquare,
    LBrace,
    RBrace,
    Colon,
    Semicolon,
    Lesser,
    LesserEq,
    Greater,
    GreaterEq,
    Equal,
    EqualEq,
    Plus,
    Minus,
    Star,
    Slash,
    Identifier,
    IntLiteral,
    FloatLiteral,
    Eof,
}

/// Binding power of a token in infix position; 0 for tokens that are no infix operator.
pub open spec fn spec_precedence(kind: TokenKind) -> u8 {
    match kind {
        TokenKind::Equal => 1,
        TokenKind::Plus | TokenKind::Minus => 2,
        TokenKind::Star | TokenKind::Slash => 3,
        _ => 0,
    }
}

/// Assignment groups to the right, the arithmetic operators to the left.
pub open spec fn spec_assoc(kind: TokenKind) -> Associativity {
    match kind {
        TokenKind::Equal => Associativity::Right,
        _ => Associativity::Left,
    }
}

/// Tokens after which a line break ends the statement.
pub open spec fn spec_infers_semicolon(kind: TokenKind) -> bool {
    match kind {
        TokenKind::Identifier | TokenKind::IntLiteral | TokenKind::FloatLiteral
        | TokenKind::RParen | TokenKind::RSquare | TokenKind::RBrace | TokenKind::Ibalik => true,
        _ => false,
    }
}

impl TokenKind {
    pub fn precedence(&self) -> (p: u8)
        ensures
            p == spec_precedence(*self),
    {
        match self {
            TokenKind::Equal => 1,
            TokenKind::Plus | TokenKind::Minus => 2,
            TokenKind::Star | TokenKind::Slash => 3,
            _ => 0,
        }
    }

    pub fn assoc(&self) -> (a: Associativity)
        ensures
            a == spec_assoc(*self),
    {
        match self {
            TokenKind::Equal => Associativity::Right,
            _ => Associativity::Left,
        }
    }

    pub fn infers_semicolon(&self) -> (b: bool)
        ensures
            b == spec_infers_semicolon(*self),
    {
        match self {
            TokenKind::Identifier | TokenKind::IntLiteral | TokenKind::FloatLiteral
            | TokenKind::RParen | TokenKind::RSquare | TokenKind::RBrace | TokenKind::Ibalik => true,
            _ => false,
        }
    }
}

/// What a token is: its text, its kind and where it stands.
pub struct TokenV {
    pub lexeme: Seq<char>,
    pub kind: TokenKind,
    pub span: Span,
}

/// A token of the source code.
#[derive(Debug)]
pub struct Token {
    lexeme: String,
    kind: TokenKind,
    span: Span,
}

impl View for Token {
    type V = TokenV;

    closed spec fn view(&self) -> TokenV {
        TokenV { lexeme: self.lexeme@, kind: self.kind, span: self.span }
    }
}

impl Token {
    pub fn new(lexeme: String, kind: TokenKind, span: Span) -> (t: Self)
        ensures
            t@ == (TokenV { lexeme: lexeme@, kind, span }),
    {
        Self { lexeme, kind, span }
    }

    pub fn lexeme(&self) -> (s: &str)
        ensures
            s@ == self@.lexeme,
    {
        self.lexeme.as_str()
    }

    pub fn lexeme_string(&self) -> (s: String)
        ensures
            s@ == self@.lexeme,
    {
        self.lexeme.clone()
    }

    pub fn kind(&self) -> (k: &TokenKind)
        ensures
            *k == self@.kind,
    {
        &self.kind
    }

    pub fn span(&self) -> (s: &Span)
        ensures
            *s == self@.span,
    {
        &self.span
    }
}

impl Clone for Token {
    fn clone(&self) -> (res: Self)
        ensures
            res@ == self@,
    {
        Token { lexeme: self.lexeme.clone(), kind: self.kind, span: copy_span(&self.span) }
    }
}

} // verus!

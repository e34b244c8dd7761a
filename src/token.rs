//! The tokens that the lexer produces, and their mathematical views.

use vstd::prelude::*;
use crate::grammar::{keyword_of, spelling};
use crate::text::{chars_of, same_chars};

verus! {

/// The reserved words of the language; `NotReserved` stands for "not a reserved word".
#[derive(Debug, Clone, Copy, PartialEq, Eq, Structural)]
pub enum Keyword {
    Define,
    True,
    False,
    NotReserved,
    If,
    Null,
}

impl Keyword {
    /// The spelling of a reserved word, as characters.
    fn spelled(self) -> (r: Vec<char>)
        ensures
            r@ == spelling(self),
    {
        match self {
            Keyword::Define => vec!['d', 'e', 'f', 'i', 'n', 'e'],
            Keyword::True => vec!['t', 'r', 'u', 'e'],
            Keyword::False => vec!['f', 'a', 'l', 's', 'e'],
            Keyword::If => vec!['i', 'f'],
            Keyword::Null => vec!['n', 'u', 'l', 'l'],
            Keyword::NotReserved => Vec::new(),
        }
    }

    /// The reserved word spelled exactly (case-sensitively) `s`, or `NotReserved`.
    pub fn from_str(s: String) -> (r: Keyword)
        ensures
            r == keyword_of(s@),
    {
        let w = chars_of(s.as_str());
        let table = vec![
            Keyword::Define,
            Keyword::True,
            Keyword::False,
            Keyword::If,
            Keyword::Null,
        ];
        let mut i: usize = 0;
        while i < table.len()
            invariant
                table@ == seq![
                    Keyword::Define,
                    Keyword::True,
                    Keyword::False,
                    Keyword::If,
                    Keyword::Null,
                ],
                w@ == s@,
                i <= table@.len(),
                forall|j: int| 0 <= j < i ==> w@ != spelling(#[trigger] table@[j]),
            decreases table@.len() - i,
        {
            let k = table[i];
            if same_chars(&w, &k.spelled()) {
                return k;
            }
            i = i + 1;
        }
        assert(w@ != spelling(table@[0]) && w@ != spelling(table@[1]) && w@ != spelling(table@[2])
            && w@ != spelling(table@[3]) && w@ != spelling(table@[4]));
        Keyword::NotReserved
    }
}

/// The operators of the language.
#[derive(Debug, Clone, Copy, PartialEq, Eq, Structural)]
pub enum Operator {
    Plus,
    Minus,
    Star,
    Slash,
    Equals,
    DoubleEquals,
    NotEquals,
    Bang,
    Mod,
    Greater,
    Less,
    GreaterEqual,
    LessEqual,
    And,
    Or,
}

/// What a token is. `NoToken` is the "no token" sentinel; `lex` never returns it.
///
/// A number literal is kept as an `i32`: its digits are folded with wrapping arithmetic,
/// so a literal beyond `i32::MAX` holds its value modulo 2^32.
#[derive(Debug, Clone, PartialEq, Eq)]
pub enum Type {
    String(String),
    Number(i32),
    Keyword(Keyword),
    Operator(Operator),
    Identifier(String),
    LeftParen,
    RightParen,
    LeftBrace,
    RightBrace,
    Dot,
    Comma,
    Semicolon,
    NoToken,
}

/// The view of a `Type`: the same variants, with text as a sequence of characters.
pub enum TypeView {
    String(Seq<char>),
    Number(i32),
    Keyword(Keyword),
    Operator(Operator),
    Identifier(Seq<char>),
    LeftParen,
    RightParen,
    LeftBrace,
    RightBrace,
    Dot,
    Comma,
    Semicolon,
    NoToken,
}

impl View for Type {
    type V = TypeView;

    open spec fn view(&self) -> TypeView {
        match self {
            Type::String(s) => TypeView::String(s@),
            Type::Number(n) => TypeView::Number(*n),
            Type::Keyword(k) => TypeView::Keyword(*k),
            Type::Operator(o) => TypeView::Operator(*o),
            Type::Identifier(s) => TypeView::Identifier(s@),
            Type::LeftParen => TypeView::LeftParen,
            Type::RightParen => TypeView::RightParen,
            Type::LeftBrace => TypeView::LeftBrace,
            Type::RightBrace => TypeView::RightBrace,
            Type::Dot => TypeView::Dot,
            Type::Comma => TypeView::Comma,
            Type::Semicolon => TypeView::Semicolon,
            Type::NoToken => TypeView::NoToken,
        }
    }
}

/// One lexical unit: a wrapper around its `Type`.
#[derive(Debug, Clone, PartialEq, Eq)]
pub struct Token {
    pub token_type: Type,
}

impl View for Token {
    type V = TypeView;

    open spec fn view(&self) -> TypeView {
        self.token_type@
    }
}

impl Token {
    pub fn new(token_type: Type) -> (r: Self)
        ensures
            r.token_type == token_type,
    {
        Token { token_type }
    }

    /// The "no token" sentinel.
    pub fn none() -> (r: Self)
        ensures
            r.token_type == Type::NoToken,
    {
        Token { token_type: Type::NoToken }
    }
}

/// The views of a sequence of tokens.
pub open spec fn views(tokens: Seq<Token>) -> Seq<TypeView> {
    tokens.map_values(|t: Token| t@)
}

} // verus!

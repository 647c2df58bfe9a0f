//! Tokens: the atomic units that the lexer produces.

use vstd::prelude::*;
use crate::chars::{quote, quoted};
use crate::number::Number;

verus! {

/// A token of the language.
#[derive(Debug, PartialEq)]
pub enum Token {
    /// The keyword `let`.
    Let,
    /// A name.
    Identifier(String),
    /// A string literal, with its escapes resolved.
    String(String),
    /// A numeric literal.
    Number(Number),
    /// The keyword `true`.
    True,
    /// The keyword `false`.
    False,
    /// The sign `=`.
    Assign,
    /// The sign `(`.
    LeftParen,
    /// The sign `)`.
    RightParen,
    /// The end of a line.
    Newline,
    /// The end of the text.
    Eof,
}

/// What a token is, as a mathematical value.
pub enum SpecToken {
    Let,
    Identifier(Seq<char>),
    String(Seq<char>),
    Number(Seq<char>),
    True,
    False,
    Assign,
    LeftParen,
    RightParen,
    Newline,
    Eof,
}

impl View for Token {
    type V = SpecToken;

    open spec fn view(&self) -> SpecToken {
        match self {
            Token::Let => SpecToken::Let,
            Token::Identifier(s) => SpecToken::Identifier(s@),
            Token::String(s) => SpecToken::String(s@),
            Token::Number(n) => SpecToken::Number(n@),
            Token::True => SpecToken::True,
            Token::False => SpecToken::False,
            Token::Assign => SpecToken::Assign,
            Token::LeftParen => SpecToken::LeftParen,
            Token::RightParen => SpecToken::RightParen,
            Token::Newline => SpecToken::Newline,
            Token::Eof => SpecToken::Eof,
        }
    }
}

impl Clone for Token {
    fn clone(&self) -> (r: Self)
        ensures
            r@ == self@,
    {
        match self {
            Token::Let => Token::Let,
            Token::Identifier(s) => Token::Identifier(s.clone()),
            Token::String(s) => Token::String(s.clone()),
            Token::Number(n) => Token::Number(n.clone()),
            Token::True => Token::True,
            Token::False => Token::False,
            Token::Assign => Token::Assign,
            Token::LeftParen => Token::LeftParen,
            Token::RightParen => Token::RightParen,
            Token::Newline => Token::Newline,
            Token::Eof => Token::Eof,
        }
    }
}

/// The views of a list of tokens, in order.
pub open spec fn token_views(v: Seq<Token>) -> Seq<SpecToken> {
    Seq::new(v.len(), |i: int| v[i]@)
}

/// The token at index `pos` of `ts`; outside the list, `Eof`.
pub open spec fn token_or_eof(ts: Seq<SpecToken>, pos: int) -> SpecToken {
    if 0 <= pos < ts.len() {
        ts[pos]
    } else {
        SpecToken::Eof
    }
}

/// The token as a reader of the program would write it.
pub open spec fn display_text(t: SpecToken) -> Seq<char> {
    match t {
        SpecToken::Let => "let"@,
        SpecToken::Identifier(s) => "Identifier("@ + s + ")"@,
        SpecToken::String(s) => "String(\""@ + s + "\")"@,
        SpecToken::Number(n) => "Number("@ + n + ")"@,
        SpecToken::True => "true"@,
        SpecToken::False => "false"@,
        SpecToken::Assign => "="@,
        SpecToken::LeftParen => "("@,
        SpecToken::RightParen => ")"@,
        SpecToken::Newline => "Newline"@,
        SpecToken::Eof => "EOF"@,
    }
}

/// The token as an error message names it: the variant, and for a name or a
/// string its text in quotes.
pub open spec fn debug_text(t: SpecToken) -> Seq<char> {
    match t {
        SpecToken::Let => "Let"@,
        SpecToken::Identifier(s) => "Identifier("@ + quoted(s) + ")"@,
        SpecToken::String(s) => "String("@ + quoted(s) + ")"@,
        SpecToken::Number(n) => "Number("@ + n + ")"@,
        SpecToken::True => "True"@,
        SpecToken::False => "False"@,
        SpecToken::Assign => "Assign"@,
        SpecToken::LeftParen => "LeftParen"@,
        SpecToken::RightParen => "RightParen"@,
        SpecToken::Newline => "Newline"@,
        SpecToken::Eof => "Eof"@,
    }
}

/// `prefix`, then `body`, then `suffix`.
fn wrapped(prefix: &str, body: &str, suffix: &str) -> (s: String)
    ensures
        s@ == prefix@ + body@ + suffix@,
{
    let mut s = String::from_str(prefix);
    s.append(body);
    s.append(suffix);
    s
}

impl Token {
    /// Tests whether two tokens are the same: the same variant, with the
    /// same text.
    pub fn same_as(&self, other: &Token) -> (same: bool)
        ensures
            same == (self@ == other@),
    {
        match (self, other) {
            (Token::Let, Token::Let) => true,
            (Token::Identifier(a), Token::Identifier(b)) => *a == *b,
            (Token::String(a), Token::String(b)) => *a == *b,
            (Token::Number(a), Token::Number(b)) => a.same_as(b),
            (Token::True, Token::True) => true,
            (Token::False, Token::False) => true,
            (Token::Assign, Token::Assign) => true,
            (Token::LeftParen, Token::LeftParen) => true,
            (Token::RightParen, Token::RightParen) => true,
            (Token::Newline, Token::Newline) => true,
            (Token::Eof, Token::Eof) => true,
            _ => false,
        }
    }

    /// The token as a reader of the program would write it.
    pub fn to_text(&self) -> (s: String)
        ensures
            s@ == display_text(self@),
    {
        match self {
            Token::Let => String::from_str("let"),
            Token::Identifier(s) => wrapped("Identifier(", s.as_str(), ")"),
            Token::String(s) => wrapped("String(\"", s.as_str(), "\")"),
            Token::Number(n) => wrapped("Number(", n.to_text().as_str(), ")"),
            Token::True => String::from_str("true"),
            Token::False => String::from_str("false"),
            Token::Assign => String::from_str("="),
            Token::LeftParen => String::from_str("("),
            Token::RightParen => String::from_str(")"),
            Token::Newline => String::from_str("Newline"),
            Token::Eof => String::from_str("EOF"),
        }
    }

    /// The token as an error message names it.
    pub fn describe(&self) -> (s: String)
        ensures
            s@ == debug_text(self@),
    {
        match self {
            Token::Let => String::from_str("Let"),
            Token::Identifier(s) => wrapped("Identifier(", quote(s.as_str()).as_str(), ")"),
            Token::String(s) => wrapped("String(", quote(s.as_str()).as_str(), ")"),
            Token::Number(n) => wrapped("Number(", n.to_text().as_str(), ")"),
            Token::True => String::from_str("True"),
            Token::False => String::from_str("False"),
            Token::Assign => String::from_str("Assign"),
            Token::LeftParen => String::from_str("LeftParen"),
            Token::RightParen => String::from_str("RightParen"),
            Token::Newline => String::from_str("Newline"),
            Token::Eof => String::from_str("Eof"),
        }
    }
}

} // verus!

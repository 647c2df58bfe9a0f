//! The lexer: from program text to tokens.

use vstd::prelude::*;
use crate::chars::{
    is_name_start, lemma_run_end, name_chars, name_start, run_end, same_text, unicode_numeric,
};
use crate::frontend::token::{token_views, SpecToken, Token};
use crate::number::canonical;
use reader::{blanks, lemma_string_body_end, number_chars, string_body, within_line};

pub mod reader;

pub use reader::Reader;

verus! {

/// The token that a name stands for: a keyword where it is one.
pub open spec fn keyword_or_name(name: Seq<char>) -> SpecToken {
    if name == "let"@ {
        SpecToken::Let
    } else if name == "true"@ {
        SpecToken::True
    } else if name == "false"@ {
        SpecToken::False
    } else {
        SpecToken::Identifier(name)
    }
}

/// The first token of `s` at or after index `pos`, and the index behind it.
///
/// Blanks before the token are passed over. A comment runs from `#` to the
/// end of its line and gives the line's `Newline`, or `Eof` on the last
/// line. A character that starts no token is passed over.
pub open spec fn token_at(s: Seq<char>, pos: int) -> (SpecToken, int)
    decreases s.len() - pos,
{
    let i = run_end(s, pos, blanks());
    if i < 0 || i >= s.len() {
        (SpecToken::Eof, i)
    } else {
        let c = s[i];
        if c == '#' {
            let end = run_end(s, i, within_line());
            if end < s.len() {
                (SpecToken::Newline, end + 1)
            } else {
                (SpecToken::Eof, end)
            }
        } else if c == '\n' {
            (SpecToken::Newline, i + 1)
        } else if c == '"' || c == '\'' {
            let body = string_body(s, i + 1, c);
            (SpecToken::String(body.0), body.1)
        } else if c == '=' {
            (SpecToken::Assign, i + 1)
        } else if is_name_start(c) {
            let end = run_end(s, i, name_chars());
            (keyword_or_name(s.subrange(i, end)), end)
        } else if unicode_numeric(c) {
            let end = run_end(s, i, number_chars());
            (SpecToken::Number(canonical(s.subrange(i, end))), end)
        } else if c == '(' {
            (SpecToken::LeftParen, i + 1)
        } else if c == ')' {
            (SpecToken::RightParen, i + 1)
        } else {
            proof {
                lemma_run_end(s, pos, blanks());
            }
            token_at(s, i + 1)
        }
    }
}

/// A token ends inside the text, and every token but `Eof` ends behind
/// where the search for it began.
pub proof fn lemma_token_at_advances(s: Seq<char>, pos: int)
    requires
        0 <= pos <= s.len(),
    ensures
        pos <= token_at(s, pos).1 <= s.len(),
        !(token_at(s, pos).0 is Eof) ==> pos < token_at(s, pos).1,
    decreases s.len() - pos,
{
    lemma_run_end(s, pos, blanks());
    let i = run_end(s, pos, blanks());
    if i < s.len() {
        let c = s[i];
        if c == '#' {
            lemma_run_end(s, i, within_line());
        } else if c == '\n' {
        } else if c == '"' || c == '\'' {
            lemma_string_body_end(s, i + 1, c);
        } else if c == '=' {
        } else if is_name_start(c) {
            lemma_run_end(s, i, name_chars());
            assert(name_chars()(c));
        } else if unicode_numeric(c) {
            lemma_run_end(s, i, number_chars());
            assert(number_chars()(c));
        } else if c == '(' {
        } else if c == ')' {
        } else {
            lemma_token_at_advances(s, i + 1);
        }
    }
}

/// `Eof` is found at the end of the text only.
pub proof fn lemma_eof_at_end(s: Seq<char>, pos: int)
    requires
        0 <= pos <= s.len(),
        token_at(s, pos).0 is Eof,
    ensures
        token_at(s, pos).1 == s.len(),
    decreases s.len() - pos,
{
    lemma_run_end(s, pos, blanks());
    let i = run_end(s, pos, blanks());
    if i < s.len() {
        let c = s[i];
        if c == '#' {
            lemma_run_end(s, i, within_line());
        } else if c == '\n' || c == '"' || c == '\'' || c == '=' || is_name_start(c)
            || unicode_numeric(c) || c == '(' || c == ')' {
        } else {
            lemma_eof_at_end(s, i + 1);
        }
    }
}

/// The tokens of `s` from index `pos` on, up to and with the `Eof` that
/// ends them.
pub open spec fn tokens_from(s: Seq<char>, pos: int) -> Seq<SpecToken>
    decreases s.len() - pos,
{
    let t = token_at(s, pos);
    if t.0 is Eof || pos < 0 || pos > s.len() {
        seq![SpecToken::Eof]
    } else {
        proof {
            lemma_token_at_advances(s, pos);
        }
        seq![t.0] + tokens_from(s, t.1)
    }
}

/// Every token sequence holds exactly one `Eof`, and ends with it.
pub proof fn lemma_tokens_end_with_eof(s: Seq<char>, pos: int)
    ensures
        tokens_from(s, pos).len() > 0,
        tokens_from(s, pos).last() is Eof,
        forall|k: int| 0 <= k < tokens_from(s, pos).len() - 1 ==> !(tokens_from(s, pos)[k] is Eof),
    decreases s.len() - pos,
{
    let t = token_at(s, pos);
    if !(t.0 is Eof || pos < 0 || pos > s.len()) {
        lemma_token_at_advances(s, pos);
        lemma_tokens_end_with_eof(s, t.1);
    }
}

/// From a `#` on, the text gives the tokens that it gives from the end of
/// that line on: no part of a comment becomes a token.
pub proof fn lemma_comment_elided(s: Seq<char>, pos: int)
    requires
        0 <= pos < s.len(),
        s[pos] == '#',
    ensures
        token_at(s, pos) == token_at(s, run_end(s, pos, within_line())),
        tokens_from(s, pos) == tokens_from(s, run_end(s, pos, within_line())),
{
    let end = run_end(s, pos, within_line());
    lemma_run_end(s, pos, within_line());
    assert(!blanks()(s[pos]));
    assert(run_end(s, pos, blanks()) == pos);
    if end < s.len() {
        assert(s[end] == '\n');
        assert(!blanks()(s[end]));
    }
    assert(run_end(s, end, blanks()) == end);
    assert(token_at(s, pos) == token_at(s, end));
}

/// A lexer over one program text.
pub struct Lexer {
    reader: Reader,
}

impl Lexer {
    /// The characters of the text.
    pub closed spec fn source(&self) -> Seq<char> {
        self.reader.source()
    }

    /// The index in the text from which the next token is read.
    pub closed spec fn offset(&self) -> int {
        self.reader.offset()
    }

    /// The lexer's cursor is inside its text.
    pub closed spec fn wf(&self) -> bool {
        self.reader.wf()
    }

    /// The tokens that are still to come.
    pub open spec fn remaining(&self) -> Seq<SpecToken> {
        tokens_from(self.source(), self.offset())
    }

    /// A lexer at the start of `input`.
    pub fn new(input: &str) -> (lexer: Lexer)
        ensures
            lexer.wf(),
            lexer.source() == input@,
            lexer.offset() == 0,
    {
        Lexer { reader: Reader::new(input) }
    }

    /// Reads the next token. At the end of the text every call gives `Eof`.
    pub fn next_token(&mut self) -> (token: Token)
        requires
            old(self).wf(),
        ensures
            final(self).wf(),
            final(self).source() == old(self).source(),
            token@ == token_at(old(self).source(), old(self).offset()).0,
            final(self).offset() == token_at(old(self).source(), old(self).offset()).1,
        decreases old(self).source().len() - old(self).offset(),
    {
        proof {
            lemma_run_end(self.reader.source(), self.reader.offset(), blanks());
        }
        self.reader.skip_whitespace();
        let ghost s = self.reader.source();
        let ghost i = self.reader.offset();
        match self.reader.current {
            None => Token::Eof,
            Some(ch) => {
                if ch == '#' {
                    proof {
                        lemma_run_end(s, i, within_line());
                    }
                    self.reader.skip_comment();
                    match self.reader.current {
                        Some(_) => {
                            self.reader.advance();
                            Token::Newline
                        },
                        None => Token::Eof,
                    }
                } else if ch == '\n' {
                    self.reader.advance();
                    Token::Newline
                } else if ch == '"' || ch == '\'' {
                    Token::String(self.reader.read_string())
                } else if ch == '=' {
                    self.reader.advance();
                    Token::Assign
                } else if name_start(ch) {
                    let ident = self.reader.read_identifier();
                    if same_text(ident.as_str(), "let") {
                        Token::Let
                    } else if same_text(ident.as_str(), "true") {
                        Token::True
                    } else if same_text(ident.as_str(), "false") {
                        Token::False
                    } else {
                        Token::Identifier(ident)
                    }
                } else if ch.is_numeric() {
                    Token::Number(self.reader.read_number())
                } else if ch == '(' {
                    self.reader.advance();
                    Token::LeftParen
                } else if ch == ')' {
                    self.reader.advance();
                    Token::RightParen
                } else {
                    self.reader.advance();
                    self.next_token()
                }
            },
        }
    }

    /// Reads every token that is still to come, up to and with `Eof`.
    pub fn tokenize(&mut self) -> (tokens: Vec<Token>)
        requires
            old(self).wf(),
        ensures
            final(self).wf(),
            final(self).source() == old(self).source(),
            final(self).offset() == old(self).source().len(),
            token_views(tokens@) == old(self).remaining(),
            tokens.len() > 0,
            tokens[tokens.len() - 1]@ is Eof,
            forall|k: int| 0 <= k < tokens.len() - 1 ==> !(tokens[k]@ is Eof),
    {
        let mut tokens: Vec<Token> = Vec::new();
        let ghost s = self.source();
        let ghost start = self.offset();
        proof {
            lemma_tokens_end_with_eof(s, start);
            assert(token_views(tokens@) + tokens_from(s, start) =~= tokens_from(s, start));
        }
        loop
            invariant_except_break
                token_views(tokens@) + tokens_from(s, self.offset()) == tokens_from(s, start),
            invariant
                self.wf(),
                self.source() == s,
                0 <= self.offset() <= s.len(),
            ensures
                token_views(tokens@) == tokens_from(s, start),
                self.offset() == s.len(),
            decreases s.len() - self.offset(),
        {
            let ghost here = self.offset();
            let ghost before = token_views(tokens@);
            proof {
                lemma_token_at_advances(s, here);
            }
            let token = self.next_token();
            let done = matches!(token, Token::Eof);
            tokens.push(token);
            assert(token_views(tokens@) =~= before + seq![token@]);
            if done {
                proof {
                    lemma_eof_at_end(s, here);
                }
                break ;
            }
            assert(before + seq![token@] + tokens_from(s, self.offset()) =~= before + tokens_from(
                s,
                here,
            ));
        }
        assert(tokens[tokens.len() - 1]@ == token_views(tokens@).last());
        assert forall|k: int| 0 <= k < tokens.len() - 1 implies !(tokens[k]@ is Eof) by {
            assert(tokens[k]@ == token_views(tokens@)[k]);
        }
        tokens
    }
}

/// Two lexers over the same text, at the same place in it, have the same
/// tokens to come: lexing keeps no state beyond the text and the cursor.
pub proof fn lemma_lexing_is_deterministic(a: Lexer, b: Lexer)
    requires
        a.source() == b.source(),
        a.offset() == b.offset(),
    ensures
        a.remaining() == b.remaining(),
{
}

} // verus!

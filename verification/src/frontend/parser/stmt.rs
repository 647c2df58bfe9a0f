//! Parsing of statements.

use vstd::prelude::*;
use super::expr::{expr_result_is, lemma_parsed_expr_end, parsed_expr, ExprParser};
use crate::frontend::ast::{Expr, SpecStmt, Stmt};
use crate::frontend::token::{token_or_eof, token_views, SpecToken, Token};

verus! {

/// The index behind the `Newline` at index `pos` of `ts`, or `pos` itself
/// where none stands there.
pub open spec fn after_newline(ts: Seq<SpecToken>, pos: int) -> int {
    if token_or_eof(ts, pos) is Newline {
        pos + 1
    } else {
        pos
    }
}

/// The statement that starts at index `pos` of `ts`, with the index behind
/// it and behind the `Newline` that may close it; or the message of the
/// first token that does not fit.
///
/// A statement is `let`, a name, `=` and an expression, or an expression
/// alone.
pub open spec fn parsed_stmt(ts: Seq<SpecToken>, pos: int) -> Result<(SpecStmt, int), Seq<char>> {
    if token_or_eof(ts, pos) is Let {
        match token_or_eof(ts, pos + 1) {
            SpecToken::Identifier(name) => {
                if token_or_eof(ts, pos + 2) is Assign {
                    match parsed_expr(ts, pos + 3) {
                        Ok((value, end)) => Ok(
                            (SpecStmt::Let { name, value }, after_newline(ts, end)),
                        ),
                        Err(message) => Err(message),
                    }
                } else {
                    Err("Expected '=' after variable name"@)
                }
            },
            _ => Err("Expected identifier after 'let'"@),
        }
    } else {
        match parsed_expr(ts, pos) {
            Ok((e, end)) => Ok((SpecStmt::Expr(e), after_newline(ts, end))),
            Err(message) => Err(message),
        }
    }
}

/// A statement takes at least one token, and ends inside the list.
pub proof fn lemma_parsed_stmt_end(ts: Seq<SpecToken>, pos: int)
    requires
        parsed_stmt(ts, pos) is Ok,
    ensures
        0 <= pos < parsed_stmt(ts, pos)->Ok_0.1 <= ts.len(),
{
    if token_or_eof(ts, pos) is Let {
        lemma_parsed_expr_end(ts, pos + 3);
    } else {
        lemma_parsed_expr_end(ts, pos);
    }
}

/// How the parser's result stands for `expected`: the same statement and
/// cursor, or the same message.
pub open spec fn stmt_result_is(
    result: Result<Stmt, String>,
    cursor: int,
    expected: Result<(SpecStmt, int), Seq<char>>,
) -> bool {
    match expected {
        Ok((s, end)) => result is Ok && result->Ok_0@ == s && cursor == end,
        Err(message) => result is Err && result->Err_0@ == message,
    }
}

/// A parser of statements over a list of tokens, with a cursor that it
/// shares with whoever made it.
pub struct StmtParser<'a> {
    /// The tokens.
    pub tokens: &'a [Token],
    /// The index of the current token.
    pub position: &'a mut usize,
}

impl<'a> StmtParser<'a> {
    /// The tokens, as mathematical values.
    pub open spec fn input(&self) -> Seq<SpecToken> {
        token_views(self.tokens@)
    }

    /// The index of the current token.
    pub open spec fn cursor(&self) -> int {
        *self.position as int
    }

    /// A parser over `tokens` that reads from `*position` on and leaves in
    /// it the index of the first token that it has not taken.
    pub fn new(tokens: &'a [Token], position: &'a mut usize) -> (p: Self)
        ensures
            p.tokens == tokens,
            p.cursor() == *old(position),
            *final(position) == *final(p.position),
    {
        StmtParser { tokens, position }
    }

    /// The current token; `None` stands for `Eof` behind the list.
    fn current(&self) -> (t: Option<&Token>)
        ensures
            match t {
                Some(token) => token@ == token_or_eof(self.input(), self.cursor())
                    && self.cursor() < self.tokens@.len(),
                None => token_or_eof(self.input(), self.cursor()) is Eof && self.cursor()
                    >= self.tokens@.len(),
            },
    {
        if *self.position < self.tokens.len() {
            Some(&self.tokens[*self.position])
        } else {
            None
        }
    }

    /// Moves the cursor over the current token.
    fn advance(&mut self)
        requires
            old(self).cursor() < old(self).tokens@.len(),
        ensures
            final(self).tokens == old(self).tokens,
            *final(final(self).position) == *final(old(self).position),
            final(self).cursor() == old(self).cursor() + 1,
    {
        let len = self.tokens.len();
        assert(*self.position < len);
        *self.position += 1;
    }

    /// Moves the cursor over a `Newline`, where one is the current token.
    fn skip_newline(&mut self)
        ensures
            final(self).tokens == old(self).tokens,
            *final(final(self).position) == *final(old(self).position),
            final(self).cursor() == after_newline(old(self).input(), old(self).cursor()),
    {
        let at_newline = match self.current() {
            Some(Token::Newline) => true,
            _ => false,
        };
        if at_newline {
            self.advance();
        }
    }

    /// Parses the expression at the cursor.
    fn parse_expr(&mut self) -> (r: Result<Expr, String>)
        ensures
            final(self).tokens == old(self).tokens,
            *final(final(self).position) == *final(old(self).position),
            expr_result_is(r, final(self).cursor(), parsed_expr(old(self).input(), old(self).cursor())),
    {
        let mut expr_parser = ExprParser::new(self.tokens, &mut *self.position);
        expr_parser.parse()
    }

    /// Parses one statement at the cursor and moves the cursor behind it,
    /// and behind the `Newline` that may close it. The first token that does
    /// not fit ends the parse with its message.
    pub fn parse(&mut self) -> (r: Result<Stmt, String>)
        ensures
            final(self).tokens == old(self).tokens,
            *final(final(self).position) == *final(old(self).position),
            stmt_result_is(r, final(self).cursor(), parsed_stmt(old(self).input(), old(self).cursor())),
    {
        let at_let = match self.current() {
            Some(Token::Let) => true,
            _ => false,
        };
        if at_let {
            return self.parse_let();
        }
        match self.parse_expr() {
            Ok(e) => {
                self.skip_newline();
                Ok(Stmt::Expr(e))
            },
            Err(message) => Err(message),
        }
    }

    /// Parses a `let` statement; the cursor is on the `let`.
    fn parse_let(&mut self) -> (r: Result<Stmt, String>)
        requires
            token_or_eof(old(self).input(), old(self).cursor()) is Let,
        ensures
            final(self).tokens == old(self).tokens,
            *final(final(self).position) == *final(old(self).position),
            stmt_result_is(r, final(self).cursor(), parsed_stmt(old(self).input(), old(self).cursor())),
    {
        self.advance();
        let name = match self.current() {
            Some(Token::Identifier(n)) => n.clone(),
            _ => {
                return Err(String::from_str("Expected identifier after 'let'"));
            },
        };
        self.advance();
        let at_assign = match self.current() {
            Some(Token::Assign) => true,
            _ => false,
        };
        if !at_assign {
            return Err(String::from_str("Expected '=' after variable name"));
        }
        self.advance();
        match self.parse_expr() {
            Ok(value) => {
                self.skip_newline();
                Ok(Stmt::Let { name, value })
            },
            Err(message) => Err(message),
        }
    }
}

} // verus!

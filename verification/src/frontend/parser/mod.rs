//! The parser: from tokens to statements.

use vstd::prelude::*;
use crate::frontend::ast::{stmt_views, SpecStmt, Stmt};
use crate::frontend::lexer::{tokens_from, Lexer};
use crate::frontend::token::{token_or_eof, token_views, SpecToken, Token};
use stmt::{lemma_parsed_stmt_end, parsed_stmt, StmtParser};

pub mod expr;
pub mod stmt;

pub use expr::ExprParser;

verus! {

/// The index of the first token at or after `pos` that is no `Newline`.
pub open spec fn after_newlines(ts: Seq<SpecToken>, pos: int) -> int
    decreases ts.len() - pos,
{
    if token_or_eof(ts, pos) is Newline {
        after_newlines(ts, pos + 1)
    } else {
        pos
    }
}

/// The statements that `ts` holds from index `pos` up to its `Eof`, in
/// order; or the message of the first token that does not fit. Empty lines
/// between statements are passed over.
pub open spec fn parsed_program(ts: Seq<SpecToken>, pos: int) -> Result<Seq<SpecStmt>, Seq<char>>
    decreases ts.len() - pos,
{
    let start = after_newlines(ts, pos);
    if token_or_eof(ts, start) is Eof {
        Ok(Seq::empty())
    } else {
        match parsed_stmt(ts, start) {
            Ok((s, end)) => {
                proof {
                    lemma_after_newlines(ts, pos);
                    lemma_parsed_stmt_end(ts, start);
                }
                match parsed_program(ts, end) {
                    Ok(rest) => Ok(seq![s] + rest),
                    Err(message) => Err(message),
                }
            },
            Err(message) => Err(message),
        }
    }
}

/// The statements of a program text, or the message of its first error.
pub open spec fn program_of(source: Seq<char>) -> Result<Seq<SpecStmt>, Seq<char>> {
    parsed_program(tokens_from(source, 0), 0)
}

/// Passing over newlines never moves back, and ends on a token that is no
/// `Newline`.
pub proof fn lemma_after_newlines(ts: Seq<SpecToken>, pos: int)
    ensures
        pos <= after_newlines(ts, pos),
        !(token_or_eof(ts, after_newlines(ts, pos)) is Newline),
        pos <= ts.len() ==> after_newlines(ts, pos) <= ts.len(),
    decreases ts.len() - pos,
{
    if token_or_eof(ts, pos) is Newline {
        lemma_after_newlines(ts, pos + 1);
    }
}

/// A parser over the tokens of one program text.
pub struct Parser {
    tokens: Vec<Token>,
    position: usize,
}

impl Parser {
    /// The tokens of the program.
    pub closed spec fn input(&self) -> Seq<SpecToken> {
        token_views(self.tokens@)
    }

    /// The index of the current token.
    pub closed spec fn cursor(&self) -> int {
        self.position as int
    }

    /// A parser at the start of the tokens of `source`.
    pub fn new(source: &str) -> (p: Parser)
        ensures
            p.input() == tokens_from(source@, 0),
            p.cursor() == 0,
    {
        let mut lexer = Lexer::new(source);
        let tokens = lexer.tokenize();
        Parser { tokens, position: 0 }
    }

    /// Whether the current token is a `Newline`.
    fn at_newline(&self) -> (b: bool)
        ensures
            b == (token_or_eof(self.input(), self.cursor()) is Newline),
            b ==> self.cursor() < self.tokens@.len(),
    {
        if self.position < self.tokens.len() {
            matches!(self.tokens[self.position], Token::Newline)
        } else {
            false
        }
    }

    /// Whether the current token is `Eof`, or the list has ended.
    fn at_end(&self) -> (b: bool)
        ensures
            b == (token_or_eof(self.input(), self.cursor()) is Eof),
    {
        if self.position < self.tokens.len() {
            matches!(self.tokens[self.position], Token::Eof)
        } else {
            true
        }
    }

    /// Moves the cursor over every `Newline` under it.
    fn skip_newlines(&mut self)
        ensures
            final(self).tokens == old(self).tokens,
            final(self).cursor() == after_newlines(old(self).input(), old(self).cursor()),
    {
        while self.at_newline()
            invariant
                self.tokens == old(self).tokens,
                after_newlines(self.input(), self.cursor()) == after_newlines(
                    old(self).input(),
                    old(self).cursor(),
                ),
            decreases self.tokens@.len() - self.cursor(),
        {
            let len = self.tokens.len();
            assert(self.position < len);
            self.position += 1;
        }
    }

    /// Parses the program: every statement up to `Eof`, in order. The first
    /// token that does not fit ends the parse with its message, and no
    /// statement is returned.
    pub fn parse(&mut self) -> (r: Result<Vec<Stmt>, String>)
        ensures
            final(self).input() == old(self).input(),
            match parsed_program(old(self).input(), old(self).cursor()) {
                Ok(statements) => r is Ok && stmt_views(r->Ok_0@) == statements,
                Err(message) => r is Err && r->Err_0@ == message,
            },
            r is Ok ==> token_or_eof(final(self).input(), final(self).cursor()) is Eof,
    {
        let mut statements: Vec<Stmt> = Vec::new();
        let ghost ts = self.input();
        let ghost start = self.cursor();
        let ghost goal = parsed_program(ts, start);
        self.skip_newlines();
        assert(stmt_views(statements@) =~= Seq::<SpecStmt>::empty());
        assert(Seq::<SpecStmt>::empty() + parsed_program(ts, self.cursor())->Ok_0
            =~= parsed_program(ts, self.cursor())->Ok_0);
        proof {
            lemma_after_newlines(ts, start);
            lemma_after_newlines(ts, self.cursor());
        }
        while !self.at_end()
            invariant
                self.tokens == old(self).tokens,
                ts == self.input(),
                goal == parsed_program(old(self).input(), old(self).cursor()),
                !(token_or_eof(ts, self.cursor()) is Newline),
                match parsed_program(ts, self.cursor()) {
                    Ok(rest) => goal == Ok::<Seq<SpecStmt>, Seq<char>>(
                        stmt_views(statements@) + rest,
                    ),
                    Err(message) => goal == Err::<Seq<SpecStmt>, Seq<char>>(message),
                },
            decreases ts.len() - self.cursor(),
        {
            let ghost here = self.cursor();
            let ghost before = stmt_views(statements@);
            assert(after_newlines(ts, here) == here);
            let mut position = self.position;
            let mut stmt_parser = StmtParser::new(self.tokens.as_slice(), &mut position);
            let parsed = stmt_parser.parse();
            match parsed {
                Ok(s) => {
                    proof {
                        lemma_parsed_stmt_end(ts, here);
                    }
                    self.position = position;
                    statements.push(s);
                    self.skip_newlines();
                    proof {
                        let end = parsed_stmt(ts, here)->Ok_0.1;
                        lemma_after_newlines(ts, end);
                        assert(stmt_views(statements@) =~= before + seq![s@]);
                        assert(parsed_program(ts, end) == parsed_program(ts, self.cursor()));
                        match parsed_program(ts, end) {
                            Ok(rest) => {
                                assert(before + (seq![s@] + rest) =~= before + seq![s@] + rest);
                            },
                            Err(_) => {},
                        }
                    }
                },
                Err(message) => {
                    return Err(message);
                },
            }
        }
        assert(stmt_views(statements@) + Seq::<SpecStmt>::empty() =~= stmt_views(statements@));
        Ok(statements)
    }
}

} // verus!

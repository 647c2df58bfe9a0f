//! Parsing of expressions.

use vstd::prelude::*;
use crate::frontend::ast::{expr_views, lemma_call_view, Expr, SpecExpr};
use crate::frontend::token::{debug_text, token_or_eof, token_views, SpecToken, Token};

verus! {

/// The message for a token that does not stand where `expected` must.
pub open spec fn expected_message(expected: SpecToken, found: SpecToken) -> Seq<char> {
    "Expected "@ + debug_text(expected) + ", got "@ + debug_text(found)
}

/// The message for a name that no `(` follows.
pub open spec fn missing_paren_message(name: Seq<char>) -> Seq<char> {
    "Expected '(' after identifier '"@ + name + "'"@
}

/// The message for a token that starts no expression.
pub open spec fn unexpected_message(found: SpecToken) -> Seq<char> {
    "Unexpected token in expression: "@ + debug_text(found)
}

/// The expression that starts at index `pos` of `ts`, with the index behind
/// it; or the message of the first token that does not fit.
///
/// An expression is a string, a number, `true`, `false`, or a name followed
/// by `(`, at most one argument, and `)`.
pub open spec fn parsed_expr(ts: Seq<SpecToken>, pos: int) -> Result<(SpecExpr, int), Seq<char>>
    decreases ts.len() - pos, 0int,
{
    match token_or_eof(ts, pos) {
        SpecToken::String(s) => Ok((SpecExpr::String(s), pos + 1)),
        SpecToken::Number(n) => Ok((SpecExpr::Number(n), pos + 1)),
        SpecToken::True => Ok((SpecExpr::Boolean(true), pos + 1)),
        SpecToken::False => Ok((SpecExpr::Boolean(false), pos + 1)),
        SpecToken::Identifier(name) => {
            if token_or_eof(ts, pos + 1) is LeftParen {
                match parsed_arguments(ts, pos + 2) {
                    Ok((args, end)) => {
                        if token_or_eof(ts, end) is RightParen {
                            Ok((SpecExpr::Call { name, args }, end + 1))
                        } else {
                            Err(expected_message(SpecToken::RightParen, token_or_eof(ts, end)))
                        }
                    },
                    Err(message) => Err(message),
                }
            } else {
                Err(missing_paren_message(name))
            }
        },
        other => Err(unexpected_message(other)),
    }
}

/// The arguments of a call that start at index `pos` of `ts`: none where a
/// `)` stands there, else one expression.
pub open spec fn parsed_arguments(ts: Seq<SpecToken>, pos: int) -> Result<
    (Seq<SpecExpr>, int),
    Seq<char>,
>
    decreases ts.len() - pos, 1int,
{
    if token_or_eof(ts, pos) is RightParen {
        Ok((Seq::empty(), pos))
    } else {
        match parsed_expr(ts, pos) {
            Ok((e, end)) => Ok((seq![e], end)),
            Err(message) => Err(message),
        }
    }
}

/// An expression takes at least one token, and ends inside the list.
pub proof fn lemma_parsed_expr_end(ts: Seq<SpecToken>, pos: int)
    requires
        parsed_expr(ts, pos) is Ok,
    ensures
        0 <= pos < parsed_expr(ts, pos)->Ok_0.1 <= ts.len(),
    decreases ts.len() - pos,
{
    match token_or_eof(ts, pos) {
        SpecToken::Identifier(name) => {
            if !(token_or_eof(ts, pos + 2) is RightParen) {
                lemma_parsed_expr_end(ts, pos + 2);
            }
        },
        _ => {},
    }
}

/// A call has at most one argument.
pub proof fn lemma_at_most_one_argument(ts: Seq<SpecToken>, pos: int)
    requires
        parsed_expr(ts, pos) is Ok,
        parsed_expr(ts, pos)->Ok_0.0 is Call,
    ensures
        parsed_expr(ts, pos)->Ok_0.0->args.len() <= 1,
{
}

/// How the parser's result stands for `expected`: the same expression and
/// cursor, or the same message.
pub open spec fn expr_result_is(
    result: Result<Expr, String>,
    cursor: int,
    expected: Result<(SpecExpr, int), Seq<char>>,
) -> bool {
    match expected {
        Ok((e, end)) => result is Ok && result->Ok_0@ == e && cursor == end,
        Err(message) => result is Err && result->Err_0@ == message,
    }
}

/// Text from three parts.
pub(crate) fn joined(a: &str, b: &str, c: &str) -> (s: String)
    ensures
        s@ == a@ + b@ + c@,
{
    let mut s = String::from_str(a);
    s.append(b);
    s.append(c);
    s
}

/// A parser of expressions over a list of tokens, with a cursor that it
/// shares with whoever made it.
pub struct ExprParser<'a> {
    /// The tokens.
    pub tokens: &'a [Token],
    /// The index of the current token.
    pub position: &'a mut usize,
}

impl<'a> ExprParser<'a> {
    /// The tokens, as mathematical values.
    pub open spec fn input(&self) -> Seq<SpecToken> {
        token_views(self.tokens@)
    }

    /// The index of the current token.
    pub open spec fn cursor(&self) -> int {
        *self.position as int
    }

    /// A parser over `tokens` that reads from `*position` on and leaves in
    /// it the index of the first token that it has not taken.
    pub fn new(tokens: &'a [Token], position: &'a mut usize) -> (p: Self)
        ensures
            p.tokens == tokens,
            p.cursor() == *old(position),
            *final(position) == *final(p.position),
    {
        ExprParser { tokens, position }
    }

    /// The current token; `None` stands for `Eof` behind the list.
    fn current(&self) -> (t: Option<&Token>)
        ensures
            match t {
                Some(token) => token@ == token_or_eof(self.input(), self.cursor())
                    && self.cursor() < self.tokens@.len(),
                None => token_or_eof(self.input(), self.cursor()) is Eof && self.cursor()
                    >= self.tokens@.len(),
            },
    {
        if *self.position < self.tokens.len() {
            Some(&self.tokens[*self.position])
        } else {
            None
        }
    }

    /// What an error message calls the current token.
    fn describe_current(&self) -> (s: String)
        ensures
            s@ == debug_text(token_or_eof(self.input(), self.cursor())),
    {
        match self.current() {
            Some(token) => token.describe(),
            None => Token::Eof.describe(),
        }
    }

    /// Moves the cursor over the current token.
    fn advance(&mut self)
        requires
            old(self).cursor() < old(self).tokens@.len(),
        ensures
            final(self).tokens == old(self).tokens,
            *final(final(self).position) == *final(old(self).position),
            final(self).cursor() == old(self).cursor() + 1,
    {
        let len = self.tokens.len();
        assert(*self.position < len);
        *self.position += 1;
    }

    /// Takes the current token where it is `expected`; else fails.
    fn expect(&mut self, expected: Token) -> (r: Result<(), String>)
        requires
            !(expected@ is Eof),
        ensures
            final(self).tokens == old(self).tokens,
            *final(final(self).position) == *final(old(self).position),
            token_or_eof(old(self).input(), old(self).cursor()) == expected@ ==> r is Ok
                && final(self).cursor() == old(self).cursor() + 1,
            token_or_eof(old(self).input(), old(self).cursor()) != expected@ ==> r is Err
                && r->Err_0@ == expected_message(
                expected@,
                token_or_eof(old(self).input(), old(self).cursor()),
            ),
    {
        let fits = match self.current() {
            Some(token) => token.same_as(&expected),
            None => false,
        };
        if fits {
            self.advance();
            Ok(())
        } else {
            let mut message = joined("Expected ", expected.describe().as_str(), ", got ");
            message.append(self.describe_current().as_str());
            Err(message)
        }
    }

    /// Parses one expression at the cursor and moves the cursor behind it.
    /// The first token that does not fit ends the parse with its message.
    pub fn parse(&mut self) -> (r: Result<Expr, String>)
        ensures
            final(self).tokens == old(self).tokens,
            *final(final(self).position) == *final(old(self).position),
            expr_result_is(r, final(self).cursor(), parsed_expr(old(self).input(), old(self).cursor())),
        decreases old(self).tokens@.len() - old(self).cursor(), 0int,
    {
        let ghost ts = self.input();
        let ghost pos = self.cursor();
        match self.current() {
            Some(Token::String(s)) => {
                let e = Expr::String(s.clone());
                self.advance();
                Ok(e)
            },
            Some(Token::Number(n)) => {
                let e = Expr::Number(n.clone());
                self.advance();
                Ok(e)
            },
            Some(Token::True) => {
                self.advance();
                Ok(Expr::Boolean(true))
            },
            Some(Token::False) => {
                self.advance();
                Ok(Expr::Boolean(false))
            },
            Some(Token::Identifier(n)) => {
                let name = n.clone();
                self.advance();
                let open = match self.current() {
                    Some(Token::LeftParen) => true,
                    _ => false,
                };
                if open {
                    self.advance();
                    match self.parse_arguments() {
                        Ok(args) => match self.expect(Token::RightParen) {
                            Ok(()) => {
                                let e = Expr::Call { name, args };
                                proof {
                                    lemma_call_view(e);
                                }
                                Ok(e)
                            },
                            Err(message) => Err(message),
                        },
                        Err(message) => Err(message),
                    }
                } else {
                    Err(joined("Expected '(' after identifier '", name.as_str(), "'"))
                }
            },
            _ => {
                let mut message = String::from_str("Unexpected token in expression: ");
                message.append(self.describe_current().as_str());
                Err(message)
            },
        }
    }

    /// Parses the arguments of a call, up to the `)` that closes it.
    fn parse_arguments(&mut self) -> (r: Result<Vec<Expr>, String>)
        ensures
            final(self).tokens == old(self).tokens,
            *final(final(self).position) == *final(old(self).position),
            match parsed_arguments(old(self).input(), old(self).cursor()) {
                Ok((args, end)) => r is Ok && expr_views(r->Ok_0@) == args && final(self).cursor()
                    == end,
                Err(message) => r is Err && r->Err_0@ == message,
            },
        decreases old(self).tokens@.len() - old(self).cursor(), 1int,
    {
        let mut args: Vec<Expr> = Vec::new();
        let closed = match self.current() {
            Some(Token::RightParen) => true,
            _ => false,
        };
        if closed {
            assert(expr_views(args@) =~= Seq::<SpecExpr>::empty());
            return Ok(args);
        }
        match self.parse() {
            Ok(e) => {
                args.push(e);
                assert(expr_views(args@) =~= seq![e@]);
                Ok(args)
            },
            Err(message) => Err(message),
        }
    }
}

} // verus!

//! The syntax tree: expressions and statements.

use vstd::prelude::*;
use crate::number::Number;

verus! {

/// An expression.
#[derive(Debug, PartialEq)]
pub enum Expr {
    /// A string literal.
    String(String),
    /// A numeric literal.
    Number(Number),
    /// `true` or `false`.
    Boolean(bool),
    /// A variable, by name.
    Identifier(String),
    /// A call of a builtin, with its arguments in order.
    Call { name: String, args: Vec<Expr> },
}

/// A statement.
#[derive(Debug, PartialEq)]
pub enum Stmt {
    /// `let name = value`.
    Let { name: String, value: Expr },
    /// An expression that stands alone.
    Expr(Expr),
}

/// What an expression is, as a mathematical value.
pub enum SpecExpr {
    String(Seq<char>),
    Number(Seq<char>),
    Boolean(bool),
    Identifier(Seq<char>),
    Call { name: Seq<char>, args: Seq<SpecExpr> },
}

/// What a statement is, as a mathematical value.
pub enum SpecStmt {
    Let { name: Seq<char>, value: SpecExpr },
    Expr(SpecExpr),
}

impl View for Expr {
    type V = SpecExpr;

    open spec fn view(&self) -> SpecExpr
        decreases self,
    {
        match self {
            Expr::String(s) => SpecExpr::String(s@),
            Expr::Number(n) => SpecExpr::Number(n@),
            Expr::Boolean(b) => SpecExpr::Boolean(*b),
            Expr::Identifier(s) => SpecExpr::Identifier(s@),
            Expr::Call { name, args } => SpecExpr::Call {
                name: name@,
                args: Seq::new(
                    args@.len(),
                    |i: int|
                        if 0 <= i < args@.len() {
                            args@[i].view()
                        } else {
                            SpecExpr::Boolean(false)
                        },
                ),
            },
        }
    }
}

impl View for Stmt {
    type V = SpecStmt;

    open spec fn view(&self) -> SpecStmt {
        match self {
            Stmt::Let { name, value } => SpecStmt::Let { name: name@, value: value@ },
            Stmt::Expr(e) => SpecStmt::Expr(e@),
        }
    }
}

/// The views of a list of expressions, in order.
pub open spec fn expr_views(v: Seq<Expr>) -> Seq<SpecExpr> {
    Seq::new(v.len(), |i: int| v[i]@)
}

/// The views of a list of statements, in order.
pub open spec fn stmt_views(v: Seq<Stmt>) -> Seq<SpecStmt> {
    Seq::new(v.len(), |i: int| v[i]@)
}

/// The view of a call holds the views of its arguments.
pub proof fn lemma_call_view(e: Expr)
    requires
        e is Call,
    ensures
        e@ == (SpecExpr::Call { name: e->name@, args: expr_views(e->args@) }),
{
    assert(e@->args =~= expr_views(e->args@));
}

impl Clone for Expr {
    fn clone(&self) -> (r: Self)
        ensures
            r@ == self@,
        decreases self,
    {
        match self {
            Expr::String(s) => Expr::String(s.clone()),
            Expr::Number(n) => Expr::Number(n.clone()),
            Expr::Boolean(b) => Expr::Boolean(*b),
            Expr::Identifier(s) => Expr::Identifier(s.clone()),
            Expr::Call { name, args } => {
                let mut copies: Vec<Expr> = Vec::new();
                let mut i: usize = 0;
                while i < args.len()
                    invariant
                        i <= args.len(),
                        copies.len() == i,
                        forall|k: int| 0 <= k < i ==> copies[k]@ == args[k]@,
                        *self is Call,
                        self->args == *args,
                    decreases args.len() - i,
                {
                    assert(decreases_to!(*args => args[i as int]));
                    copies.push(args[i].clone());
                    i += 1;
                }
                let r = Expr::Call { name: name.clone(), args: copies };
                proof {
                    lemma_call_view(*self);
                    lemma_call_view(r);
                    assert(expr_views(copies@) =~= expr_views(args@));
                }
                r
            },
        }
    }
}

impl Clone for Stmt {
    fn clone(&self) -> (r: Self)
        ensures
            r@ == self@,
    {
        match self {
            Stmt::Let { name, value } => Stmt::Let { name: name.clone(), value: value.clone() },
            Stmt::Expr(e) => Stmt::Expr(e.clone()),
        }
    }
}

} // verus!

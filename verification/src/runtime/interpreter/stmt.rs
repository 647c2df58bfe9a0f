//! Execution of statements.

use vstd::prelude::*;
use super::expr::ExprEvaluator;
use crate::frontend::ast::Stmt;
use crate::runtime::semantics::{executed, run_is};

verus! {

/// The executor of statements.
pub struct StmtExecutor;

impl StmtExecutor {
    /// Runs one statement. `let` evaluates its expression and then binds
    /// the name to the value, in place of any value that it had; an
    /// expression alone is evaluated and its value dropped. An error leaves
    /// the variables as they were.
    pub fn execute(stmt: Stmt, evaluator: &mut ExprEvaluator) -> (r: Result<(), String>)
        requires
            old(evaluator).wf(),
        ensures
            final(evaluator).wf(),
            run_is(
                r,
                final(evaluator).bindings(),
                old(evaluator).written(),
                final(evaluator).written(),
                executed(old(evaluator).bindings(), stmt@),
            ),
    {
        match stmt {
            Stmt::Let { name, value } => {
                match evaluator.evaluate(value) {
                    Ok(val) => {
                        evaluator.set_variable(name, val);
                        Ok(())
                    },
                    Err(message) => Err(message),
                }
            },
            Stmt::Expr(expr) => {
                match evaluator.evaluate(expr) {
                    Ok(_) => Ok(()),
                    Err(message) => Err(message),
                }
            },
        }
    }
}

} // verus!

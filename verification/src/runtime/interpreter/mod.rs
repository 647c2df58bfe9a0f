//! The interpreter: runs the statements of a program in order.

use vstd::prelude::*;
use crate::frontend::ast::{stmt_views, Stmt};
use crate::runtime::semantics::{executed, no_bindings, ran, ran_from, run_is, Bindings};
use expr::ExprEvaluator;
use stmt::StmtExecutor;

pub mod expr;
pub mod stmt;

verus! {

/// An interpreter: one set of variables, which lives as long as it does,
/// and the text that the programs it ran have printed.
pub struct Interpreter {
    evaluator: ExprEvaluator,
}

impl Interpreter {
    /// The variables: each bound name with its value.
    pub closed spec fn bindings(&self) -> Bindings {
        self.evaluator.bindings()
    }

    /// The text printed so far and not yet taken.
    pub closed spec fn written(&self) -> Seq<char> {
        self.evaluator.written()
    }

    /// The variables are kept in good order.
    pub closed spec fn wf(&self) -> bool {
        self.evaluator.wf()
    }

    /// An interpreter with no variable bound and nothing printed.
    pub fn new() -> (i: Interpreter)
        ensures
            i.wf(),
            i.bindings() == no_bindings(),
            i.written() == Seq::<char>::empty(),
    {
        Interpreter { evaluator: ExprEvaluator::new() }
    }

    /// Runs the statements in order. The first error ends the run and is
    /// returned as it is; the statements before it have had their effect,
    /// those behind it are not run.
    pub fn execute(&mut self, statements: Vec<Stmt>) -> (r: Result<(), String>)
        requires
            old(self).wf(),
        ensures
            final(self).wf(),
            run_is(
                r,
                final(self).bindings(),
                old(self).written(),
                final(self).written(),
                ran(old(self).bindings(), stmt_views(statements@)),
            ),
    {
        let ghost list = stmt_views(statements@);
        let ghost start = self.written();
        let ghost goal = ran_from(self.bindings(), list, 0);
        assert(start + goal.output =~= self.written() + goal.output);
        for stmt in it: statements
            invariant
                self.wf(),
                list == stmt_views(it.seq()),
                list == stmt_views(statements@),
                start == old(self).written(),
                goal == ran_from(old(self).bindings(), list, 0),
                goal.bindings == ran_from(self.bindings(), list, it.index() as int).bindings,
                goal.result == ran_from(self.bindings(), list, it.index() as int).result,
                start + goal.output == self.written() + ran_from(
                    self.bindings(),
                    list,
                    it.index() as int,
                ).output,
        {
            let ghost before = self.written();
            let ghost env = self.bindings();
            let ghost i = it.index() as int;
            assert(stmt@ == list[i]);
            match StmtExecutor::execute(stmt, &mut self.evaluator) {
                Ok(()) => {
                    proof {
                        let first = executed(env, list[i]);
                        let rest = ran_from(first.bindings, list, i + 1);
                        assert(before + (first.output + rest.output) =~= before + first.output
                            + rest.output);
                    }
                },
                Err(message) => {
                    return Err(message);
                },
            }
        }
        assert(self.written() + Seq::<char>::empty() =~= self.written());
        Ok(())
    }

    /// Hands out what was printed since the last call, and keeps none of it.
    pub fn take_output(&mut self) -> (text: String)
        requires
            old(self).wf(),
        ensures
            final(self).wf(),
            final(self).bindings() == old(self).bindings(),
            final(self).written() == Seq::<char>::empty(),
            text@ == old(self).written(),
    {
        self.evaluator.take_output()
    }
}

impl Default for Interpreter {
    fn default() -> (i: Self)
        ensures
            i.wf(),
            i.bindings() == no_bindings(),
            i.written() == Seq::<char>::empty(),
    {
        Interpreter::new()
    }
}

} // verus!

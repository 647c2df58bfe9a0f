//! The builtin `log`: `print` under its other name.

use vstd::prelude::*;
use super::print;
use crate::frontend::ast::{expr_views, Expr};
use crate::runtime::interpreter::expr::ExprEvaluator;
use crate::runtime::semantics::{outcome_is, printed};
use crate::runtime::value::Value;

verus! {

/// Prints the arguments on one line, as `print` does.
pub fn call(args: Vec<Expr>, eval: &mut ExprEvaluator) -> (r: Result<Value, String>)
    requires
        old(eval).wf(),
    ensures
        final(eval).wf(),
        final(eval).bindings() == old(eval).bindings(),
        outcome_is(
            r,
            old(eval).written(),
            final(eval).written(),
            printed(old(eval).bindings(), expr_views(args@)),
        ),
{
    print::call(args, eval)
}

} // verus!

//! The builtins, and how a call finds the one it names.

use vstd::prelude::*;
use crate::chars::same_text;
use crate::frontend::ast::{expr_views, Expr};
use crate::runtime::interpreter::expr::ExprEvaluator;
use crate::runtime::semantics::{called, outcome_is};
use crate::runtime::value::Value;

pub mod log;
pub mod print;

pub use print::call as call_print;

verus! {

/// Calls the builtin `name` with `args`, which it evaluates through `eval`
/// as far as it needs them. A name that is no builtin is an error.
pub fn call_builtin(name: &str, args: Vec<Expr>, eval: &mut ExprEvaluator) -> (r: Result<
    Value,
    String,
>)
    requires
        old(eval).wf(),
    ensures
        final(eval).wf(),
        final(eval).bindings() == old(eval).bindings(),
        outcome_is(
            r,
            old(eval).written(),
            final(eval).written(),
            called(old(eval).bindings(), name@, expr_views(args@)),
        ),
    decreases expr_views(args@), 1int,
{
    if same_text(name, "print") {
        call_print(args, eval)
    } else {
        assert(eval.written() + Seq::<char>::empty() =~= eval.written());
        let mut message = String::from_str("Unknown builtin: ");
        message.append(name);
        Err(message)
    }
}

} // verus!

//! Evaluation of expressions, and the variables that it reads.

use vstd::prelude::*;
use crate::frontend::ast::{lemma_call_view, Expr};
use crate::runtime::builtins::call_builtin;
use crate::runtime::semantics::{evaluated, looked_up, no_bindings, outcome_is, Bindings};
use crate::runtime::value::Value;

verus! {

/// The evaluator: the variables of a program, and the text that the
/// program has printed so far.
pub struct ExprEvaluator {
    names: Vec<String>,
    values: Vec<Value>,
    bound: Ghost<Bindings>,
    output: String,
}

impl ExprEvaluator {
    /// The variables: each bound name with its value.
    pub closed spec fn bindings(&self) -> Bindings {
        self.bound@
    }

    /// The text printed so far and not yet taken.
    pub closed spec fn written(&self) -> Seq<char> {
        self.output@
    }

    /// Each name is kept once, with its value beside it, and the names kept
    /// are the names bound.
    pub closed spec fn wf(&self) -> bool {
        &&& self.names.len() == self.values.len()
        &&& forall|i: int, j: int|
            0 <= i < j < self.names.len() ==> self.names[i]@ != self.names[j]@
        &&& forall|i: int|
            0 <= i < self.names.len() ==> self.bound@.contains_key(#[trigger] self.names[i]@)
                && self.bound@[self.names[i]@] == self.values[i]@
        &&& forall|name: Seq<char>| #[trigger]
            self.bound@.contains_key(name) ==> exists|i: int|
                0 <= i < self.names.len() && self.names[i]@ == name
    }

    /// An evaluator with no variable bound and nothing printed.
    pub fn new() -> (e: ExprEvaluator)
        ensures
            e.wf(),
            e.bindings() == no_bindings(),
            e.written() == Seq::<char>::empty(),
    {
        ExprEvaluator {
            names: Vec::new(),
            values: Vec::new(),
            bound: Ghost(Map::empty()),
            output: String::new(),
        }
    }

    /// The index at which `name` is kept, if it is bound.
    fn find(&self, name: &String) -> (at: Option<usize>)
        requires
            self.wf(),
        ensures
            match at {
                Some(i) => i < self.names.len() && self.names[i as int]@ == name@,
                None => !self.bound@.contains_key(name@),
            },
    {
        let mut i: usize = 0;
        while i < self.names.len()
            invariant
                i <= self.names.len(),
                forall|k: int| 0 <= k < i ==> self.names[k]@ != name@,
            decreases self.names.len() - i,
        {
            if self.names[i] == *name {
                return Some(i);
            }
            i += 1;
        }
        None
    }

    /// Binds `name` to `value`, in place of any value that it had.
    pub fn set_variable(&mut self, name: String, value: Value)
        requires
            old(self).wf(),
        ensures
            final(self).wf(),
            final(self).bindings() == old(self).bindings().insert(name@, value@),
            final(self).written() == old(self).written(),
    {
        let ghost key = name@;
        let ghost val = value@;
        let slot = match self.find(&name) {
            Some(i) => {
                self.values.set(i, value);
                i
            },
            None => {
                self.names.push(name);
                self.values.push(value);
                self.names.len() - 1
            },
        };
        self.bound = Ghost(self.bound@.insert(key, val));
        proof {
            assert(self.names[slot as int]@ == key);
            assert forall|n: Seq<char>| #[trigger]
                self.bound@.contains_key(n) implies exists|i: int|
                0 <= i < self.names.len() && self.names[i]@ == n by {
                if n != key {
                    assert(old(self).bound@.contains_key(n));
                    let i = choose|i: int|
                        0 <= i < old(self).names.len() && old(self).names[i]@ == n;
                    assert(self.names[i]@ == n);
                }
            }
        }
    }

    /// The value of the variable `name`; an error where it is not bound.
    pub fn get_variable(&self, name: &String) -> (r: Result<Value, String>)
        requires
            self.wf(),
        ensures
            match looked_up(self.bindings(), name@) {
                Ok(v) => r is Ok && r->Ok_0@ == v,
                Err(message) => r is Err && r->Err_0@ == message,
            },
    {
        match self.find(name) {
            Some(i) => Ok(self.values[i].clone()),
            None => {
                let mut message = String::from_str("Undefined variable: ");
                message.append(name.as_str());
                Err(message)
            },
        }
    }

    /// Appends `text` to what was printed.
    pub fn write(&mut self, text: &str)
        requires
            old(self).wf(),
        ensures
            final(self).wf(),
            final(self).bindings() == old(self).bindings(),
            final(self).written() == old(self).written() + text@,
    {
        self.output.append(text);
    }

    /// Hands out what was printed since the last call, and keeps none of it.
    pub fn take_output(&mut self) -> (text: String)
        requires
            old(self).wf(),
        ensures
            final(self).wf(),
            final(self).bindings() == old(self).bindings(),
            final(self).written() == Seq::<char>::empty(),
            text@ == old(self).written(),
    {
        let text = self.output.clone();
        self.output = String::new();
        text
    }

    /// Evaluates `expr`. A literal gives its value, a name the value of the
    /// variable, a call what the builtin of that name gives for the
    /// arguments. The variables stay as they are; what the builtins print
    /// is appended to the output.
    pub fn evaluate(&mut self, expr: Expr) -> (r: Result<Value, String>)
        requires
            old(self).wf(),
        ensures
            final(self).wf(),
            final(self).bindings() == old(self).bindings(),
            outcome_is(
                r,
                old(self).written(),
                final(self).written(),
                evaluated(old(self).bindings(), expr@),
            ),
        decreases expr@, 0int,
    {
        assert(self.written() + Seq::<char>::empty() =~= self.written());
        match expr {
            Expr::String(s) => Ok(Value::String(s)),
            Expr::Number(n) => Ok(Value::Number(n)),
            Expr::Boolean(b) => Ok(Value::Boolean(b)),
            Expr::Identifier(name) => self.get_variable(&name),
            Expr::Call { name, args } => {
                proof {
                    lemma_call_view(expr);
                }
                call_builtin(name.as_str(), args, self)
            },
        }
    }
}


impl Default for ExprEvaluator {
    fn default() -> (e: Self)
        ensures
            e.wf(),
            e.bindings() == no_bindings(),
            e.written() == Seq::<char>::empty(),
    {
        ExprEvaluator::new()
    }
}

} // verus!

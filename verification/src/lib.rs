//! Noviq: a small interpreted language.
//!
//! The front end turns program text into tokens and then into statements;
//! the runtime executes the statements against one flat table of variables.

use vstd::prelude::*;
use crate::frontend::parser::program_of;
use crate::runtime::semantics::{no_bindings, ran, Run};

pub mod chars;
pub mod frontend;
pub mod number;
pub mod photon;
pub mod runtime;
pub mod system_check;
pub mod utils;

pub use frontend::{Lexer, Parser};
pub use runtime::Interpreter;
pub use utils::get_version;

verus! {

/// What a program text gives when it is run with no variable bound: the
/// run of its statements, or, where it does not parse, the message of the
/// parse error and nothing printed.
pub open spec fn program_run(source: Seq<char>) -> Run {
    match program_of(source) {
        Ok(statements) => ran(no_bindings(), statements),
        Err(message) => Run {
            bindings: no_bindings(),
            result: Err(message),
            output: Seq::empty(),
        },
    }
}

/// Parses and runs a program. Returns what it printed, and `Ok` or the
/// message of the error that ended it. A program that does not parse runs
/// no statement.
pub fn execute_program(source: &str) -> (r: (String, Result<(), String>))
    ensures
        r.0@ == program_run(source@).output,
        match program_run(source@).result {
            Ok(_) => r.1 is Ok,
            Err(message) => r.1 is Err && r.1->Err_0@ == message,
        },
{
    let mut parser = Parser::new(source);
    match parser.parse() {
        Ok(statements) => {
            let mut interpreter = Interpreter::new();
            let result = interpreter.execute(statements);
            let output = interpreter.take_output();
            assert(Seq::<char>::empty() + program_run(source@).output =~= program_run(
                source@,
            ).output);
            (output, result)
        },
        Err(message) => (String::new(), Err(message)),
    }
}

} // verus!

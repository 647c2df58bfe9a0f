//! The runtime: values, builtins and the interpreter.

pub mod builtins;
pub mod interpreter;
pub mod semantics;
pub mod value;

pub use interpreter::Interpreter;
pub use value::Value;

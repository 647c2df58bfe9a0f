//! The front end: tokens, the syntax tree, the lexer and the parser.

pub mod ast;
pub mod lexer;
pub mod parser;
pub mod token;

pub use ast::{Expr, Stmt};
pub use lexer::Lexer;
pub use parser::Parser;
pub use token::Token;

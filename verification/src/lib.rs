//! Front end for the Kaleidoscope expression language: a lexer, a
//! precedence-climbing parser with user-definable binary operators, and the
//! plain-data configuration surface of the native code-generation backend
//! that the syntax tree is lowered into.

pub mod error;
pub mod ast;
pub mod backend;
pub mod gen;
pub mod lexer;
pub mod parser;

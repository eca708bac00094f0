//! A minimal interpreter for an expression-and-variable-declaration
//! language: a lexer turns source text into tokens, a recursive-descent
//! parser with operator precedence builds an abstract syntax tree, and an
//! evaluator walks that tree against a lexically scoped environment of
//! variables, producing a runtime value.
//!
//! Every stage returns a typed error instead of aborting: the lexer
//! reports unrecognized characters, the parser unexpected tokens, the
//! environment name clashes, and the evaluator invalid assignment targets
//! and division by zero.

pub mod ast;
pub mod environment;
pub mod errors;
pub mod interpreter;
pub mod lexer;
pub mod parser;
pub mod values;

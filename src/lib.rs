//! An interpreter for a small Logo dialect: a parser from source text to a
//! command tree, and an evaluator that runs that tree against variables,
//! procedures, an operand stack and a turtle that draws into an image.

pub mod ast;
pub mod error;
pub mod grammar;
pub mod interpreter;
pub mod laws;
pub mod operators;
pub mod output;
pub mod parser;
pub mod procedure;
pub mod semantics;
pub mod stack;
pub mod text;
pub mod turtle;
pub mod variables;

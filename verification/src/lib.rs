//! A tree-walking evaluator for a small Scheme-like language.
//!
//! The crate is organised leaf-first: `ast` holds the expression data
//! model, `env` the chain of lexical scope frames together with the
//! native procedures, `eval` the recursive dispatcher, and `parser` a
//! reader that turns source text into expression trees.

pub mod ast;
pub mod env;
pub mod eval;
pub mod laws;
pub mod lexer;
pub mod parser;

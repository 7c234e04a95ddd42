//! A small ahead-of-time compiler for a C-like toy language: a lexer, a
//! precedence-climbing parser into an arena of expression nodes, scoped
//! symbol tables, and a code generator that emits stack-machine style x86-64
//! assembly text.  Each stage is stated as spec functions and verified
//! against them.

pub mod text;
pub mod token;
pub mod tokenizer;
pub mod ast;
pub mod error;
pub mod parser;
pub mod grammar;
pub mod symbols;
pub mod codegen;
pub mod compiler;
pub mod laws;

//! The front-to-back execution pipeline of a small dynamically-typed
//! scripting language: source text is lexed into tokens, parsed into an
//! abstract syntax tree, and evaluated against a chain of lexical scopes,
//! yielding a runtime value or a diagnosed error.
pub mod ast;
pub mod common;
pub mod envr;
pub mod interp;
pub mod lexer;
pub mod numerics;
pub mod parser;
pub mod token;
pub mod value;

//! A small compiler front end for a toy language: a character-level cursor,
//! a hand-written lexer, a recursive-descent parser producing a typed
//! abstract syntax tree, and whole-program analyses that report unused
//! variables, functions and arguments.

pub mod analyzer;
pub mod ast;
pub mod cursor;
pub mod errors;
pub mod lexer;
pub mod parser;
pub mod text;
pub mod token;

//! The interface to the parser: the syntax tree it produces.

pub mod ast;

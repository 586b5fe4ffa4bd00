//! Front-end lowering for a Python-like language: scope resolution over a
//! parsed syntax tree and construction of a per-function control-flow graph.

pub mod compiler;
pub mod parser;

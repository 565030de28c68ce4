//! The core of a compiler for a small C-like language: constant folding,
//! lowering of the syntax tree to a textual intermediate representation, and
//! instruction selection from that representation to assembly text.

pub mod ast;
pub mod codegen;
pub mod consts;
pub mod eval;
pub mod irgen;
pub mod text;

//! The execution core of a bytecode interpreter for a small scripting
//! language: a scanner that turns source text into tokens, a chunk that holds
//! bytecode with its constants and line table, and a stack machine that runs
//! a chunk.

pub mod chunk;
pub mod compiler;
pub mod scanner;
pub mod text;
mod utf8;
pub mod value;
pub mod vm;

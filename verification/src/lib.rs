//! Locates one function inside a compiler-emitted assembly translation unit
//! and reconstructs it as a typed sequence of statements, resolving the
//! mapping from numeric file indices to source file paths.

pub mod ast;
pub mod chars;
pub mod laws;
pub mod outcome;
pub mod parse;

//! Arc: a small expression-and-statement language, from source text to value.

pub mod ast;

//! What the generators of bindings for other languages are built from:
//! the description of a schema, the text they write, and the generators
//! themselves.

pub mod string_utils;
pub mod meta;
pub mod writer;
pub mod generator;
pub mod csharp;

//! A small composable parsing engine: primitive parsers (literal tags,
//! character classes, numeric literals), combinators (sequence, ordered
//! alternation, repetition, delimiting, mapping, context labels), a
//! recoverable scanning search, and a line/column error renderer.
//!
//! Input is a buffer of characters; a [`cursor::Cursor`] is an offset into
//! that buffer, so slicing never copies. Every parser is a total function
//! from a buffer and a cursor to a tagged outcome, and each executable
//! function is proved equal to a specification-level semantics.

pub mod cursor;
pub mod errors;
pub mod outcome;
pub mod classes;
pub mod primitives;
pub mod numbers;
pub mod grammar;
pub mod combinators;
pub mod parsers;
pub mod hex;
pub mod scan;
pub mod laws;
pub mod render;

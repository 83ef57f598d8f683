//! A declarative, combinator-style parsing library.
//!
//! Grammars are described by composing primitive grammatical elements —
//! tokens, identifiers, numbers, strings, delimited groups, separated
//! lists and indentation blocks — into structured values. Every element
//! carries the span of source text it was read from, and every parse
//! follows one backtracking discipline: speculative work happens on a
//! cloned cursor, and only success moves the original forward.

pub mod parsing;
pub mod data;
pub mod data_formats;
pub mod json;
pub mod language_formats;

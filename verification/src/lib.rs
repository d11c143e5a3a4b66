//! A lexical front end for source-comment extraction: it partitions raw
//! source text into a lossless sequence of whitespace-run and comment
//! tokens, or rejects the input with a structured error. The scanners in
//! `parser` are proved against the mathematical model in `model`, and the
//! laws in `laws` state what holds of the lexer as a whole.

pub mod laws;
pub mod model;
pub mod parser;
pub mod token;

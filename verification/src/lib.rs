//! Lexical scanner for a small scripting language.
//!
//! The scanner turns a source string into a flat sequence of classified
//! tokens.  Its behaviour is specified by a mathematical model of the
//! tokenization (`model`): a recursive description of how the input decomposes
//! into lexical units, which the executable scanner is proved to follow
//! exactly.  General laws about the token stream (termination marker, maximal
//! munch, line tracking, window coverage) are stated and proved in `laws`.

pub mod cutter;
pub mod diag;
pub mod keywords;
pub mod laws;
pub mod model;
pub mod scanner;
pub mod token;
pub mod token_type;
pub mod value;

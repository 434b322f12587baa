//! A lexical analyzer for a small dynamic scripting language.
//!
//! The scanner turns a byte buffer of source text into an ordered sequence of
//! tokens, always terminated by a single end-of-input sentinel, and records a
//! diagnostic for every malformed construct instead of halting the scan.

pub mod model;
pub mod scanner;
pub mod token;
pub mod utils;

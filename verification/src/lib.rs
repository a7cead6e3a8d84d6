//! A fortune-style quote library: a flat-file database of quotes separated by
//! a `"\n%\n"` delimiter line, length-based filtering, uniform random
//! selection, ANSI colorizing, and appending of new quotes.
//!
//! All text is handled as raw bytes, so record lengths and delimiter
//! positions are exact byte counts.

pub mod append;
pub mod bytes;
pub mod cli;
pub mod errors;
pub mod filter;
pub mod format;
pub mod quote;
pub mod records;
pub mod select;

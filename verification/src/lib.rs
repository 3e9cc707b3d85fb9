//! A verified line-oriented substring search library.
//!
//! Given a query string and the full contents of a text file, the library
//! returns every line of the contents that contains the query, either with
//! exact (case-sensitive) comparison or after lowercasing both sides.
//! A small configuration builder turns command-line arguments and
//! environment-derived defaults into a search configuration.

pub mod config;
pub mod lines;
pub mod matching;

pub use config::Config;
pub use matching::search;
pub use matching::search_case_insensitive;

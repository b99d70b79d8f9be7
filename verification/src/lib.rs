//! Conversion of unsigned numerals between positional bases 2 to 62.

pub mod alphabet;
pub mod cli;
pub mod convert;
pub mod error;
pub mod laws;
pub mod numeral;

//! An assembler for a small accumulator-based one-address CPU.
//!
//! Source text is tokenized, parsed into two sections (`.text` instructions
//! and `.data` words) with deferred label resolution, and finally encoded
//! into fixed-width two-byte machine words.

pub mod instructions;
pub mod lexer;
pub mod parser;
pub mod token;

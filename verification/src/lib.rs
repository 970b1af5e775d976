//! A scanner for a small scripting language: it turns source text into a
//! sequence of tokens that ends in `Eof`, and reports the text that it cannot
//! read without stopping at it.
//!
//! `grammar` says what the tokens of a text are, `scanner` reads them, and
//! `theorems` states what holds of every scan.

pub mod diagnostic;
pub mod grammar;
pub mod keywords;
pub mod scanner;
pub mod text;
pub mod theorems;
pub mod token;

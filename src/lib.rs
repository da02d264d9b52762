//! A scanner for a small scripting language: it turns source text into
//! tokens, reports malformed input with its line, and prints each token in
//! a fixed one-line form.
use vstd::prelude::*;

pub mod laws;
pub mod render;
pub mod scanner;
pub mod spec;
mod text;
pub mod token;

pub use scanner::{make_next, tokenize, Lox};
pub use token::{Diagnostic, Literal, Number, ScanError, Token, TokenType};

verus! {

} // verus!

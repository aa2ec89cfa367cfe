//! A small scripting language: source text is scanned into tokens, parsed into statements
//! and run against one global environment of variables.

use vstd::prelude::*;

pub mod text;
pub mod token;
pub mod lexer;
pub mod ast;
pub mod parser;
pub mod value;
pub mod env;
pub mod eval;
pub mod interp;
pub mod laws;

verus! {

} // verus!

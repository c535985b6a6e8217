//! Front end of the Aether scripting language: scanner, parser, syntax tree,
//! symbol index and diagnostics.
use vstd::prelude::*;

pub mod ast;
pub mod builtins;
pub mod chars;
pub mod completion;
pub mod diagnostics;
pub mod docs;
pub mod lexer;
pub mod parser;
pub mod symbols;
pub mod text;
pub mod token;

verus! {

} // verus!

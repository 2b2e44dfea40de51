//! A notepad-calculator expression language: free-form lines of text mixing
//! numbers, named variables, and arithmetic and logical operators. Each line
//! is tokenized, parsed, and evaluated against a shared variable environment,
//! and the last value of each line is rendered for display.

use vstd::prelude::*;

pub mod lexer;
pub mod parser;
pub mod interpreter;
pub mod document;
pub mod num;

verus! {

} // verus!

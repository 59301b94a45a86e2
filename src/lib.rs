//! An LL(1) table-driven calculator engine.
//!
//! A single parse stack holds grammar symbols and embedded semantic actions;
//! a grammar table chooses the production for each pending non-terminal from
//! one token of lookahead. The engine never builds a parse tree: it emits the
//! semantic actions in evaluation order, and whoever owns the numeric values
//! performs them.
use vstd::prelude::*;

pub mod effect;
pub mod engine;
pub mod grammar;
pub mod lexer;
pub mod machine;
pub mod symbol;

verus! {

} // verus!

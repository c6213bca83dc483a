//! A recursive-descent parser from text to expression trees: numbers,
//! identifiers, arrays, calls, groups, prefix and postfix operators, and
//! binary operators resolved by precedence. Every node carries its byte span.
//!
//! `grammar` states the language as spec functions over bytes; `parser`
//! holds the executable parser, proved to produce exactly what `grammar`
//! describes; `ast` holds the tree, its model and span-blind comparison;
//! `render` prints a tree's payload.

use vstd::prelude::*;

pub mod ast;
pub mod error;
pub mod grammar;
pub mod laws;
pub mod parser;
pub mod render;

verus! {

} // verus!

use vstd::prelude::*;

pub mod operator;
pub mod token;
pub mod name_map;
pub mod ty;
pub mod bytecode;
pub mod scope;
pub mod syntax;
pub mod grammar;
pub mod parser;
pub mod compiler;
pub mod typing;
pub mod codegen;
pub mod laws;

verus! {
} // verus!

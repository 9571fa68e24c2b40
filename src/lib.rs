//! The back end of a small imperative language: a compiler from syntax trees
//! to register bytecode, and a virtual machine that runs it.
//!
//! `compiler::compile` returns exactly the program that `compiler::compiled`
//! describes. `interpreter::Interpreter::step` runs one instruction as
//! `interpreter::step_spec` describes, and hands double arithmetic and native
//! calls to its host. `layout` states what compiled code looks like.

use vstd::prelude::*;

pub mod position;
pub mod number;
pub mod ast;
pub mod bytecode;
pub mod compiler;
pub mod value;
pub mod interpreter;
pub mod layout;

verus! {

} // verus!

//! A bytecode virtual machine: a loader that parses a precompiled
//! program image into a tree of function prototypes, and a register-based
//! interpreter that executes the tree with call frames, lexically
//! captured upvalues, tail calls and a small runtime library.
//!
//! Numbers travel as their IEEE-754 bit patterns; the comparisons,
//! equality and negation on them are verified bit logic, and the rounding
//! arithmetic goes through a software float implementation behind trusted
//! wrappers.  Reading a file and writing to the standard output stay with
//! the caller: the loader takes bytes and the interpreter returns the
//! bytes the program printed.

pub mod call_frame;
pub mod config;
pub mod constant;
pub mod decode;
pub mod encode;
pub mod function;
pub mod global_environment;
pub mod instruction;
pub mod interpreter;
pub mod local_variable;
pub mod metadata;
pub mod numeric;
pub mod object;
pub mod text;
pub mod validate;

use vstd::prelude::*;

verus! {

} // verus!

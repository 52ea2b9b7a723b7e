//! Byte-string case folding (ASCII and UTF-8), the conversions between
//! interpreter values and Rust primitives, and the interpreter's symbol table.

pub mod case_folding;
pub mod convert;
pub mod enc;
pub mod error;
pub mod hash;
pub mod interpreter;
pub mod symbol;
pub mod value;

use vstd::prelude::*;

verus! {

} // verus!

//! The `Hash` class marker.

use vstd::prelude::*;

verus! {

/// The Rust type that stands for Ruby's `Hash` class.
#[derive(Debug, Clone, Copy)]
pub struct Hash;

} // verus!

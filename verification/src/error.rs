//! Conversion errors.

use vstd::prelude::*;

use crate::value::{Ruby, Rust};

verus! {

/// A Rust value could not be boxed into a Ruby value of the given type.
#[derive(Debug, Clone, Copy, PartialEq, Eq, Structural)]
pub struct BoxIntoRubyError {
    pub from: Rust,
    pub into: Ruby,
}

/// A Ruby value could not be unboxed into a Rust value of the given type.
#[derive(Debug, Clone, Copy, PartialEq, Eq, Structural)]
pub struct UnboxRubyError {
    pub from: Ruby,
    pub into: Rust,
}

/// The error of a failed conversion.
#[derive(Debug, Clone, Copy, PartialEq, Eq, Structural)]
pub enum Error {
    /// A Rust value does not fit the Ruby type.
    BoxIntoRuby(BoxIntoRubyError),
    /// A Ruby value does not convert into the Rust type.
    UnboxRuby(UnboxRubyError),
    /// The symbol table holds as many symbols as ids can name.
    SymbolOverflow,
}

/// The error for a Rust value of type `from` that does not fit a Ruby `into`.
pub open spec fn box_error(from: Rust, into: Ruby) -> Error {
    Error::BoxIntoRuby(BoxIntoRubyError { from, into })
}

/// The error for a Ruby value of type `from` that does not convert into a
/// Rust `into`.
pub open spec fn unbox_error(from: Ruby, into: Rust) -> Error {
    Error::UnboxRuby(UnboxRubyError { from, into })
}

impl BoxIntoRubyError {
    /// The error for a Rust value of type `from` that does not fit a Ruby `into`.
    pub fn new(from: Rust, into: Ruby) -> (e: Error)
        ensures
            e == box_error(from, into),
    {
        Error::BoxIntoRuby(BoxIntoRubyError { from, into })
    }
}

impl UnboxRubyError {
    /// The error for a Ruby value of type `from` that does not convert into
    /// a Rust `into`.
    pub fn new(from: Ruby, into: Rust) -> (e: Error)
        ensures
            e == unbox_error(from, into),
    {
        Error::UnboxRuby(UnboxRubyError { from, into })
    }
}

} // verus!

//! Conversions between Rust values and interpreter values.

use vstd::prelude::*;

pub mod boolean;
pub mod bytes;
pub mod fixnum;
pub mod nilable;
pub mod string;

use crate::error::Error;
use crate::interpreter::Artichoke;
use crate::value::{Value, ValueModel};

verus! {

/// A conversion result with the converted value taken by its view.
pub open spec fn view_result<T: View>(r: Result<T, Error>) -> Result<T::V, Error> {
    match r {
        Ok(t) => Ok(t@),
        Err(e) => Err(e),
    }
}

/// A conversion result with the converted optional value taken by its view.
pub open spec fn view_option_result<T: View>(r: Result<Option<T>, Error>) -> Result<
    Option<T::V>,
    Error,
> {
    match r {
        Ok(Some(t)) => Ok(Some(t@)),
        Ok(None) => Ok(None),
        Err(e) => Err(e),
    }
}

/// A conversion result with the produced value taken by its model.
pub open spec fn value_result(r: Result<Value, Error>) -> Result<ValueModel, Error> {
    match r {
        Ok(v) => Ok(v@),
        Err(e) => Err(e),
    }
}

/// The conversion of a nilable value: `nil` gives `None`, any other value
/// gives `inner`, the result of converting it, wrapped in `Some`.
pub open spec fn nilable<T>(v: ValueModel, inner: Result<T, Error>) -> Result<Option<T>, Error> {
    if v is Nil {
        Ok(None)
    } else {
        match inner {
            Ok(t) => Ok(Some(t)),
            Err(e) => Err(e),
        }
    }
}

/// An infallible conversion from `T` into `U`.
pub trait Convert<T, U> {
    /// Converts `value`.
    fn convert(&self, value: T) -> U;
}

/// A fallible conversion from `T` into `U`.
pub trait TryConvert<T, U> {
    /// Converts `value`, or fails.
    fn try_convert(&self, value: T) -> Result<U, Error>;
}

/// A fallible conversion from `T` into `U` that may change the interpreter.
pub trait TryConvertMut<T, U>: Sized {
    /// What converting `value` into `r` means for this conversion.
    spec fn converts(value: T, r: Result<U, Error>) -> bool;

    /// Converts `value`, or fails; the interpreter is left as it was.
    fn try_convert_mut(&mut self, value: T) -> (r: Result<U, Error>)
        ensures
            *final(self) == *old(self),
            <Self as TryConvertMut<T, U>>::converts(value, r),
    ;
}

/// A fallible conversion of an interpreter value into `Self`.
pub trait TryConvertInto: Sized {
    /// Converts `value`, or fails.
    fn try_convert_into(interp: &Artichoke, value: Value) -> Result<Self, Error>;
}

/// A fallible conversion of an interpreter value into `Self` that may change
/// the interpreter.
pub trait TryConvertIntoMut: Sized {
    /// Converts `value`, or fails.
    fn try_convert_into_mut(interp: &mut Artichoke, value: Value) -> Result<Self, Error>;
}

/// A fallible conversion of a borrowed interpreter value into `Self`, which
/// borrows from it.
pub trait TryConvertIntoRef<'a>: Sized {
    /// Converts `value`, or fails.
    fn try_convert_into_ref(interp: &mut Artichoke, value: &'a Value) -> Result<Self, Error>;
}

} // verus!

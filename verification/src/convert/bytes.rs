//! Conversions between byte buffers and string values.

use vstd::prelude::*;
use vstd::slice::slice_to_vec;

use crate::convert::{value_result, view_result, TryConvertIntoMut, TryConvertIntoRef, TryConvertMut};
use crate::error::{unbox_error, Error, UnboxRubyError};
use crate::interpreter::Artichoke;
use crate::value::{ruby_type_of, Ruby, Rust, Value, ValueModel};

verus! {

/// The bytes that a value converts into: the contents of a string; any other
/// value is refused.
pub open spec fn bytes_from_value(v: ValueModel) -> Result<Seq<u8>, Error> {
    match v {
        ValueModel::String(bytes) => Ok(bytes),
        _ => Err(unbox_error(ruby_type_of(v), Rust::Bytes)),
    }
}

impl<'b> TryConvertMut<&'b [u8], Value> for Artichoke {
    /// A string value holding a copy of the bytes.
    open spec fn converts(value: &'b [u8], r: Result<Value, Error>) -> bool {
        value_result(r) == Ok::<ValueModel, Error>(ValueModel::String(value@))
    }

    fn try_convert_mut(&mut self, value: &'b [u8]) -> Result<Value, Error> {
        Ok(Value::String(slice_to_vec(value)))
    }
}

impl TryConvertMut<Vec<u8>, Value> for Artichoke {
    /// A string value holding the bytes.
    open spec fn converts(value: Vec<u8>, r: Result<Value, Error>) -> bool {
        value_result(r) == Ok::<ValueModel, Error>(ValueModel::String(value@))
    }

    fn try_convert_mut(&mut self, value: Vec<u8>) -> Result<Value, Error> {
        Ok(Value::String(value))
    }
}

impl TryConvertIntoMut for Vec<u8> {
    /// The bytes of a string value; any other value is refused.
    fn try_convert_into_mut(interp: &mut Artichoke, value: Value) -> (r: Result<Vec<u8>, Error>)
        ensures
            *final(interp) == *old(interp),
            view_result(r) == bytes_from_value(value@),
            r is Ok <==> value@ is String,
    {
        match value {
            Value::String(bytes) => Ok(bytes),
            _ => Err(UnboxRubyError::new(value.ruby_type(), Rust::Bytes)),
        }
    }
}

impl<'a> TryConvertIntoRef<'a> for &'a [u8] {
    /// The bytes of a string value, borrowed; any other value is refused.
    fn try_convert_into_ref(interp: &mut Artichoke, value: &'a Value) -> (r: Result<&'a [u8], Error>)
        ensures
            *final(interp) == *old(interp),
            view_result(r) == bytes_from_value(value@),
            r is Ok <==> value@ is String,
    {
        match value {
            Value::String(bytes) => Ok(bytes.as_slice()),
            _ => Err(UnboxRubyError::new(value.ruby_type(), Rust::Bytes)),
        }
    }
}

impl TryConvertMut<Value, Vec<u8>> for Artichoke {
    /// The bytes of a string value; any other value is refused.
    open spec fn converts(value: Value, r: Result<Vec<u8>, Error>) -> bool {
        view_result(r) == bytes_from_value(value@)
    }

    fn try_convert_mut(&mut self, value: Value) -> Result<Vec<u8>, Error> {
        Vec::<u8>::try_convert_into_mut(self, value)
    }
}

/// The bytes of a string value convert back into the same bytes.
pub proof fn lemma_bytes_roundtrip(bytes: Seq<u8>)
    ensures
        bytes_from_value(ValueModel::String(bytes)) == Ok::<Seq<u8>, Error>(bytes),
{
}

/// Only a string value converts into bytes, and into exactly its contents:
/// `nil`, booleans, integers, symbols and objects are all refused.
pub proof fn lemma_only_strings_are_bytes(v: ValueModel)
    ensures
        bytes_from_value(v) is Ok <==> v is String,
        v matches ValueModel::String(b) ==> bytes_from_value(v) == Ok::<Seq<u8>, Error>(b),
        v is Nil ==> bytes_from_value(v) == Err::<Seq<u8>, Error>(unbox_error(Ruby::Nil, Rust::Bytes)),
{
}

} // verus!

//! Conversions between UTF-8 strings and string values.

use vstd::prelude::*;
use vstd::utf8::{decode_utf8, encode_utf8, encode_utf8_decode_utf8, encode_utf8_valid_utf8, valid_utf8};

use crate::convert::{value_result, view_result, TryConvertIntoMut, TryConvertIntoRef, TryConvertMut};
use crate::error::{unbox_error, Error, UnboxRubyError};
use crate::interpreter::Artichoke;
use crate::value::{ruby_type_of, Ruby, Rust, Value, ValueModel};

verus! {

/// The characters that a value converts into: the decoded contents of a
/// string that holds valid UTF-8; a string that does not, or any other value,
/// is refused.
pub open spec fn chars_from_value(v: ValueModel) -> Result<Seq<char>, Error> {
    match v {
        ValueModel::String(bytes) => if valid_utf8(bytes) {
            Ok(decode_utf8(bytes))
        } else {
            Err(unbox_error(Ruby::String, Rust::String))
        },
        _ => Err(unbox_error(ruby_type_of(v), Rust::String)),
    }
}

/// `core::str::from_utf8`, with its error dropped.
///
/// Claimed of the outside function, as its documentation states: it succeeds
/// exactly on valid UTF-8, and then the string's UTF-8 encoding is `bytes`.
#[verifier::external_body]
fn str_from_utf8(bytes: &[u8]) -> (r: Option<&str>)
    ensures
        r is Some <==> valid_utf8(bytes@),
        r matches Some(s) ==> encode_utf8(s@) == bytes@,
{
    core::str::from_utf8(bytes).ok()
}

/// `String::from_utf8`, with its error dropped.
///
/// Claimed of the outside function, as its documentation states: it succeeds
/// exactly on valid UTF-8, and then the string's UTF-8 encoding is `bytes`.
#[verifier::external_body]
fn string_from_utf8(bytes: Vec<u8>) -> (r: Option<String>)
    ensures
        r is Some <==> valid_utf8(bytes@),
        r matches Some(s) ==> encode_utf8(s@) == bytes@,
{
    String::from_utf8(bytes).ok()
}

impl<'b> TryConvertMut<&'b str, Value> for Artichoke {
    /// A string value holding the UTF-8 encoding of the string.
    open spec fn converts(value: &'b str, r: Result<Value, Error>) -> bool {
        value_result(r) == Ok::<ValueModel, Error>(ValueModel::String(encode_utf8(value@)))
    }

    fn try_convert_mut(&mut self, value: &'b str) -> Result<Value, Error> {
        let bytes = value.as_bytes();
        self.try_convert_mut(bytes)
    }
}

impl TryConvertMut<String, Value> for Artichoke {
    /// A string value holding the UTF-8 encoding of the string.
    open spec fn converts(value: String, r: Result<Value, Error>) -> bool {
        value_result(r) == Ok::<ValueModel, Error>(ValueModel::String(encode_utf8(value@)))
    }

    fn try_convert_mut(&mut self, value: String) -> Result<Value, Error> {
        self.try_convert_mut(value.as_str())
    }
}

impl TryConvertIntoMut for String {
    /// The contents of a string value that holds valid UTF-8; any other value
    /// is refused.
    fn try_convert_into_mut(interp: &mut Artichoke, value: Value) -> (r: Result<String, Error>)
        ensures
            *final(interp) == *old(interp),
            view_result(r) == chars_from_value(value@),
    {
        match value {
            Value::String(bytes) => match string_from_utf8(bytes) {
                Some(s) => {
                    proof {
                        encode_utf8_decode_utf8(s@);
                    }
                    Ok(s)
                },
                None => Err(UnboxRubyError::new(Ruby::String, Rust::String)),
            },
            _ => Err(UnboxRubyError::new(value.ruby_type(), Rust::String)),
        }
    }
}

impl<'a> TryConvertIntoRef<'a> for &'a str {
    /// The contents of a string value that holds valid UTF-8, borrowed; any
    /// other value is refused.
    fn try_convert_into_ref(interp: &mut Artichoke, value: &'a Value) -> (r: Result<&'a str, Error>)
        ensures
            *final(interp) == *old(interp),
            view_result(r) == chars_from_value(value@),
    {
        match value {
            Value::String(bytes) => match str_from_utf8(bytes.as_slice()) {
                Some(s) => {
                    proof {
                        encode_utf8_decode_utf8(s@);
                    }
                    Ok(s)
                },
                None => Err(UnboxRubyError::new(Ruby::String, Rust::String)),
            },
            _ => Err(UnboxRubyError::new(value.ruby_type(), Rust::String)),
        }
    }
}

impl TryConvertMut<Value, String> for Artichoke {
    /// The contents of a string value that holds valid UTF-8; any other value
    /// is refused.
    open spec fn converts(value: Value, r: Result<String, Error>) -> bool {
        view_result(r) == chars_from_value(value@)
    }

    fn try_convert_mut(&mut self, value: Value) -> Result<String, Error> {
        String::try_convert_into_mut(self, value)
    }
}

/// A string converts into a value that converts back into the same string.
pub proof fn lemma_string_roundtrip(s: Seq<char>)
    ensures
        chars_from_value(ValueModel::String(encode_utf8(s))) == Ok::<Seq<char>, Error>(s),
{
    encode_utf8_valid_utf8(s);
    encode_utf8_decode_utf8(s);
}

/// Only a string value holding valid UTF-8 converts into a string, and into
/// exactly the characters its bytes encode: `nil`, booleans, integers,
/// symbols, objects and invalid UTF-8 are all refused.
pub proof fn lemma_only_utf8_strings_are_strings(v: ValueModel)
    ensures
        chars_from_value(v) is Ok <==> (v matches ValueModel::String(b) && valid_utf8(b)),
        v matches ValueModel::String(b) ==> (chars_from_value(v) matches Ok(cs) ==> encode_utf8(cs)
            == b),
{
    if let ValueModel::String(b) = v {
        if valid_utf8(b) {
            vstd::utf8::decode_utf8_encode_utf8(b);
        }
    }
}

} // verus!

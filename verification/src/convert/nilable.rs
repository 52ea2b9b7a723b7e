//! Converters for nilable primitive Ruby types: `nil` stands for `None`.
//!
//! Excludes collection types Array and Hash.

use vstd::prelude::*;
use vstd::utf8::encode_utf8;

use crate::convert::bytes::bytes_from_value;
use crate::convert::fixnum::{i64_from_value, unsigned_value};
use crate::convert::string::chars_from_value;
use crate::convert::{
    nilable, value_result, view_option_result, Convert, TryConvert, TryConvertInto,
    TryConvertIntoMut, TryConvertIntoRef, TryConvertMut,
};
use crate::error::Error;
use crate::interpreter::Artichoke;
use crate::value::{Value, ValueModel};

verus! {

impl Convert<Option<Value>, Value> for Artichoke {
    /// The wrapped value, or `nil` for `None`.
    fn convert(&self, value: Option<Value>) -> (v: Value)
        ensures
            match value {
                Some(inner) => v@ == inner@,
                None => v@ == ValueModel::Nil,
            },
    {
        match value {
            Some(inner) => inner,
            None => Value::nil(),
        }
    }
}

impl Convert<Option<i64>, Value> for Artichoke {
    /// The integer as a fixnum, or `nil` for `None`.
    fn convert(&self, value: Option<i64>) -> (v: Value)
        ensures
            match value {
                Some(n) => v@ == ValueModel::Fixnum(n),
                None => v@ == ValueModel::Nil,
            },
    {
        let Some(value) = value else {
            return Value::nil();
        };
        self.convert(value)
    }
}

impl TryConvert<Option<usize>, Value> for Artichoke {
    /// The integer as a fixnum, or `nil` for `None`; an integer beyond the
    /// fixnum range is refused as the plain integer conversion refuses it.
    fn try_convert(&self, value: Option<usize>) -> (r: Result<Value, Error>)
        ensures
            value_result(r) == match value {
                Some(n) => unsigned_value(n as int),
                None => Ok(ValueModel::Nil),
            },
    {
        let Some(value) = value else {
            return Ok(Value::nil());
        };
        self.try_convert(value)
    }
}

impl TryConvertMut<Option<Vec<u8>>, Value> for Artichoke {
    /// A string value holding the bytes, or `nil` for `None`.
    open spec fn converts(value: Option<Vec<u8>>, r: Result<Value, Error>) -> bool {
        value_result(r) == Ok::<ValueModel, Error>(
            match value {
                Some(bytes) => ValueModel::String(bytes@),
                None => ValueModel::Nil,
            },
        )
    }

    fn try_convert_mut(&mut self, value: Option<Vec<u8>>) -> Result<Value, Error> {
        let bytes: Option<&[u8]> = match &value {
            Some(bytes) => Some(bytes.as_slice()),
            None => None,
        };
        self.try_convert_mut(bytes)
    }
}

impl<'b> TryConvertMut<Option<&'b [u8]>, Value> for Artichoke {
    /// A string value holding a copy of the bytes, or `nil` for `None`.
    open spec fn converts(value: Option<&'b [u8]>, r: Result<Value, Error>) -> bool {
        value_result(r) == Ok::<ValueModel, Error>(
            match value {
                Some(bytes) => ValueModel::String(bytes@),
                None => ValueModel::Nil,
            },
        )
    }

    fn try_convert_mut(&mut self, value: Option<&'b [u8]>) -> Result<Value, Error> {
        let Some(value) = value else {
            return Ok(Value::nil());
        };
        self.try_convert_mut(value)
    }
}

impl TryConvertMut<Option<String>, Value> for Artichoke {
    /// A string value holding the UTF-8 encoding of the string, or `nil` for
    /// `None`.
    open spec fn converts(value: Option<String>, r: Result<Value, Error>) -> bool {
        value_result(r) == Ok::<ValueModel, Error>(
            match value {
                Some(s) => ValueModel::String(encode_utf8(s@)),
                None => ValueModel::Nil,
            },
        )
    }

    fn try_convert_mut(&mut self, value: Option<String>) -> Result<Value, Error> {
        let s: Option<&str> = match &value {
            Some(s) => Some(s.as_str()),
            None => None,
        };
        self.try_convert_mut(s)
    }
}

impl<'b> TryConvertMut<Option<&'b str>, Value> for Artichoke {
    /// A string value holding the UTF-8 encoding of the string, or `nil` for
    /// `None`.
    open spec fn converts(value: Option<&'b str>, r: Result<Value, Error>) -> bool {
        value_result(r) == Ok::<ValueModel, Error>(
            match value {
                Some(s) => ValueModel::String(encode_utf8(s@)),
                None => ValueModel::Nil,
            },
        )
    }

    fn try_convert_mut(&mut self, value: Option<&'b str>) -> Result<Value, Error> {
        let Some(value) = value else {
            return Ok(Value::nil());
        };
        self.try_convert_mut(value)
    }
}

impl Convert<Value, Option<Value>> for Artichoke {
    /// `None` for `nil`, else the value itself.
    fn convert(&self, value: Value) -> (r: Option<Value>)
        ensures
            value@ == ValueModel::Nil ==> r is None,
            value@ != ValueModel::Nil ==> (r matches Some(v) && v@ == value@),
    {
        if value.is_nil() {
            None
        } else {
            Some(value)
        }
    }
}

impl TryConvertIntoMut for Option<Vec<u8>> {
    /// `None` for `nil`, the bytes of a string value, and any other value
    /// refused.
    fn try_convert_into_mut(interp: &mut Artichoke, value: Value) -> (r: Result<
        Option<Vec<u8>>,
        Error,
    >)
        ensures
            *final(interp) == *old(interp),
            view_option_result(r) == nilable(value@, bytes_from_value(value@)),
    {
        if value.is_nil() {
            return Ok(None);
        }
        match Vec::<u8>::try_convert_into_mut(interp, value) {
            Ok(bytes) => Ok(Some(bytes)),
            Err(e) => Err(e),
        }
    }
}

impl<'a> TryConvertIntoRef<'a> for Option<&'a [u8]> {
    /// `None` for `nil`, the bytes of a string value borrowed, and any other
    /// value refused.
    fn try_convert_into_ref(interp: &mut Artichoke, value: &'a Value) -> (r: Result<
        Option<&'a [u8]>,
        Error,
    >)
        ensures
            *final(interp) == *old(interp),
            view_option_result(r) == nilable(value@, bytes_from_value(value@)),
    {
        if value.is_nil() {
            return Ok(None);
        }
        match <&'a [u8]>::try_convert_into_ref(interp, value) {
            Ok(bytes) => Ok(Some(bytes)),
            Err(e) => Err(e),
        }
    }
}

impl TryConvertIntoMut for Option<String> {
    /// `None` for `nil`, the contents of a string value that holds valid
    /// UTF-8, and any other value refused.
    fn try_convert_into_mut(interp: &mut Artichoke, value: Value) -> (r: Result<
        Option<String>,
        Error,
    >)
        ensures
            *final(interp) == *old(interp),
            view_option_result(r) == nilable(value@, chars_from_value(value@)),
    {
        if value.is_nil() {
            return Ok(None);
        }
        match String::try_convert_into_mut(interp, value) {
            Ok(s) => Ok(Some(s)),
            Err(e) => Err(e),
        }
    }
}

impl<'a> TryConvertIntoRef<'a> for Option<&'a str> {
    /// `None` for `nil`, the contents of a string value that holds valid
    /// UTF-8 borrowed, and any other value refused.
    fn try_convert_into_ref(interp: &mut Artichoke, value: &'a Value) -> (r: Result<
        Option<&'a str>,
        Error,
    >)
        ensures
            *final(interp) == *old(interp),
            view_option_result(r) == nilable(value@, chars_from_value(value@)),
    {
        if value.is_nil() {
            return Ok(None);
        }
        match <&'a str>::try_convert_into_ref(interp, value) {
            Ok(s) => Ok(Some(s)),
            Err(e) => Err(e),
        }
    }
}

impl TryConvertInto for Option<i64> {
    /// `None` for `nil`, the integer of a fixnum, and any other value refused.
    fn try_convert_into(interp: &Artichoke, value: Value) -> (r: Result<Option<i64>, Error>)
        ensures
            r == nilable(value@, i64_from_value(value@)),
    {
        if value.is_nil() {
            return Ok(None);
        }
        match i64::try_convert_into(interp, value) {
            Ok(n) => Ok(Some(n)),
            Err(e) => Err(e),
        }
    }
}

/// The value of an optional integer converts back into the same optional
impl TryConvertMut<Value, Option<Vec<u8>>> for Artichoke {
    /// `None` for `nil`, the bytes of a string value, and any other value
    /// refused.
    open spec fn converts(value: Value, r: Result<Option<Vec<u8>>, Error>) -> bool {
        view_option_result(r) == nilable(value@, bytes_from_value(value@))
    }

    fn try_convert_mut(&mut self, value: Value) -> Result<Option<Vec<u8>>, Error> {
        Option::<Vec<u8>>::try_convert_into_mut(self, value)
    }
}

impl TryConvertMut<Value, Option<String>> for Artichoke {
    /// `None` for `nil`, the contents of a string value that holds valid
    /// UTF-8, and any other value refused.
    open spec fn converts(value: Value, r: Result<Option<String>, Error>) -> bool {
        view_option_result(r) == nilable(value@, chars_from_value(value@))
    }

    fn try_convert_mut(&mut self, value: Value) -> Result<Option<String>, Error> {
        Option::<String>::try_convert_into_mut(self, value)
    }
}

impl TryConvert<Value, Option<i64>> for Artichoke {
    /// `None` for `nil`, the integer of a fixnum, and any other value refused.
    fn try_convert(&self, value: Value) -> Result<Option<i64>, Error>
        returns
            nilable(value@, i64_from_value(value@)),
    {
        Option::<i64>::try_convert_into(self, value)
    }
}

/// integer: `None` through `nil`, `Some` through a fixnum.
pub proof fn lemma_nilable_i64_roundtrip(o: Option<i64>)
    ensures
        ({
            let v = match o {
                Some(n) => ValueModel::Fixnum(n),
                None => ValueModel::Nil,
            };
            nilable(v, i64_from_value(v)) == Ok::<Option<i64>, Error>(o)
        }),
{
}

/// The value of optional bytes converts back into the same optional bytes:
/// `None` through `nil`, `Some` through a string.
pub proof fn lemma_nilable_bytes_roundtrip(o: Option<Seq<u8>>)
    ensures
        ({
            let v = match o {
                Some(bytes) => ValueModel::String(bytes),
                None => ValueModel::Nil,
            };
            nilable(v, bytes_from_value(v)) == Ok::<Option<Seq<u8>>, Error>(o)
        }),
{
}

/// The value of an optional string converts back into the same optional
/// string: `None` through `nil`, `Some` through a string value.
pub proof fn lemma_nilable_string_roundtrip(o: Option<Seq<char>>)
    ensures
        ({
            let v = match o {
                Some(s) => ValueModel::String(encode_utf8(s)),
                None => ValueModel::Nil,
            };
            nilable(v, chars_from_value(v)) == Ok::<Option<Seq<char>>, Error>(o)
        }),
{
    if let Some(s) = o {
        crate::convert::string::lemma_string_roundtrip(s);
    }
}

/// `nil` and only `nil` converts into `None`, whatever the inner conversion.
pub proof fn lemma_nil_is_none<T>(v: ValueModel, inner: Result<T, Error>)
    ensures
        (nilable(v, inner) == Ok::<Option<T>, Error>(None)) <==> v is Nil,
{
}

} // verus!

//! Conversions between Rust integers and immediate integer values.

use vstd::prelude::*;

use crate::convert::{value_result, Convert, TryConvert, TryConvertInto};
use crate::error::{box_error, unbox_error, BoxIntoRubyError, Error, UnboxRubyError};
use crate::interpreter::Artichoke;
use crate::value::{ruby_type_of, Ruby, Rust, Value, ValueModel};

verus! {

/// The value of an unsigned integer `n`: a fixnum where it fits an `i64`,
/// else refused.
pub open spec fn unsigned_value(n: int) -> Result<ValueModel, Error> {
    if n <= i64::MAX {
        Ok(ValueModel::Fixnum(n as i64))
    } else {
        Err(box_error(Rust::UnsignedInt, Ruby::Fixnum))
    }
}

/// The `i64` that a value converts into: the integer of a fixnum; any other
/// value is refused.
pub open spec fn i64_from_value(v: ValueModel) -> Result<i64, Error> {
    match v {
        ValueModel::Fixnum(n) => Ok(n),
        _ => Err(unbox_error(ruby_type_of(v), Rust::SignedInt)),
    }
}

/// The `u32` that a value converts into: the integer of a fixnum where it is
/// in range; a fixnum out of range, or any other value, is refused.
pub open spec fn u32_from_value(v: ValueModel) -> Result<u32, Error> {
    match v {
        ValueModel::Fixnum(n) => if 0 <= n <= u32::MAX {
            Ok(n as u32)
        } else {
            Err(unbox_error(Ruby::Fixnum, Rust::UnsignedInt))
        },
        _ => Err(unbox_error(ruby_type_of(v), Rust::SignedInt)),
    }
}

/// The `usize` that a value converts into: the integer of a fixnum where it
/// is in range; a fixnum out of range, or any other value, is refused.
pub open spec fn usize_from_value(v: ValueModel) -> Result<usize, Error> {
    match v {
        ValueModel::Fixnum(n) => if 0 <= n <= usize::MAX {
            Ok(n as usize)
        } else {
            Err(unbox_error(Ruby::Fixnum, Rust::UnsignedInt))
        },
        _ => Err(unbox_error(ruby_type_of(v), Rust::SignedInt)),
    }
}

impl Convert<u8, Value> for Artichoke {
    fn convert(&self, value: u8) -> (v: Value)
        ensures
            v@ == ValueModel::Fixnum(value as i64),
    {
        self.convert(value as i64)
    }
}

impl Convert<u16, Value> for Artichoke {
    fn convert(&self, value: u16) -> (v: Value)
        ensures
            v@ == ValueModel::Fixnum(value as i64),
    {
        self.convert(value as i64)
    }
}

impl Convert<u32, Value> for Artichoke {
    fn convert(&self, value: u32) -> (v: Value)
        ensures
            v@ == ValueModel::Fixnum(value as i64),
    {
        self.convert(value as i64)
    }
}

impl TryConvert<u64, Value> for Artichoke {
    fn try_convert(&self, value: u64) -> (r: Result<Value, Error>)
        ensures
            value_result(r) == unsigned_value(value as int),
    {
        if value > 0x7fff_ffff_ffff_ffffu64 {
            return Err(BoxIntoRubyError::new(Rust::UnsignedInt, Ruby::Fixnum));
        }
        Ok(Value::Fixnum(value as i64))
    }
}

impl TryConvert<usize, Value> for Artichoke {
    fn try_convert(&self, value: usize) -> (r: Result<Value, Error>)
        ensures
            value_result(r) == unsigned_value(value as int),
    {
        if value as u64 > 0x7fff_ffff_ffff_ffffu64 {
            return Err(BoxIntoRubyError::new(Rust::UnsignedInt, Ruby::Fixnum));
        }
        Ok(Value::Fixnum(value as i64))
    }
}

impl Convert<i8, Value> for Artichoke {
    fn convert(&self, value: i8) -> (v: Value)
        ensures
            v@ == ValueModel::Fixnum(value as i64),
    {
        self.convert(value as i64)
    }
}

impl Convert<i16, Value> for Artichoke {
    fn convert(&self, value: i16) -> (v: Value)
        ensures
            v@ == ValueModel::Fixnum(value as i64),
    {
        self.convert(value as i64)
    }
}

impl Convert<i32, Value> for Artichoke {
    fn convert(&self, value: i32) -> (v: Value)
        ensures
            v@ == ValueModel::Fixnum(value as i64),
    {
        self.convert(value as i64)
    }
}

impl TryConvert<isize, Value> for Artichoke {
    /// Every `isize` on 32- and 64-bit targets fits an `i64`, so this
    /// conversion always succeeds.
    fn try_convert(&self, value: isize) -> (r: Result<Value, Error>)
        ensures
            value_result(r) == Ok::<ValueModel, Error>(ValueModel::Fixnum(value as i64)),
    {
        Ok(Value::Fixnum(value as i64))
    }
}

impl Convert<i64, Value> for Artichoke {
    fn convert(&self, value: i64) -> (v: Value)
        ensures
            v@ == ValueModel::Fixnum(value),
    {
        Value::Fixnum(value)
    }
}

impl TryConvertInto for i64 {
    fn try_convert_into(interp: &Artichoke, value: Value) -> (r: Result<i64, Error>)
        ensures
            r == i64_from_value(value@),
    {
        match value {
            Value::Fixnum(n) => Ok(n),
            _ => Err(UnboxRubyError::new(value.ruby_type(), Rust::SignedInt)),
        }
    }
}

impl TryConvertInto for u32 {
    fn try_convert_into(interp: &Artichoke, value: Value) -> (r: Result<u32, Error>)
        ensures
            r == u32_from_value(value@),
    {
        let num = match value {
            Value::Fixnum(n) => n,
            _ => return Err(UnboxRubyError::new(value.ruby_type(), Rust::SignedInt)),
        };
        if num < 0 || num > 0xffff_ffffi64 {
            return Err(UnboxRubyError::new(Ruby::Fixnum, Rust::UnsignedInt));
        }
        Ok(num as u32)
    }
}

impl TryConvertInto for usize {
    fn try_convert_into(interp: &Artichoke, value: Value) -> (r: Result<usize, Error>)
        ensures
            r == usize_from_value(value@),
    {
        let num = match value {
            Value::Fixnum(n) => n,
            _ => return Err(UnboxRubyError::new(value.ruby_type(), Rust::SignedInt)),
        };
        if num < 0 || num as u64 > usize::MAX as u64 {
            return Err(UnboxRubyError::new(Ruby::Fixnum, Rust::UnsignedInt));
        }
        Ok(num as usize)
    }
}

impl TryConvert<Value, i64> for Artichoke {
    /// The integer of a fixnum; any other value is refused.
    fn try_convert(&self, value: Value) -> Result<i64, Error>
        returns
            i64_from_value(value@),
    {
        i64::try_convert_into(self, value)
    }
}

impl TryConvert<Value, u32> for Artichoke {
    /// The integer of a fixnum in range; any other value is refused.
    fn try_convert(&self, value: Value) -> Result<u32, Error>
        returns
            u32_from_value(value@),
    {
        u32::try_convert_into(self, value)
    }
}

impl TryConvert<Value, usize> for Artichoke {
    /// The integer of a fixnum in range; any other value is refused.
    fn try_convert(&self, value: Value) -> Result<usize, Error>
        returns
            usize_from_value(value@),
    {
        usize::try_convert_into(self, value)
    }
}

/// An integer converted into a value (`Convert<i64, Value>`, which gives
/// `Fixnum(n)`) converts back (`TryConvert<Value, i64>` and
/// `i64::try_convert_into`, which give `i64_from_value` of the value) into the
/// same integer.
pub proof fn lemma_i64_roundtrip(n: i64)
    ensures
        i64_from_value(ValueModel::Fixnum(n)) == Ok::<i64, Error>(n),
{
}

/// An unsigned integer that fits a fixnum converts into a fixnum and back
/// into the same integer; one that does not fit is refused.
pub proof fn lemma_usize_roundtrip(n: usize)
    ensures
        n <= i64::MAX ==> (unsigned_value(n as int) matches Ok(v) && usize_from_value(v) == Ok::<
            usize,
            Error,
        >(n)),
        n > i64::MAX ==> unsigned_value(n as int) is Err,
{
}

/// A `u32` converts into a fixnum and back into the same integer.
pub proof fn lemma_u32_roundtrip(n: u32)
    ensures
        u32_from_value(ValueModel::Fixnum(n as i64)) == Ok::<u32, Error>(n),
{
}

/// Only a fixnum converts into an integer: every other value is refused.
pub proof fn lemma_only_fixnums_convert(v: ValueModel)
    ensures
        !(v is Fixnum) ==> i64_from_value(v) is Err && u32_from_value(v) is Err
            && usize_from_value(v) is Err,
{
}

} // verus!

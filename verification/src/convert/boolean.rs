//! Conversion of Rust booleans into interpreter values.

use vstd::prelude::*;

use crate::convert::Convert;
use crate::interpreter::Artichoke;
use crate::value::{Value, ValueModel};

verus! {

impl Convert<bool, Value> for Artichoke {
    fn convert(&self, value: bool) -> (v: Value)
        ensures
            v@ == ValueModel::Bool(value),
    {
        Value::Bool(value)
    }
}

} // verus!

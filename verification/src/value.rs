//! Interpreter values, held as plain data, and the type tags that errors report.

use vstd::prelude::*;

verus! {

/// The Ruby-side type of a value.
#[derive(Debug, Clone, Copy, PartialEq, Eq, Structural)]
pub enum Ruby {
    /// `nil`.
    Nil,
    /// `true` or `false`.
    Bool,
    /// An immediate integer.
    Fixnum,
    /// A byte string.
    String,
    /// An interned symbol.
    Symbol,
    /// Any other object.
    Object,
}

/// The Rust-side type that a value is converted from or into.
#[derive(Debug, Clone, Copy, PartialEq, Eq, Structural)]
pub enum Rust {
    /// `bool`.
    Bool,
    /// A byte buffer (`Vec<u8>` or `&[u8]`).
    Bytes,
    /// A signed integer.
    SignedInt,
    /// A UTF-8 string (`String` or `&str`).
    String,
    /// An unsigned integer.
    UnsignedInt,
}

/// An interpreter value.
#[derive(Debug, Clone)]
pub enum Value {
    /// `nil`.
    Nil,
    /// `true` or `false`.
    Bool(bool),
    /// An immediate integer.
    Fixnum(i64),
    /// A byte string with its contents.
    String(Vec<u8>),
    /// An interned symbol, by its id.
    Symbol(u32),
    /// An object with no primitive conversion.
    Object,
}

/// The mathematical model of a [`Value`]: a string is its sequence of bytes.
pub enum ValueModel {
    Nil,
    Bool(bool),
    Fixnum(i64),
    String(Seq<u8>),
    Symbol(u32),
    Object,
}

impl View for Value {
    type V = ValueModel;

    open spec fn view(&self) -> ValueModel {
        match self {
            Value::Nil => ValueModel::Nil,
            Value::Bool(b) => ValueModel::Bool(*b),
            Value::Fixnum(n) => ValueModel::Fixnum(*n),
            Value::String(bytes) => ValueModel::String(bytes@),
            Value::Symbol(sym) => ValueModel::Symbol(*sym),
            Value::Object => ValueModel::Object,
        }
    }
}

/// The Ruby type of a value.
pub open spec fn ruby_type_of(v: ValueModel) -> Ruby {
    match v {
        ValueModel::Nil => Ruby::Nil,
        ValueModel::Bool(_) => Ruby::Bool,
        ValueModel::Fixnum(_) => Ruby::Fixnum,
        ValueModel::String(_) => Ruby::String,
        ValueModel::Symbol(_) => Ruby::Symbol,
        ValueModel::Object => Ruby::Object,
    }
}

impl Value {
    /// The `nil` value.
    pub fn nil() -> (v: Value)
        ensures
            v@ == ValueModel::Nil,
    {
        Value::Nil
    }

    /// Whether this value is `nil`.
    pub fn is_nil(&self) -> (r: bool)
        ensures
            r == (self@ == ValueModel::Nil),
    {
        matches!(self, Value::Nil)
    }

    /// The Ruby type of this value.
    pub fn ruby_type(&self) -> (r: Ruby)
        ensures
            r == ruby_type_of(self@),
    {
        match self {
            Value::Nil => Ruby::Nil,
            Value::Bool(_) => Ruby::Bool,
            Value::Fixnum(_) => Ruby::Fixnum,
            Value::String(_) => Ruby::String,
            Value::Symbol(_) => Ruby::Symbol,
            Value::Object => Ruby::Object,
        }
    }
}

} // verus!

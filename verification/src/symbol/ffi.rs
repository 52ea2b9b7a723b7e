//! The symbol functions of the C API, on plain values: each takes the name
//! as bytes (a C string's bytes with their NUL where the C function takes a
//! C string) or as a value, and answers what the C function returns, with
//! `0` for "no symbol", `nil` for "no value" and `None` for a null pointer.

use vstd::prelude::*;
use vstd::slice::slice_to_vec;
use vstd::utf8::encode_utf8;

use crate::convert::bytes::bytes_from_value;
use crate::convert::{TryConvertIntoRef, TryConvertIntoMut, TryConvertMut};
use crate::error::Error;
use crate::interpreter::Artichoke;
use crate::symbol::{
    intern_result, interned, lemma_intern_then_lookup, name_of, names_distinct, symbol_of, with_nul,
    without_last, MAX_SYMBOLS,
};
use crate::value::{Value, ValueModel};

verus! {

/// The symbol an interning answers: its id, or `0` where it failed.
pub open spec fn sym_or_zero(r: Result<u32, Error>) -> u32 {
    match r {
        Ok(sym) => sym,
        Err(_) => 0,
    }
}

/// The symbol a check answers: its id where the name is interned, else `0`.
pub open spec fn found_or_zero(found: Option<u32>) -> u32 {
    match found {
        Some(sym) => sym,
        None => 0,
    }
}

/// The value a check answers: the symbol where the name is interned, else
/// `nil`.
pub open spec fn found_or_nil(found: Option<u32>) -> ValueModel {
    match found {
        Some(sym) => ValueModel::Symbol(sym),
        None => ValueModel::Nil,
    }
}

/// `bytes` end with the NUL that terminates a C string.
pub open spec fn is_c_string(bytes: Seq<u8>) -> bool {
    bytes.len() > 0 && bytes.last() == 0
}

/// `mrb_intern`: interns `name`, answering its symbol, or `0` where the
/// table is full.
pub fn mrb_intern(interp: &mut Artichoke, name: &[u8]) -> (sym: u32)
    requires
        old(interp).wf(),
    ensures
        final(interp).wf(),
        final(interp).symbols() == interned(old(interp).symbols(), with_nul(name@)),
        sym == sym_or_zero(intern_result(old(interp).symbols(), with_nul(name@))),
{
    let bytes = slice_to_vec(name);
    match interp.intern_bytes(bytes) {
        Ok(sym) => sym,
        Err(_) => 0,
    }
}

/// `mrb_intern_static`: interns the static `name`, answering its symbol, or
/// `0` where the table is full.
pub fn mrb_intern_static(interp: &mut Artichoke, name: &'static [u8]) -> (sym: u32)
    requires
        old(interp).wf(),
    ensures
        final(interp).wf(),
        final(interp).symbols() == interned(old(interp).symbols(), with_nul(name@)),
        sym == sym_or_zero(intern_result(old(interp).symbols(), with_nul(name@))),
{
    match interp.intern_bytes(slice_to_vec(name)) {
        Ok(sym) => sym,
        Err(_) => 0,
    }
}

/// `mrb_intern_cstr`: interns the C string `name` (its bytes with the NUL),
/// answering its symbol, or `0` where the table is full.
pub fn mrb_intern_cstr(interp: &mut Artichoke, name: &[u8]) -> (sym: u32)
    requires
        old(interp).wf(),
        is_c_string(name@),
    ensures
        final(interp).wf(),
        final(interp).symbols() == interned(old(interp).symbols(), name@),
        sym == sym_or_zero(intern_result(old(interp).symbols(), name@)),
{
    let bytes = slice_to_vec(name);
    match interp.intern_bytes_with_trailing_nul(bytes) {
        Ok(sym) => sym,
        Err(_) => 0,
    }
}

/// `mrb_intern_str`: interns the contents of the string value `name`,
/// answering its symbol; any other value, or a full table, gives `0`.
pub fn mrb_intern_str(interp: &mut Artichoke, name: Value) -> (sym: u32)
    requires
        old(interp).wf(),
    ensures
        final(interp).wf(),
        match bytes_from_value(name@) {
            Ok(bytes) => {
                &&& final(interp).symbols() == interned(old(interp).symbols(), with_nul(bytes))
                &&& sym == sym_or_zero(intern_result(old(interp).symbols(), with_nul(bytes)))
            },
            Err(_) => final(interp).symbols() == old(interp).symbols() && sym == 0,
        },
        !(name@ is String) ==> sym == 0 && final(interp).symbols() == old(interp).symbols(),
{
    proof {
        crate::convert::bytes::lemma_only_strings_are_bytes(name@);
    }
    let Ok(bytes) = Vec::<u8>::try_convert_into_mut(interp, name) else {
        return 0;
    };
    match interp.intern_bytes(bytes) {
        Ok(sym) => sym,
        Err(_) => 0,
    }
}

/// `mrb_intern_check`: the symbol of `name` if it is interned, else `0`.
pub fn mrb_intern_check(interp: &Artichoke, name: &[u8]) -> (sym: u32)
    requires
        interp.wf(),
    ensures
        sym == found_or_zero(symbol_of(interp.symbols(), with_nul(name@))),
{
    match interp.check_interned_bytes(name) {
        Ok(Some(sym)) => sym,
        _ => 0,
    }
}

/// `mrb_intern_check_cstr`: the symbol of the C string `name` (its bytes
/// with the NUL) if it is interned, else `0`.
pub fn mrb_intern_check_cstr(interp: &Artichoke, name: &[u8]) -> (sym: u32)
    requires
        interp.wf(),
        is_c_string(name@),
    ensures
        sym == found_or_zero(symbol_of(interp.symbols(), name@)),
{
    match interp.check_interned_bytes_with_trailing_nul(name) {
        Ok(Some(sym)) => sym,
        _ => 0,
    }
}

/// `mrb_intern_check_str`: the symbol of the contents of the string value
/// `name` if they are interned; any other value gives `0`.
pub fn mrb_intern_check_str(interp: &mut Artichoke, name: &Value) -> (sym: u32)
    requires
        old(interp).wf(),
    ensures
        *final(interp) == *old(interp),
        sym == match bytes_from_value(name@) {
            Ok(bytes) => found_or_zero(symbol_of(old(interp).symbols(), with_nul(bytes))),
            Err(_) => 0,
        },
        !(name@ is String) ==> sym == 0,
{
    proof {
        crate::convert::bytes::lemma_only_strings_are_bytes(name@);
    }
    let Ok(bytes) = <&[u8]>::try_convert_into_ref(interp, name) else {
        return 0;
    };
    match interp.check_interned_bytes(bytes) {
        Ok(Some(sym)) => sym,
        _ => 0,
    }
}

/// `mrb_check_intern`: the symbol value of `name` if it is interned, else
/// `nil`.
pub fn mrb_check_intern(interp: &Artichoke, name: &[u8]) -> (v: Value)
    requires
        interp.wf(),
    ensures
        v@ == found_or_nil(symbol_of(interp.symbols(), with_nul(name@))),
{
    match interp.check_interned_bytes(name) {
        Ok(Some(sym)) => Value::Symbol(sym),
        _ => Value::nil(),
    }
}

/// `mrb_check_intern_cstr`: the symbol value of the C string `name` (its
/// bytes with the NUL) if it is interned, else `nil`.
pub fn mrb_check_intern_cstr(interp: &Artichoke, name: &[u8]) -> (v: Value)
    requires
        interp.wf(),
        is_c_string(name@),
    ensures
        v@ == found_or_nil(symbol_of(interp.symbols(), name@)),
{
    match interp.check_interned_bytes_with_trailing_nul(name) {
        Ok(Some(sym)) => Value::Symbol(sym),
        _ => Value::nil(),
    }
}

/// `mrb_check_intern_str`: the symbol value of the contents of the string
/// value `name` if they are interned; any other value gives `nil`.
pub fn mrb_check_intern_str(interp: &mut Artichoke, name: &Value) -> (v: Value)
    requires
        old(interp).wf(),
    ensures
        *final(interp) == *old(interp),
        v@ == match bytes_from_value(name@) {
            Ok(bytes) => found_or_nil(symbol_of(old(interp).symbols(), with_nul(bytes))),
            Err(_) => ValueModel::Nil,
        },
        !(name@ is String) ==> v@ == ValueModel::Nil,
{
    proof {
        crate::convert::bytes::lemma_only_strings_are_bytes(name@);
    }
    let Ok(bytes) = <&[u8]>::try_convert_into_ref(interp, name) else {
        return Value::nil();
    };
    match interp.check_interned_bytes(bytes) {
        Ok(Some(sym)) => Value::Symbol(sym),
        _ => Value::nil(),
    }
}

/// `mrb_sym_name`: the name of `sym` as a C string (with its NUL), or a null
/// pointer (`None`) if `sym` names no symbol.
pub fn mrb_sym_name(interp: &Artichoke, sym: u32) -> (name: Option<&[u8]>)
    ensures
        match name {
            Some(bytes) => name_of(interp.symbols(), sym) == Some(bytes@),
            None => name_of(interp.symbols(), sym) is None,
        },
{
    match interp.lookup_symbol_with_trailing_nul(sym) {
        Ok(Some(bytes)) => Some(bytes),
        _ => None,
    }
}

/// `mrb_sym_name_len`: the name of `sym` without its NUL and the length
/// written for it; `(None, 0)` if `sym` names no symbol or its length does not
/// fit an `mrb_int`.
pub fn mrb_sym_name_len(interp: &Artichoke, sym: u32) -> (res: (Option<&[u8]>, i64))
    requires
        interp.wf(),
    ensures
        match name_of(interp.symbols(), sym) {
            Some(name) => if without_last(name).len() <= i64::MAX {
                res.0 matches Some(bytes) && bytes@ == without_last(name) && res.1
                    == without_last(name).len()
            } else {
                res.0 is None && res.1 == 0
            },
            None => res.0 is None && res.1 == 0,
        },
{
    let Ok(Some(bytes)) = interp.lookup_symbol(sym) else {
        return (None, 0);
    };
    if bytes.len() as u64 > 0x7fff_ffff_ffff_ffffu64 {
        return (None, 0);
    }
    (Some(bytes), bytes.len() as i64)
}

/// `mrb_sym_dump`: a string value holding the name of `sym`, whose bytes the
/// C function points at, or `None` (a null pointer) if `sym` names no symbol.
pub fn mrb_sym_dump(interp: &mut Artichoke, sym: u32) -> (dump: Option<Value>)
    requires
        old(interp).wf(),
    ensures
        *final(interp) == *old(interp),
        match name_of(old(interp).symbols(), sym) {
            Some(name) => dump matches Some(v) && v@ == ValueModel::String(without_last(name)),
            None => dump is None,
        },
{
    let bytes = match interp.lookup_symbol(sym) {
        Ok(Some(bytes)) => slice_to_vec(bytes),
        _ => return None,
    };
    match interp.try_convert_mut(bytes) {
        Ok(string) => Some(string),
        Err(_) => None,
    }
}

/// `mrb_sym_str`: a string value holding the name of `sym`, or the empty
/// string if `sym` names no symbol.
pub fn mrb_sym_str(interp: &mut Artichoke, sym: u32) -> (v: Value)
    requires
        old(interp).wf(),
    ensures
        *final(interp) == *old(interp),
        v@ == ValueModel::String(
            match name_of(old(interp).symbols(), sym) {
                Some(name) => without_last(name),
                None => Seq::<u8>::empty(),
            },
        ),
{
    let value = match interp.lookup_symbol(sym) {
        Ok(Some(bytes)) => {
            let bytes = slice_to_vec(bytes);
            interp.try_convert_mut(bytes)
        },
        _ => {
            proof {
                reveal_strlit("");
                assert(encode_utf8(""@) =~= Seq::<u8>::empty());
            }
            interp.try_convert_mut("")
        },
    };
    match value {
        Ok(v) => v,
        Err(_) => Value::nil(),
    }
}

/// What `mrb_intern` interns, the check functions then find: once `name` is
/// interned as a nonzero symbol, `mrb_intern_check` answers that symbol,
/// `mrb_check_intern` answers its symbol value, `mrb_sym_name` answers the
/// name with its NUL, `mrb_sym_name_len` and `mrb_sym_str` the name itself,
/// and interning it again changes nothing.
pub proof fn lemma_interned_name_is_found(names: Seq<Seq<u8>>, name: Seq<u8>)
    requires
        names.len() <= MAX_SYMBOLS,
        names_distinct(names),
        sym_or_zero(intern_result(names, with_nul(name))) != 0,
    ensures
        ({
            let sym = sym_or_zero(intern_result(names, with_nul(name)));
            let after = interned(names, with_nul(name));
            &&& found_or_zero(symbol_of(after, with_nul(name))) == sym
            &&& found_or_nil(symbol_of(after, with_nul(name))) == ValueModel::Symbol(sym)
            &&& name_of(after, sym) == Some(with_nul(name))
            &&& without_last(with_nul(name)) == name
            &&& interned(after, with_nul(name)) == after
        }),
{
    lemma_intern_then_lookup(names, with_nul(name));
    assert(without_last(with_nul(name)) =~= name);
}

/// A name that was never interned is not found: the check functions answer
/// `0` and `nil`.
pub proof fn lemma_unknown_name_is_not_found(names: Seq<Seq<u8>>, name: Seq<u8>)
    requires
        forall|i: int| 0 <= i < names.len() ==> names[i] != with_nul(name),
    ensures
        found_or_zero(symbol_of(names, with_nul(name))) == 0,
        found_or_nil(symbol_of(names, with_nul(name))) == ValueModel::Nil,
{
    assert(!exists|i: int| crate::symbol::holds_at(names, with_nul(name), i));
}

} // verus!

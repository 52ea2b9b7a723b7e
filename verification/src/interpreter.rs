//! The interpreter whose values the conversions produce and consume, and
//! whose symbol table interns names.

use vstd::prelude::*;

use crate::error::Error;
use crate::symbol::{
    intern_result, interned, name_of, symbol_of, with_nul, without_last, SymbolTable,
};

verus! {

/// An interpreter. Its values hold their own data; its state is the symbol
/// table.
pub struct Artichoke {
    symbols: SymbolTable,
}

/// Every stored name ends with the NUL byte that terminates it as a C string.
pub open spec fn names_nul_terminated(names: Seq<Seq<u8>>) -> bool {
    forall|i: int| 0 <= i < names.len() ==> #[trigger] names[i].len() > 0 && names[i].last() == 0
}

impl Artichoke {
    /// The interned names, in id order, each with its trailing NUL.
    pub closed spec fn symbols(&self) -> Seq<Seq<u8>> {
        self.symbols@
    }

    /// The interpreter is well formed: its symbol table is, and every name in
    /// it is NUL-terminated.
    pub open spec fn wf(&self) -> bool {
        &&& self.symbols().len() <= crate::symbol::MAX_SYMBOLS
        &&& crate::symbol::names_distinct(self.symbols())
        &&& names_nul_terminated(self.symbols())
    }

    /// A fresh interpreter with no symbols.
    pub fn new() -> (interp: Artichoke)
        ensures
            interp.wf(),
            interp.symbols() == Seq::<Seq<u8>>::empty(),
    {
        Artichoke { symbols: SymbolTable::new() }
    }

    /// The number of interned symbols.
    pub fn symbol_count(&self) -> (n: usize)
        ensures
            n == self.symbols().len(),
    {
        self.symbols.len()
    }

    /// Interns `bytes`, which end with their NUL terminator, as they are.
    pub fn intern_bytes_with_trailing_nul(&mut self, bytes: Vec<u8>) -> (r: Result<u32, Error>)
        requires
            old(self).wf(),
            bytes@.len() > 0,
            bytes@.last() == 0,
        ensures
            final(self).wf(),
            final(self).symbols() == interned(old(self).symbols(), bytes@),
            r == intern_result(old(self).symbols(), bytes@),
    {
        let ghost before = self.symbols();
        let r = self.symbols.intern(bytes);
        assert forall|i: int| 0 <= i < self.symbols().len() implies #[trigger] self.symbols()[i].len()
            > 0 && self.symbols()[i].last() == 0 by {
            if i < before.len() {
                assert(self.symbols()[i] == before[i]);
            }
        }
        r
    }

    /// Interns `bytes` as a name: they are stored with a NUL appended.
    pub fn intern_bytes(&mut self, bytes: Vec<u8>) -> (r: Result<u32, Error>)
        requires
            old(self).wf(),
        ensures
            final(self).wf(),
            final(self).symbols() == interned(old(self).symbols(), with_nul(bytes@)),
            r == intern_result(old(self).symbols(), with_nul(bytes@)),
    {
        let mut bytes = bytes;
        bytes.push(0u8);
        self.intern_bytes_with_trailing_nul(bytes)
    }

    /// The id of `bytes`, which end with their NUL terminator, if interned.
    pub fn check_interned_bytes_with_trailing_nul(&self, bytes: &[u8]) -> (r: Result<
        Option<u32>,
        Error,
    >)
        requires
            self.wf(),
        ensures
            r == Ok::<Option<u32>, Error>(symbol_of(self.symbols(), bytes@)),
    {
        Ok(self.symbols.check_interned(bytes))
    }

    /// The id of the name `bytes`, if interned.
    pub fn check_interned_bytes(&self, bytes: &[u8]) -> (r: Result<Option<u32>, Error>)
        requires
            self.wf(),
        ensures
            r == Ok::<Option<u32>, Error>(symbol_of(self.symbols(), with_nul(bytes@))),
    {
        let mut name = vstd::slice::slice_to_vec(bytes);
        name.push(0u8);
        self.check_interned_bytes_with_trailing_nul(name.as_slice())
    }

    /// The stored name of `sym`, with its trailing NUL, if `sym` names a
    /// symbol.
    pub fn lookup_symbol_with_trailing_nul(&self, sym: u32) -> (r: Result<Option<&[u8]>, Error>)
        ensures
            match r {
                Ok(Some(bytes)) => name_of(self.symbols(), sym) == Some(bytes@),
                Ok(None) => name_of(self.symbols(), sym) is None,
                Err(_) => false,
            },
    {
        Ok(self.symbols.lookup(sym))
    }

    /// The name of `sym`, without its trailing NUL, if `sym` names a symbol.
    pub fn lookup_symbol(&self, sym: u32) -> (r: Result<Option<&[u8]>, Error>)
        requires
            self.wf(),
        ensures
            match r {
                Ok(Some(bytes)) => name_of(self.symbols(), sym) matches Some(name) && bytes@
                    == without_last(name),
                Ok(None) => name_of(self.symbols(), sym) is None,
                Err(_) => false,
            },
    {
        match self.symbols.lookup(sym) {
            Some(name) => {
                assert(name@.len() > 0) by {
                    assert(self.symbols()[sym - 1].len() > 0);
                }
                let bytes = vstd::slice::slice_subrange(name, 0, name.len() - 1);
                assert(bytes@ =~= without_last(name@));
                Ok(Some(bytes))
            },
            None => Ok(None),
        }
    }
}

/// A fresh interpreter.
pub fn interpreter() -> (interp: Artichoke)
    ensures
        interp.wf(),
        interp.symbols() == Seq::<Seq<u8>>::empty(),
{
    Artichoke::new()
}

} // verus!

//! The interpreter's symbol table: interned byte strings named by `u32` ids.
//!
//! Names are stored as the C side sees them, with their trailing NUL byte, so
//! that a name can be handed out as a NUL-terminated string. Ids start at 1:
//! `0` names no symbol.

use vstd::prelude::*;

use crate::error::Error;

pub mod ffi;

verus! {

/// The largest number of symbols a table can hold, so that every id from 1
/// up fits a `u32`.
pub const MAX_SYMBOLS: usize = 0xffff_fffe;

/// Interned byte strings; the id of the name at index `i` is `i + 1`.
pub struct SymbolTable {
    names: Vec<Vec<u8>>,
}

impl View for SymbolTable {
    type V = Seq<Seq<u8>>;

    closed spec fn view(&self) -> Seq<Seq<u8>> {
        self.names@.map_values(|name: Vec<u8>| name@)
    }
}

/// `names` holds `bytes` at index `i`.
pub open spec fn holds_at(names: Seq<Seq<u8>>, bytes: Seq<u8>, i: int) -> bool {
    0 <= i < names.len() && names[i] == bytes
}

/// The id of `bytes` in `names`, if it is interned there.
pub open spec fn symbol_of(names: Seq<Seq<u8>>, bytes: Seq<u8>) -> Option<u32> {
    if exists|i: int| holds_at(names, bytes, i) {
        Some(((choose|i: int| holds_at(names, bytes, i)) + 1) as u32)
    } else {
        None
    }
}

/// The name that `sym` stands for in `names`, if any.
pub open spec fn name_of(names: Seq<Seq<u8>>, sym: u32) -> Option<Seq<u8>> {
    if 1 <= sym <= names.len() {
        Some(names[sym - 1])
    } else {
        None
    }
}

/// `bytes` with one more byte, the NUL that terminates a C string.
pub open spec fn with_nul(bytes: Seq<u8>) -> Seq<u8> {
    bytes.push(0u8)
}

/// `bytes` without its last byte, the trailing NUL of a stored name.
pub open spec fn without_last(bytes: Seq<u8>) -> Seq<u8> {
    if bytes.len() == 0 {
        bytes
    } else {
        bytes.drop_last()
    }
}

/// The table after interning `bytes`: unchanged if the name is there or the
/// table is full, else with the name appended.
pub open spec fn interned(names: Seq<Seq<u8>>, bytes: Seq<u8>) -> Seq<Seq<u8>> {
    if symbol_of(names, bytes) is Some || names.len() >= MAX_SYMBOLS {
        names
    } else {
        names.push(bytes)
    }
}

/// The result of interning `bytes`: the name's id, or an overflow error if
/// it is new and the table is full.
pub open spec fn intern_result(names: Seq<Seq<u8>>, bytes: Seq<u8>) -> Result<u32, Error> {
    match symbol_of(names, bytes) {
        Some(sym) => Ok(sym),
        None => if names.len() >= MAX_SYMBOLS {
            Err(Error::SymbolOverflow)
        } else {
            Ok((names.len() + 1) as u32)
        },
    }
}

/// No name is stored twice.
pub open spec fn names_distinct(names: Seq<Seq<u8>>) -> bool {
    forall|i: int, j: int| 0 <= i < names.len() && 0 <= j < names.len() && i != j ==> names[i] != names[j]
}

/// Equality of two byte strings.
fn bytes_eq(a: &[u8], b: &[u8]) -> (r: bool)
    ensures
        r == (a@ == b@),
{
    if a.len() != b.len() {
        return false;
    }
    let mut i: usize = 0;
    while i < a.len()
        invariant
            i <= a@.len(),
            a@.len() == b@.len(),
            forall|j: int| 0 <= j < i ==> a@[j] == b@[j],
        decreases a@.len() - i,
    {
        if a[i] != b[i] {
            return false;
        }
        i += 1;
    }
    assert(a@ =~= b@);
    true
}

impl SymbolTable {
    /// The table is well formed: distinct names, and few enough that every
    /// id fits a `u32`.
    pub open spec fn wf(&self) -> bool {
        &&& self@.len() <= MAX_SYMBOLS
        &&& names_distinct(self@)
    }

    /// An empty table.
    pub fn new() -> (table: SymbolTable)
        ensures
            table.wf(),
            table@ == Seq::<Seq<u8>>::empty(),
    {
        let table = SymbolTable { names: Vec::new() };
        assert(table@ =~= Seq::<Seq<u8>>::empty());
        table
    }

    /// The number of symbols in the table.
    pub fn len(&self) -> (n: usize)
        ensures
            n == self@.len(),
    {
        self.names.len()
    }

    /// The id of `bytes`, if it is interned.
    pub fn check_interned(&self, bytes: &[u8]) -> (r: Option<u32>)
        requires
            self.wf(),
        ensures
            r == symbol_of(self@, bytes@),
    {
        let mut i: usize = 0;
        while i < self.names.len()
            invariant
                self.wf(),
                i <= self@.len(),
                forall|j: int| 0 <= j < i ==> self@[j] != bytes@,
            decreases self@.len() - i,
        {
            assert(self@[i as int] == self.names@[i as int]@);
            if bytes_eq(self.names[i].as_slice(), bytes) {
                proof {
                    assert(holds_at(self@, bytes@, i as int));
                    let k = choose|k: int| holds_at(self@, bytes@, k);
                    assert(k == i);
                }
                return Some((i + 1) as u32);
            }
            i += 1;
        }
        assert(!exists|k: int| holds_at(self@, bytes@, k));
        None
    }

    /// Interns `bytes` as they are, returning its id; a name already there
    /// keeps its id.
    pub fn intern(&mut self, bytes: Vec<u8>) -> (r: Result<u32, Error>)
        requires
            old(self).wf(),
        ensures
            final(self).wf(),
            final(self)@ == interned(old(self)@, bytes@),
            r == intern_result(old(self)@, bytes@),
    {
        if let Some(sym) = self.check_interned(bytes.as_slice()) {
            return Ok(sym);
        }
        if self.names.len() >= MAX_SYMBOLS {
            return Err(Error::SymbolOverflow);
        }
        let ghost before = self@;
        let sym = (self.names.len() + 1) as u32;
        self.names.push(bytes);
        proof {
            assert(self@ =~= before.push(bytes@));
            assert forall|i: int, j: int|
                0 <= i < self@.len() && 0 <= j < self@.len() && i != j implies self@[i]
                != self@[j] by {
                if i == before.len() {
                    assert(!holds_at(before, bytes@, j));
                } else if j == before.len() {
                    assert(!holds_at(before, bytes@, i));
                }
            }
        }
        Ok(sym)
    }

    /// The stored name of `sym`, if it names a symbol.
    pub fn lookup(&self, sym: u32) -> (r: Option<&[u8]>)
        ensures
            match r {
                Some(bytes) => name_of(self@, sym) == Some(bytes@),
                None => name_of(self@, sym) is None,
            },
    {
        if sym == 0 || sym as usize > self.names.len() {
            return None;
        }
        let name = &self.names[(sym - 1) as usize];
        assert(self@[sym - 1] == name@);
        Some(name.as_slice())
    }
}

/// A name, once interned, keeps its id: interning it again, or checking for
/// it, gives the same id, and its id looks the name up.
pub proof fn lemma_intern_then_lookup(names: Seq<Seq<u8>>, bytes: Seq<u8>)
    requires
        names.len() <= MAX_SYMBOLS,
        names_distinct(names),
        intern_result(names, bytes) is Ok,
    ensures
        ({
            let after = interned(names, bytes);
            let sym = intern_result(names, bytes)->Ok_0;
            &&& sym != 0
            &&& symbol_of(after, bytes) == Some(sym)
            &&& intern_result(after, bytes) == Ok::<u32, Error>(sym)
            &&& interned(after, bytes) == after
            &&& name_of(after, sym) == Some(bytes)
        }),
{
    let after = interned(names, bytes);
    if symbol_of(names, bytes) is Some {
        let k = choose|i: int| holds_at(names, bytes, i);
        assert(holds_at(names, bytes, k));
    } else {
        let n = names.len() as int;
        assert(holds_at(after, bytes, n));
        let k = choose|i: int| holds_at(after, bytes, i);
        assert(holds_at(after, bytes, k));
        if k != n {
            assert(holds_at(names, bytes, k));
        }
    }
}

/// Interning a new name leaves every earlier id naming what it named.
pub proof fn lemma_intern_keeps_names(names: Seq<Seq<u8>>, bytes: Seq<u8>, sym: u32)
    requires
        name_of(names, sym) is Some,
    ensures
        name_of(interned(names, bytes), sym) == name_of(names, sym),
{
}

/// `0` never names a symbol.
pub proof fn lemma_zero_is_no_symbol(names: Seq<Seq<u8>>, bytes: Seq<u8>)
    requires
        names.len() <= MAX_SYMBOLS,
    ensures
        name_of(names, 0) is None,
        symbol_of(names, bytes) != Some(0u32),
{
    if symbol_of(names, bytes) is Some {
        let k = choose|i: int| holds_at(names, bytes, i);
        assert(holds_at(names, bytes, k));
    }
}

} // verus!

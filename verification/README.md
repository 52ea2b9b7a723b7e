# artichoke

Building blocks of a Ruby interpreter, each public function with a
machine-checked contract.

- `case_folding`, `enc::binascii`: in-place ASCII case changes of byte
  strings (lowercase, uppercase, capitalize, swapcase), each reporting whether
  it changed a byte.
- `enc::utf8`: case changes of conventionally UTF-8 byte strings; valid
  characters are mapped through Rust's Unicode case tables, invalid sequences
  are copied as they are. `decode` holds the chunking of a byte string into
  characters and invalid sequences.
- `value`, `error`, `convert`: interpreter values as plain data, and the
  conversions between them and Rust integers, byte buffers and strings,
  including the nilable ones where `nil` stands for `None`.
- `interpreter`, `symbol`: the interpreter's symbol table and the symbol
  functions of the C API over plain values.

Each public function carries a contract; the laws of the library (idempotence
of case changes, round trips of conversions, what interning lets the lookups
find) are public proof functions beside the code they speak of.

//! Splitting a conventionally UTF-8 byte string into chunks: one valid
//! encoded character, or a maximal prefix of an invalid sequence.

use vstd::prelude::*;
use vstd::utf8::{
    decode_first_scalar, encode_scalar, encode_utf8, length_of_first_scalar, valid_first_scalar,
};

use bstr::ByteVec;

verus! {

/// `bytes` is a non-empty proper prefix of the UTF-8 encoding of some `char`:
/// a sequence that more bytes could complete.
pub open spec fn is_incomplete_scalar(bytes: Seq<u8>) -> bool {
    exists|c: char|
        #![trigger encode_scalar(c as u32)]
        0 < bytes.len() < encode_scalar(c as u32).len() && encode_scalar(c as u32).take(
            bytes.len() as int,
        ) == bytes
}

/// The number of bytes that an invalid sequence at the start of `bytes`
/// spans: the length of the longest prefix of `bytes` that is an incomplete
/// encoding of a character, and at least 1.
pub open spec fn invalid_sequence_len(bytes: Seq<u8>) -> int {
    if bytes.len() >= 3 && is_incomplete_scalar(bytes.take(3)) {
        3
    } else if bytes.len() >= 2 && is_incomplete_scalar(bytes.take(2)) {
        2
    } else {
        1
    }
}

/// The first character encoded at the start of `bytes`, where the bytes
/// start with a valid encoding.
pub open spec fn first_char(bytes: Seq<u8>) -> char {
    decode_first_scalar(bytes) as char
}

/// The length of the first chunk of a non-empty byte string: the encoding of
/// its first character where that is valid, else its invalid prefix.
pub open spec fn chunk_len(bytes: Seq<u8>) -> int {
    if valid_first_scalar(bytes) {
        length_of_first_scalar(bytes)
    } else {
        invalid_sequence_len(bytes)
    }
}

/// A chunk of a non-empty byte string is never empty and never longer than
/// the string.
pub proof fn lemma_chunk_len_bounds(bytes: Seq<u8>)
    requires
        bytes.len() > 0,
    ensures
        1 <= chunk_len(bytes) <= bytes.len(),
{
}

/// The UTF-8 encoding of a sequence with one more character is the encoding
/// of the sequence followed by the encoding of that character.
pub proof fn lemma_encode_utf8_push(chars: Seq<char>, c: char)
    ensures
        encode_utf8(chars.push(c)) == encode_utf8(chars) + encode_utf8(seq![c]),
    decreases chars.len(),
{
    if chars.len() == 0 {
        assert(chars.push(c) =~= seq![c]);
        assert(encode_utf8(chars) =~= Seq::<u8>::empty());
        assert(encode_utf8(chars) + encode_utf8(seq![c]) =~= encode_utf8(seq![c]));
    } else {
        assert(chars.push(c).drop_first() =~= chars.drop_first().push(c));
        lemma_encode_utf8_push(chars.drop_first(), c);
        assert(encode_utf8(chars.push(c)) =~= encode_scalar(chars[0] as u32) + encode_utf8(
            chars.drop_first().push(c),
        ));
    }
}

/// `bstr::decode_utf8`: decodes the character that `bytes` starts with.
///
/// Claimed of the outside function, as its documentation states: an empty
/// slice gives `(None, 0)`; a slice that starts with a valid UTF-8 encoding
/// gives that character and the length of its encoding; any other slice gives
/// `None` and the length of the maximal prefix of a valid UTF-8 code unit
/// sequence, at least 1.
#[verifier::external_body]
pub(crate) fn decode_utf8(bytes: &[u8]) -> (res: (Option<char>, usize))
    ensures
        bytes@.len() == 0 ==> res == (None::<char>, 0usize),
        bytes@.len() > 0 && valid_first_scalar(bytes@) ==> res.0 == Some(first_char(bytes@))
            && res.1 == length_of_first_scalar(bytes@),
        bytes@.len() > 0 && !valid_first_scalar(bytes@) ==> res.0 is None && res.1
            == invalid_sequence_len(bytes@),
{
    bstr::decode_utf8(bytes)
}

/// `bstr::ByteVec::push_char`: appends the UTF-8 encoding of `ch`.
///
/// Claimed of the outside function: the buffer afterwards is the buffer
/// before, followed by the UTF-8 encoding of `ch`.
#[verifier::external_body]
pub(crate) fn push_char(buf: &mut Vec<u8>, ch: char)
    ensures
        final(buf)@ == old(buf)@ + encode_utf8(seq![ch]),
{
    buf.push_char(ch)
}

/// Appends `bytes[from..to]` to `buf`.
pub(crate) fn push_bytes(buf: &mut Vec<u8>, bytes: &[u8], from: usize, to: usize)
    requires
        from <= to <= bytes@.len(),
    ensures
        final(buf)@ == old(buf)@ + bytes@.subrange(from as int, to as int),
{
    let ghost start = buf@;
    let mut i = from;
    while i < to
        invariant
            from <= i <= to <= bytes@.len(),
            buf@ == start + bytes@.subrange(from as int, i as int),
        decreases to - i,
    {
        buf.push(bytes[i]);
        assert(bytes@.subrange(from as int, i + 1) =~= bytes@.subrange(from as int, i as int).push(
            bytes@[i as int],
        ));
        i += 1;
    }
}

} // verus!

//! Case changes of conventionally UTF-8 byte strings.
//!
//! Each valid encoded character is replaced by the UTF-8 encoding of its case
//! mapping (which may hold several characters); bytes that are not valid
//! UTF-8 are passed through unchanged.

use vstd::prelude::*;
use vstd::slice::slice_subrange;
use vstd::utf8::{
    decode_utf8_encode_utf8, decode_utf8_first_scalar, encode_utf8,
    encode_utf8_decode_utf8, encode_utf8_valid_utf8, length_of_first_scalar,
    pop_first_scalar, valid_first_scalar, valid_utf8, valid_utf8_concat,
};

use crate::case_folding::CaseFoldingEffect;
use crate::enc::binascii::{
    ascii_lower, ascii_swap, ascii_upper, capitalized_bytes, is_ascii_lower, is_ascii_upper,
    lowercase_bytes, swapcase_bytes, uppercase_bytes,
};
use crate::enc::utf8::decode::{
    chunk_len, decode_utf8, first_char, lemma_chunk_len_bounds, lemma_encode_utf8_push, push_bytes,
    push_char,
};

verus! {

/// The lowercase mapping of `c` that `char::to_lowercase` yields.
pub uninterp spec fn char_lowercase(c: char) -> Seq<char>;

/// The uppercase mapping of `c` that `char::to_uppercase` yields.
pub uninterp spec fn char_uppercase(c: char) -> Seq<char>;

/// Whether `char::is_lowercase` holds of `c`.
pub uninterp spec fn char_is_lowercase(c: char) -> bool;

/// Whether `char::is_uppercase` holds of `c`.
pub uninterp spec fn char_is_uppercase(c: char) -> bool;

/// `char::to_lowercase`, collected.
///
/// Claimed of the outside function: the characters it yields are
/// `char_lowercase(c)`, a function of `c` alone (the Unicode tables of std).
/// Its documentation says it yields one or more chars: the character itself
/// where it has no lowercase mapping, else its mapping, which in the Unicode
/// data never consists of the character itself alone or repeated. An ASCII
/// character has the one-to-one mapping of UnicodeData.txt, which its
/// documentation says is yielded: `A`–`Z` to `a`–`z`, itself otherwise.
#[verifier::external_body]
fn to_lowercase_chars(c: char) -> (r: Vec<char>)
    ensures
        r@ == char_lowercase(c),
        r@.len() >= 1,
        !differs_from(r@, c) ==> r@ == seq![c],
        (c as u32) < 0x80 ==> r@ == seq![ascii_lower(c as u8) as char],
{
    c.to_lowercase().collect()
}

/// `char::to_uppercase`, collected.
///
/// Claimed of the outside function: the characters it yields are
/// `char_uppercase(c)`, a function of `c` alone (the Unicode tables of std).
/// Its documentation says it yields one or more chars: the character itself
/// where it has no uppercase mapping, else its mapping, which in the Unicode
/// data never consists of the character itself alone or repeated. An ASCII
/// character has the one-to-one mapping of UnicodeData.txt, which its
/// documentation says is yielded: `a`–`z` to `A`–`Z`, itself otherwise.
#[verifier::external_body]
fn to_uppercase_chars(c: char) -> (r: Vec<char>)
    ensures
        r@ == char_uppercase(c),
        r@.len() >= 1,
        !differs_from(r@, c) ==> r@ == seq![c],
        (c as u32) < 0x80 ==> r@ == seq![ascii_upper(c as u8) as char],
{
    c.to_uppercase().collect()
}

/// `char::is_lowercase`.
///
/// Claimed of the outside function: its answer is `char_is_lowercase(c)`, a
/// function of `c` alone (the Lowercase property); of the ASCII characters
/// exactly `a`–`z` have it.
#[verifier::external_body]
fn is_lowercase(c: char) -> (r: bool)
    ensures
        r == char_is_lowercase(c),
        (c as u32) < 0x80 ==> r == is_ascii_lower(c as u8),
{
    c.is_lowercase()
}

/// `char::is_uppercase`.
///
/// Claimed of the outside function: its answer is `char_is_uppercase(c)`, a
/// function of `c` alone (the Uppercase property); of the ASCII characters
/// exactly `A`–`Z` have it.
#[verifier::external_body]
fn is_uppercase(c: char) -> (r: bool)
    ensures
        r == char_is_uppercase(c),
        (c as u32) < 0x80 ==> r == is_ascii_upper(c as u8),
{
    c.is_uppercase()
}

/// Which case mapping is applied to each character.
#[derive(Debug, Clone, Copy, PartialEq, Eq, Structural)]
pub enum CaseMapping {
    /// Every character to its lowercase mapping.
    Lowercase,
    /// Every character to its uppercase mapping.
    Uppercase,
    /// Lowercase characters to uppercase, uppercase characters to lowercase,
    /// titlecase digraphs to their first letter lowercased and their second
    /// uppercased, every other character kept.
    Swapcase,
}

/// The swapped case of a titlecase digraph: its first letter lowercased and
/// its second uppercased. `None` for every other character.
pub open spec fn titlecase_swapped(c: char) -> Option<Seq<char>> {
    if c == '\u{01C5}' {
        Some(seq!['d', '\u{017D}'])
    } else if c == '\u{01C8}' {
        Some(seq!['l', 'J'])
    } else if c == '\u{01CB}' {
        Some(seq!['n', 'J'])
    } else if c == '\u{01F2}' {
        Some(seq!['d', 'Z'])
    } else {
        None
    }
}

/// The swapped case of a titlecase digraph (`ǅ`, `ǈ`, `ǋ`, `ǲ`), or `None`.
fn swap_titlecase(c: char) -> (r: Option<Vec<char>>)
    ensures
        match r {
            Some(v) => titlecase_swapped(c) == Some(v@),
            None => titlecase_swapped(c) is None,
        },
{
    let (first, second) = if c == '\u{01C5}' {
        ('d', '\u{017D}')
    } else if c == '\u{01C8}' {
        ('l', 'J')
    } else if c == '\u{01CB}' {
        ('n', 'J')
    } else if c == '\u{01F2}' {
        ('d', 'Z')
    } else {
        return None;
    };
    let mut v = Vec::new();
    v.push(first);
    v.push(second);
    assert(v@ =~= titlecase_swapped(c)->Some_0);
    Some(v)
}

/// The characters that `c` is replaced by under mapping `m`.
pub open spec fn mapped_chars(m: CaseMapping, c: char) -> Seq<char> {
    match m {
        CaseMapping::Lowercase => char_lowercase(c),
        CaseMapping::Uppercase => char_uppercase(c),
        CaseMapping::Swapcase => match titlecase_swapped(c) {
            Some(swapped) => swapped,
            None => if char_is_lowercase(c) {
                char_uppercase(c)
            } else if char_is_uppercase(c) {
                char_lowercase(c)
            } else {
                seq![c]
            },
        },
    }
}

/// Some character of `chars` differs from `c`.
pub open spec fn differs_from(chars: Seq<char>, c: char) -> bool {
    exists|i: int| 0 <= i < chars.len() && chars[i] != c
}

/// What `m` makes of the ASCII byte `b`.
pub open spec fn ascii_byte_map(m: CaseMapping, b: u8) -> u8 {
    match m {
        CaseMapping::Lowercase => ascii_lower(b),
        CaseMapping::Uppercase => ascii_upper(b),
        CaseMapping::Swapcase => ascii_swap(b),
    }
}

/// Every byte of `s` under `m`, byte by byte.
pub open spec fn ascii_mapped(s: Seq<u8>, m: CaseMapping) -> Seq<u8> {
    s.map_values(|b: u8| ascii_byte_map(m, b))
}

/// Every byte of `s` is ASCII.
pub open spec fn is_ascii_bytes(s: Seq<u8>) -> bool {
    forall|i: int| 0 <= i < s.len() ==> #[trigger] s[i] < 0x80
}

/// An ASCII byte is the encoding of the character with its value, and that
/// character's value is the byte.
pub proof fn lemma_ascii_char(b: u8)
    requires
        b < 0x80,
    ensures
        (b as char) as u32 == b as u32,
        (b as char) as u8 == b,
        encode_utf8(seq![b as char]) == seq![b],
        valid_first_scalar(seq![b]),
{
    assert((b as u32) & 0x7F == b as u32) by (bit_vector)
        requires
            b < 0x80,
    ;
    assert(((b as u32) & 0x7F) as u8 == b) by (bit_vector)
        requires
            b < 0x80,
    ;
    assert(seq![b as char].drop_first() =~= Seq::<char>::empty());
    assert(encode_utf8(seq![b as char]) =~= vstd::utf8::encode_scalar((b as char) as u32)
        + encode_utf8(Seq::<char>::empty()));
}

/// What the first chunk of the non-empty `bytes` becomes under `m`: the
/// encoding of the mapped character, or the invalid bytes as they are.
pub open spec fn mapped_chunk(bytes: Seq<u8>, m: CaseMapping) -> Seq<u8> {
    if valid_first_scalar(bytes) {
        encode_utf8(mapped_chars(m, first_char(bytes)))
    } else {
        bytes.take(chunk_len(bytes))
    }
}

/// The first chunk of the non-empty `bytes` is a character that `m` changes.
pub open spec fn chunk_changes(bytes: Seq<u8>, m: CaseMapping) -> bool {
    valid_first_scalar(bytes) && differs_from(
        mapped_chars(m, first_char(bytes)),
        first_char(bytes),
    )
}

/// The replacement of `c` under `m` is not empty, and where no character of
/// it differs from `c` it is `c` alone.
pub open spec fn good_mapping(m: CaseMapping, c: char) -> bool {
    &&& mapped_chars(m, c).len() >= 1
    &&& !differs_from(mapped_chars(m, c), c) ==> mapped_chars(m, c) == seq![c]
}

/// Every valid character of `bytes` has a good mapping under `m`.
pub open spec fn mappings_good(bytes: Seq<u8>, m: CaseMapping) -> bool
    decreases bytes.len(),
{
    if bytes.len() == 0 {
        true
    } else {
        proof {
            lemma_chunk_len_bounds(bytes);
        }
        &&& valid_first_scalar(bytes) ==> good_mapping(m, first_char(bytes))
        &&& mappings_good(bytes.skip(chunk_len(bytes)), m)
    }
}

/// `bytes` with every chunk mapped under `m`.
pub open spec fn case_mapped(bytes: Seq<u8>, m: CaseMapping) -> Seq<u8>
    decreases bytes.len(),
{
    if bytes.len() == 0 {
        seq![]
    } else {
        proof {
            lemma_chunk_len_bounds(bytes);
        }
        mapped_chunk(bytes, m) + case_mapped(bytes.skip(chunk_len(bytes)), m)
    }
}

/// Some chunk of `bytes` is a character that `m` changes.
pub open spec fn case_map_changes(bytes: Seq<u8>, m: CaseMapping) -> bool
    decreases bytes.len(),
{
    if bytes.len() == 0 {
        false
    } else {
        proof {
            lemma_chunk_len_bounds(bytes);
        }
        chunk_changes(bytes, m) || case_map_changes(bytes.skip(chunk_len(bytes)), m)
    }
}

/// `bytes` with its first chunk uppercased and every later chunk lowercased.
pub open spec fn capitalized(bytes: Seq<u8>) -> Seq<u8> {
    if bytes.len() == 0 {
        seq![]
    } else {
        mapped_chunk(bytes, CaseMapping::Uppercase) + case_mapped(
            bytes.skip(chunk_len(bytes)),
            CaseMapping::Lowercase,
        )
    }
}

/// Capitalizing `bytes` changes some character.
pub open spec fn capitalize_changes(bytes: Seq<u8>) -> bool {
    bytes.len() > 0 && (chunk_changes(bytes, CaseMapping::Uppercase) || case_map_changes(
        bytes.skip(chunk_len(bytes)),
        CaseMapping::Lowercase,
    ))
}

/// The effect after pushing the replacement of `source`: `Modified` if it was
/// already, or if some replacement character differs from `source`.
pub open spec fn effect_after(effect: CaseFoldingEffect, mapped: Seq<char>, source: char) -> CaseFoldingEffect {
    CaseFoldingEffect::from_changed(effect is Modified || differs_from(mapped, source))
}

/// Appends the UTF-8 encoding of `mapped`, the case mapping of the character
/// `source`, to `replacement`, and returns the effect updated for it.
pub fn push_case_mapped(
    replacement: &mut Vec<u8>,
    source: char,
    mapped: &Vec<char>,
    effect: CaseFoldingEffect,
) -> (new_effect: CaseFoldingEffect)
    ensures
        final(replacement)@ == old(replacement)@ + encode_utf8(mapped@),
        new_effect == effect_after(effect, mapped@, source),
{
    let ghost start = replacement@;
    let mut effect = effect;
    let ghost effect0 = effect;
    let mut k: usize = 0;
    while k < mapped.len()
        invariant
            k <= mapped@.len(),
            replacement@ == start + encode_utf8(mapped@.take(k as int)),
            effect == effect_after(effect0, mapped@.take(k as int), source),
        decreases mapped@.len() - k,
    {
        let ch = mapped[k];
        if ch != source {
            effect = CaseFoldingEffect::Modified;
        }
        proof {
            let prev = mapped@.take(k as int);
            let next = mapped@.take(k + 1);
            lemma_encode_utf8_push(prev, ch);
            assert(next =~= prev.push(ch));
            if differs_from(prev, source) {
                let i = choose|i: int| 0 <= i < prev.len() && #[trigger] prev[i] != source;
                assert(next[i] != source);
            }
            if ch != source {
                assert(next[k as int] != source);
            }
            if differs_from(next, source) && ch == source {
                let i = choose|i: int| 0 <= i < next.len() && #[trigger] next[i] != source;
                assert(prev[i] != source);
            }
        }
        push_char(replacement, ch);
        assert(replacement@ =~= start + encode_utf8(mapped@.take(k + 1)));
        k += 1;
    }
    assert(mapped@.take(k as int) =~= mapped@);
    effect
}

/// Maps the first chunk of `bytes[pos..]` under `m` onto `replacement`,
/// returning the chunk's length and the updated effect.
fn map_chunk(
    bytes: &[u8],
    pos: usize,
    m: CaseMapping,
    replacement: &mut Vec<u8>,
    effect: CaseFoldingEffect,
) -> (res: (usize, CaseFoldingEffect))
    requires
        pos < bytes@.len(),
    ensures
        ({
            let rest = bytes@.skip(pos as int);
            &&& res.0 == chunk_len(rest)
            &&& final(replacement)@ == old(replacement)@ + mapped_chunk(rest, m)
            &&& res.1 == CaseFoldingEffect::from_changed(
                effect is Modified || chunk_changes(rest, m),
            )
            &&& valid_first_scalar(rest) ==> good_mapping(m, first_char(rest))
            &&& rest[0] < 0x80 ==> {
                &&& res.0 == 1
                &&& mapped_chunk(rest, m) == seq![ascii_byte_map(m, rest[0])]
                &&& chunk_changes(rest, m) == (ascii_byte_map(m, rest[0]) != rest[0])
            }
        }),
{
    let ghost rest = bytes@.skip(pos as int);
    let tail = slice_subrange(bytes, pos, bytes.len());
    assert(tail@ =~= rest);
    let (ch, size) = decode_utf8(tail);
    proof {
        lemma_chunk_len_bounds(rest);
        if rest[0] < 0x80 {
            let b0 = rest[0];
            lemma_ascii_char(b0);
            assert((b0 as u32) & 0x7F == b0 as u32) by (bit_vector)
                requires
                    b0 < 0x80,
            ;
            assert(valid_first_scalar(rest));
        }
    }
    match ch {
        None => {
            push_bytes(replacement, bytes, pos, pos + size);
            assert(bytes@.subrange(pos as int, pos + size) =~= rest.take(size as int));
            (size, effect)
        },
        Some(decoded) => {
            let mapped = match m {
                CaseMapping::Lowercase => to_lowercase_chars(decoded),
                CaseMapping::Uppercase => to_uppercase_chars(decoded),
                CaseMapping::Swapcase => {
                    if let Some(swapped) = swap_titlecase(decoded) {
                        swapped
                    } else if is_lowercase(decoded) {
                        to_uppercase_chars(decoded)
                    } else if is_uppercase(decoded) {
                        to_lowercase_chars(decoded)
                    } else {
                        let mut kept = Vec::new();
                        kept.push(decoded);
                        assert(kept@ =~= seq![decoded]);
                        kept
                    }
                },
            };
            let effect = push_case_mapped(replacement, decoded, &mapped, effect);
            proof {
                if rest[0] < 0x80 {
                    let b = rest[0];
                    lemma_ascii_char(b);
                    let mb = ascii_byte_map(m, b);
                    lemma_ascii_char(mb);
                    assert(decoded == b as char);
                    assert(mapped@ == seq![mb as char]);
                    if mb != b {
                        assert(mapped@[0] != decoded);
                    }
                }
            }
            (size, effect)
        },
    }
}

/// Maps every chunk of `bytes[pos..]` under `m` onto `replacement`.
fn map_chunks_from(
    bytes: &[u8],
    pos: usize,
    m: CaseMapping,
    replacement: &mut Vec<u8>,
    effect: CaseFoldingEffect,
) -> (new_effect: CaseFoldingEffect)
    requires
        pos <= bytes@.len(),
    ensures
        final(replacement)@ == old(replacement)@ + case_mapped(bytes@.skip(pos as int), m),
        new_effect == CaseFoldingEffect::from_changed(
            effect is Modified || case_map_changes(bytes@.skip(pos as int), m),
        ),
        mappings_good(bytes@.skip(pos as int), m),
        is_ascii_bytes(bytes@.skip(pos as int)) ==> {
            &&& case_mapped(bytes@.skip(pos as int), m) == ascii_mapped(bytes@.skip(pos as int), m)
            &&& new_effect == CaseFoldingEffect::from_changed(
                effect is Modified || ascii_mapped(bytes@.skip(pos as int), m) != bytes@.skip(
                    pos as int,
                ),
            )
        },
{
    let ghost start = replacement@;
    let ghost effect0 = effect;
    let ghost pos0 = pos;
    let mut pos = pos;
    let mut effect = effect;
    assert(ascii_mapped(bytes@.subrange(pos0 as int, pos0 as int), m) =~= Seq::<u8>::empty());
    assert(bytes@.subrange(pos0 as int, pos0 as int) =~= Seq::<u8>::empty());
    assert(start + Seq::<u8>::empty() =~= start);
    while pos < bytes.len()
        invariant
            pos0 <= pos <= bytes@.len(),
            start + case_mapped(bytes@.skip(pos0 as int), m) == replacement@ + case_mapped(
                bytes@.skip(pos as int),
                m,
            ),
            (effect0 is Modified || case_map_changes(bytes@.skip(pos0 as int), m)) == (
            effect is Modified || case_map_changes(bytes@.skip(pos as int), m)),
            mappings_good(bytes@.skip(pos0 as int), m) == mappings_good(bytes@.skip(pos as int), m),
            is_ascii_bytes(bytes@.skip(pos0 as int)) ==> {
                &&& replacement@ == start + ascii_mapped(
                    bytes@.subrange(pos0 as int, pos as int),
                    m,
                )
                &&& (effect is Modified) == (effect0 is Modified || ascii_mapped(
                    bytes@.subrange(pos0 as int, pos as int),
                    m,
                ) != bytes@.subrange(pos0 as int, pos as int))
            },
        decreases bytes@.len() - pos,
    {
        let ghost rest = bytes@.skip(pos as int);
        let ghost before = replacement@;
        let (size, e) = map_chunk(bytes, pos, m, replacement, effect);
        proof {
            lemma_chunk_len_bounds(rest);
            assert(rest.skip(size as int) =~= bytes@.skip(pos + size));
            assert(case_mapped(rest, m) == mapped_chunk(rest, m) + case_mapped(
                rest.skip(size as int),
                m,
            ));
            assert(before + case_mapped(rest, m) =~= replacement@ + case_mapped(
                bytes@.skip(pos + size),
                m,
            ));
            if is_ascii_bytes(bytes@.skip(pos0 as int)) {
                let b = bytes@[pos as int];
                assert(b == bytes@.skip(pos0 as int)[pos - pos0]);
                assert(b < 0x80);
                assert(rest[0] == b);
                let mb = ascii_byte_map(m, b);
                let sub = bytes@.subrange(pos0 as int, pos as int);
                let sub2 = bytes@.subrange(pos0 as int, pos + 1);
                assert(sub2 =~= sub.push(b));
                assert(ascii_mapped(sub2, m) =~= ascii_mapped(sub, m).push(mb));
                assert(replacement@ =~= start + ascii_mapped(sub2, m));
                if ascii_mapped(sub2, m) == sub2 {
                    assert(ascii_mapped(sub, m) =~= sub) by {
                        assert forall|i: int| 0 <= i < sub.len() implies ascii_mapped(sub, m)[i]
                            == sub[i] by {
                            assert(ascii_mapped(sub2, m)[i] == sub2[i]);
                        }
                    }
                    assert(ascii_mapped(sub2, m)[sub.len() as int] == sub2[sub.len() as int]);
                }
                if ascii_mapped(sub, m) == sub && mb == b {
                    assert(ascii_mapped(sub2, m) =~= sub2);
                }
            }
        }
        effect = e;
        pos = pos + size;
    }
    assert(case_mapped(bytes@.skip(pos as int), m) =~= Seq::<u8>::empty());
    assert(replacement@ + Seq::<u8>::empty() =~= replacement@);
    assert(bytes@.subrange(pos0 as int, pos as int) =~= bytes@.skip(pos0 as int));
    proof {
        if is_ascii_bytes(bytes@.skip(pos0 as int)) {
            let whole = replacement@;
            assert(case_mapped(bytes@.skip(pos0 as int), m) =~= whole.skip(start.len() as int));
            assert(ascii_mapped(bytes@.skip(pos0 as int), m) =~= whole.skip(start.len() as int));
        }
    }
    effect
}

/// Transform this UTF-8 buffer to "capitalized", returning a new `Vec<u8>`
/// and a [`CaseFoldingEffect`].
///
/// "Capitalized" here means:
///  - The **first** codepoint is converted to uppercase
///  - All subsequent codepoints are converted to lowercase
///
/// Invalid UTF‐8 bytes are passed through unchanged. If any valid codepoint
/// changes length or content, [`CaseFoldingEffect::Modified`] is returned.
pub fn to_utf8_capitalized(bytes: &[u8]) -> (res: (Vec<u8>, CaseFoldingEffect))
    ensures
        res.0@ == capitalized(bytes@),
        res.1 == CaseFoldingEffect::from_changed(capitalize_changes(bytes@)),
        is_ascii_bytes(bytes@) ==> res.0@ == capitalized_bytes(bytes@) && res.1
            == CaseFoldingEffect::from_changed(capitalized_bytes(bytes@) != bytes@),
        valid_utf8(bytes@) ==> (res.1 == CaseFoldingEffect::Modified <==> res.0@ != bytes@),
        valid_utf8(bytes@) && bytes@.len() > 0 ==> res.0@ == encode_utf8(
            char_uppercase(vstd::utf8::decode_utf8(bytes@)[0]) + vstd::utf8::decode_utf8(bytes@).drop_first().flat_map(
                |c: char| char_lowercase(c),
            ),
        ),
{
    let mut replacement = Vec::with_capacity(bytes.len());
    if bytes.len() == 0 {
        assert(capitalized_bytes(bytes@) =~= bytes@);
        assert(replacement@ =~= bytes@);
        return (replacement, CaseFoldingEffect::Unchanged);
    }
    let ghost start = replacement@;
    let (size, effect) = map_chunk(
        bytes,
        0,
        CaseMapping::Uppercase,
        &mut replacement,
        CaseFoldingEffect::Unchanged,
    );
    proof {
        lemma_chunk_len_bounds(bytes@);
        assert(bytes@.skip(0) =~= bytes@);
    }
    let effect = map_chunks_from(bytes, size, CaseMapping::Lowercase, &mut replacement, effect);
    proof {
        if valid_utf8(bytes@) {
            lemma_capitalize_effect_iff_changed(bytes@);
            lemma_capitalized_maps_every_char(bytes@);
        }
        if is_ascii_bytes(bytes@) {
            let s0 = bytes@;
            let b0 = s0[0];
            let tail = s0.skip(1);
            assert(tail =~= s0.drop_first());
            assert(is_ascii_bytes(tail)) by {
                assert forall|i: int| 0 <= i < tail.len() implies #[trigger] tail[i] < 0x80 by {
                    assert(tail[i] == s0[i + 1]);
                }
            }
            assert(ascii_mapped(tail, CaseMapping::Lowercase) =~= lowercase_bytes(tail));
            assert(start =~= Seq::<u8>::empty());
            assert(replacement@ =~= capitalized_bytes(s0));
            let c = capitalized_bytes(s0);
            if c == s0 {
                assert(c[0] == s0[0]);
                assert(lowercase_bytes(tail) =~= tail) by {
                    assert forall|i: int| 0 <= i < tail.len() implies lowercase_bytes(tail)[i]
                        == tail[i] by {
                        assert(c[i + 1] == s0[i + 1]);
                    }
                }
            }
            if ascii_upper(b0) == b0 && lowercase_bytes(tail) == tail {
                assert(c =~= s0);
            }
        }
    }
    (replacement, effect)
}

/// Transform this UTF-8 buffer to lowercase, returning a new `Vec<u8>` and a
/// [`CaseFoldingEffect`].
///
/// Invalid UTF‐8 bytes are passed through unchanged. If any valid codepoint
/// changes length or content, [`CaseFoldingEffect::Modified`] is returned.
pub fn to_utf8_lowercase(bytes: &[u8]) -> (res: (Vec<u8>, CaseFoldingEffect))
    ensures
        res.0@ == case_mapped(bytes@, CaseMapping::Lowercase),
        res.1 == CaseFoldingEffect::from_changed(case_map_changes(bytes@, CaseMapping::Lowercase)),
        mappings_good(bytes@, CaseMapping::Lowercase),
        valid_utf8(bytes@) ==> res.0@ == encode_utf8(
            vstd::utf8::decode_utf8(bytes@).flat_map(|c: char| char_lowercase(c)),
        ),
        is_ascii_bytes(bytes@) ==> res.0@ == lowercase_bytes(bytes@) && res.1
            == CaseFoldingEffect::from_changed(lowercase_bytes(bytes@) != bytes@),
        valid_utf8(bytes@) ==> (res.1 == CaseFoldingEffect::Modified <==> res.0@ != bytes@),
{
    let mut replacement = Vec::with_capacity(bytes.len());
    let effect = map_chunks_from(
        bytes,
        0,
        CaseMapping::Lowercase,
        &mut replacement,
        CaseFoldingEffect::Unchanged,
    );
    assert(bytes@.skip(0) =~= bytes@);
    assert(ascii_mapped(bytes@, CaseMapping::Lowercase) =~= lowercase_bytes(bytes@));
    proof {
        if valid_utf8(bytes@) {
            lemma_effect_iff_changed(bytes@, CaseMapping::Lowercase);
            lemma_lowercase_maps_every_char(bytes@);
        }
    }
    (replacement, effect)
}

/// Transform this UTF-8 buffer to uppercase, returning a new `Vec<u8>` and a
/// [`CaseFoldingEffect`].
/// Invalid UTF‐8 bytes are passed through unchanged. If any valid codepoint
/// changes length or content, [`CaseFoldingEffect::Modified`] is returned.
pub fn to_utf8_uppercase(bytes: &[u8]) -> (res: (Vec<u8>, CaseFoldingEffect))
    ensures
        res.0@ == case_mapped(bytes@, CaseMapping::Uppercase),
        res.1 == CaseFoldingEffect::from_changed(case_map_changes(bytes@, CaseMapping::Uppercase)),
        mappings_good(bytes@, CaseMapping::Uppercase),
        valid_utf8(bytes@) ==> res.0@ == encode_utf8(
            vstd::utf8::decode_utf8(bytes@).flat_map(|c: char| char_uppercase(c)),
        ),
        is_ascii_bytes(bytes@) ==> res.0@ == uppercase_bytes(bytes@) && res.1
            == CaseFoldingEffect::from_changed(uppercase_bytes(bytes@) != bytes@),
        valid_utf8(bytes@) ==> (res.1 == CaseFoldingEffect::Modified <==> res.0@ != bytes@),
{
    let mut replacement = Vec::with_capacity(bytes.len());
    let effect = map_chunks_from(
        bytes,
        0,
        CaseMapping::Uppercase,
        &mut replacement,
        CaseFoldingEffect::Unchanged,
    );
    assert(bytes@.skip(0) =~= bytes@);
    assert(ascii_mapped(bytes@, CaseMapping::Uppercase) =~= uppercase_bytes(bytes@));
    proof {
        if valid_utf8(bytes@) {
            lemma_effect_iff_changed(bytes@, CaseMapping::Uppercase);
            lemma_uppercase_maps_every_char(bytes@);
        }
    }
    (replacement, effect)
}

/// Transform this UTF-8 buffer to "swapped case", returning a new `Vec<u8>` and a
/// [`CaseFoldingEffect`].
///
/// Here "swapped case" means:
/// - Uppercase characters are converted to lowercase
/// - Lowercase characters are converted to uppercase
/// - A titlecase digraph (`ǅ`, `ǈ`, `ǋ`, `ǲ`) becomes its first letter
///   lowercased and its second uppercased (`ǅ` becomes `dŽ`)
/// - Every other character is kept
/// Invalid UTF‐8 bytes are passed through unchanged. If any valid codepoint
/// changes length or content, [`CaseFoldingEffect::Modified`] is returned.
pub fn to_utf8_swapcase(bytes: &[u8]) -> (res: (Vec<u8>, CaseFoldingEffect))
    ensures
        res.0@ == case_mapped(bytes@, CaseMapping::Swapcase),
        res.1 == CaseFoldingEffect::from_changed(case_map_changes(bytes@, CaseMapping::Swapcase)),
        mappings_good(bytes@, CaseMapping::Swapcase),
        valid_utf8(bytes@) ==> res.0@ == encode_utf8(
            vstd::utf8::decode_utf8(bytes@).flat_map(
                (|c: char|
                    match titlecase_swapped(c) {
                        Some(t) => t,
                        None => if char_is_lowercase(c) {
                            char_uppercase(c)
                        } else if char_is_uppercase(c) {
                            char_lowercase(c)
                        } else {
                            seq![c]
                        },
                    }),
            ),
        ),
        is_ascii_bytes(bytes@) ==> res.0@ == swapcase_bytes(bytes@) && res.1
            == CaseFoldingEffect::from_changed(swapcase_bytes(bytes@) != bytes@),
        valid_utf8(bytes@) ==> (res.1 == CaseFoldingEffect::Modified <==> res.0@ != bytes@),
{
    let mut replacement = Vec::with_capacity(bytes.len());
    let effect = map_chunks_from(
        bytes,
        0,
        CaseMapping::Swapcase,
        &mut replacement,
        CaseFoldingEffect::Unchanged,
    );
    assert(bytes@.skip(0) =~= bytes@);
    assert(ascii_mapped(bytes@, CaseMapping::Swapcase) =~= swapcase_bytes(bytes@));
    proof {
        if valid_utf8(bytes@) {
            lemma_effect_iff_changed(bytes@, CaseMapping::Swapcase);
            lemma_swapcase_maps_every_char(bytes@);
            assert((|c: char| mapped_chars(CaseMapping::Swapcase, c)) =~= (|c: char|
                match titlecase_swapped(c) {
                    Some(t) => t,
                    None => if char_is_lowercase(c) {
                        char_uppercase(c)
                    } else if char_is_uppercase(c) {
                        char_lowercase(c)
                    } else {
                        seq![c]
                    },
                }));
        }
    }
    (replacement, effect)
}

/// Case mapping keeps valid UTF-8 valid: every chunk of a valid string is an
/// encoded character, and its replacement is an encoding too.
pub proof fn lemma_case_mapped_valid(bytes: Seq<u8>, m: CaseMapping)
    requires
        valid_utf8(bytes),
    ensures
        valid_utf8(case_mapped(bytes, m)),
    decreases bytes.len(),
{
    if bytes.len() > 0 {
        lemma_chunk_len_bounds(bytes);
        let rest = bytes.skip(chunk_len(bytes));
        assert(rest =~= pop_first_scalar(bytes));
        lemma_case_mapped_valid(rest, m);
        encode_utf8_valid_utf8(mapped_chars(m, first_char(bytes)));
        valid_utf8_concat(mapped_chunk(bytes, m), case_mapped(rest, m));
    } else {
        assert(case_mapped(bytes, m) =~= bytes);
    }
}

/// Capitalizing keeps valid UTF-8 valid.
pub proof fn lemma_capitalized_valid(bytes: Seq<u8>)
    requires
        valid_utf8(bytes),
    ensures
        valid_utf8(capitalized(bytes)),
{
    if bytes.len() > 0 {
        lemma_chunk_len_bounds(bytes);
        let rest = bytes.skip(chunk_len(bytes));
        assert(rest =~= pop_first_scalar(bytes));
        lemma_case_mapped_valid(rest, CaseMapping::Lowercase);
        encode_utf8_valid_utf8(mapped_chars(CaseMapping::Uppercase, first_char(bytes)));
        valid_utf8_concat(
            mapped_chunk(bytes, CaseMapping::Uppercase),
            case_mapped(rest, CaseMapping::Lowercase),
        );
    } else {
        assert(valid_utf8(Seq::<u8>::empty()));
    }
}

/// Bytes with no valid encoded character in them pass through unchanged, and
/// the effect is `Unchanged`.
pub proof fn lemma_invalid_bytes_pass_through(bytes: Seq<u8>, m: CaseMapping)
    requires
        forall|i: int| 0 <= i < bytes.len() ==> !valid_first_scalar(#[trigger] bytes.skip(i)),
    ensures
        case_mapped(bytes, m) == bytes,
        !case_map_changes(bytes, m),
    decreases bytes.len(),
{
    if bytes.len() > 0 {
        lemma_chunk_len_bounds(bytes);
        let k = chunk_len(bytes);
        let rest = bytes.skip(k);
        assert(bytes.skip(0) =~= bytes);
        assert forall|i: int| 0 <= i < rest.len() implies !valid_first_scalar(#[trigger] rest.skip(i)) by {
            assert(rest.skip(i) =~= bytes.skip(k + i));
        }
        lemma_invalid_bytes_pass_through(rest, m);
        assert(bytes.take(k) + rest =~= bytes);
    } else {
        assert(case_mapped(bytes, m) =~= bytes);
    }
}

/// The encoding of the first character of a string that starts with a valid
/// encoding is that first encoding.
pub proof fn lemma_first_char_encoding(bytes: Seq<u8>)
    requires
        valid_first_scalar(bytes),
    ensures
        encode_utf8(seq![first_char(bytes)]) == bytes.take(length_of_first_scalar(bytes)),
{
    let t = bytes.take(length_of_first_scalar(bytes));
    assert(valid_first_scalar(t));
    assert(length_of_first_scalar(t) == length_of_first_scalar(bytes));
    assert(vstd::utf8::decode_first_scalar(t) == vstd::utf8::decode_first_scalar(bytes));
    assert(pop_first_scalar(t) =~= Seq::<u8>::empty());
    assert(valid_utf8(Seq::<u8>::empty()));
    assert(valid_utf8(t));
    decode_utf8_first_scalar(t);
    assert(t.subrange(0, length_of_first_scalar(t)) =~= t);
    let c = first_char(bytes);
    assert(seq![c].drop_first() =~= Seq::<char>::empty());
    assert(encode_utf8(Seq::<char>::empty()) =~= Seq::<u8>::empty());
    assert(encode_utf8(seq![c]) =~= vstd::utf8::encode_scalar(c as u32) + encode_utf8(
        Seq::<char>::empty(),
    ));
}

/// Where no character changes (the effect is `Unchanged`), the output is the
/// input, for any bytes (valid UTF-8 or not) whose characters have good
/// mappings, as `to_utf8_lowercase`, `to_utf8_uppercase` and
/// `to_utf8_swapcase` ensure of their input.
pub proof fn lemma_unchanged_is_identity(bytes: Seq<u8>, m: CaseMapping)
    requires
        mappings_good(bytes, m),
        !case_map_changes(bytes, m),
    ensures
        case_mapped(bytes, m) == bytes,
    decreases bytes.len(),
{
    if bytes.len() > 0 {
        lemma_chunk_len_bounds(bytes);
        let k = chunk_len(bytes);
        let rest = bytes.skip(k);
        lemma_unchanged_is_identity(rest, m);
        if valid_first_scalar(bytes) {
            let c = first_char(bytes);
            assert(!differs_from(mapped_chars(m, c), c));
            assert(mapped_chars(m, c) == seq![c]);
            lemma_first_char_encoding(bytes);
        }
        assert(bytes.take(k) + rest =~= bytes);
    } else {
        assert(case_mapped(bytes, m) =~= bytes);
    }
}

/// The first chunk of a string that starts with a valid encoding stays the
/// same when more bytes follow.
proof fn lemma_first_chunk_of_concat(a: Seq<u8>, b: Seq<u8>)
    requires
        valid_first_scalar(a),
    ensures
        valid_first_scalar(a + b),
        first_char(a + b) == first_char(a),
        chunk_len(a + b) == chunk_len(a),
        (a + b).skip(chunk_len(a)) == a.skip(chunk_len(a)) + b,
{
    let ab = a + b;
    assert(ab[0] == a[0]);
    if a.len() > 1 {
        assert(ab[1] == a[1]);
    }
    if a.len() > 2 {
        assert(ab[2] == a[2]);
    }
    if a.len() > 3 {
        assert(ab[3] == a[3]);
    }
    assert(ab.skip(chunk_len(a)) =~= a.skip(chunk_len(a)) + b);
}

/// Case mapping distributes over a valid UTF-8 prefix followed by any
/// bytes: the output is the prefix's output followed by the rest's, and a
/// character changes in the whole exactly when one changes in either part.
pub proof fn lemma_case_mapped_concat(a: Seq<u8>, b: Seq<u8>, m: CaseMapping)
    requires
        valid_utf8(a),
    ensures
        case_mapped(a + b, m) == case_mapped(a, m) + case_mapped(b, m),
        case_map_changes(a + b, m) == (case_map_changes(a, m) || case_map_changes(b, m)),
    decreases a.len(),
{
    if a.len() == 0 {
        assert(a + b =~= b);
        assert(case_mapped(a, m) + case_mapped(b, m) =~= case_mapped(b, m));
    } else {
        lemma_chunk_len_bounds(a);
        lemma_first_chunk_of_concat(a, b);
        let k = chunk_len(a);
        let rest = a.skip(k);
        assert(rest =~= pop_first_scalar(a));
        lemma_case_mapped_concat(rest, b, m);
        assert(mapped_chunk(a + b, m) == mapped_chunk(a, m));
        assert(chunk_changes(a + b, m) == chunk_changes(a, m));
        assert(case_mapped(a + b, m) =~= mapped_chunk(a, m) + case_mapped(rest + b, m));
        assert(case_mapped(a + b, m) =~= case_mapped(a, m) + case_mapped(b, m));
    }
}

/// Capitalizing a non-empty valid UTF-8 prefix followed by any bytes gives
/// the capitalized prefix followed by the rest lowercased, and it changes a
/// character exactly when capitalizing the prefix or lowercasing the rest
/// does.
pub proof fn lemma_capitalized_concat(a: Seq<u8>, b: Seq<u8>)
    requires
        a.len() > 0,
        valid_utf8(a),
    ensures
        capitalized(a + b) == capitalized(a) + case_mapped(b, CaseMapping::Lowercase),
        capitalize_changes(a + b) == (capitalize_changes(a) || case_map_changes(
            b,
            CaseMapping::Lowercase,
        )),
{
    lemma_chunk_len_bounds(a);
    lemma_first_chunk_of_concat(a, b);
    let k = chunk_len(a);
    let rest = a.skip(k);
    assert(rest =~= pop_first_scalar(a));
    lemma_case_mapped_concat(rest, b, CaseMapping::Lowercase);
    assert(mapped_chunk(a + b, CaseMapping::Uppercase) == mapped_chunk(a, CaseMapping::Uppercase));
    assert(chunk_changes(a + b, CaseMapping::Uppercase) == chunk_changes(
        a,
        CaseMapping::Uppercase,
    ));
    assert(capitalized(a + b) =~= capitalized(a) + case_mapped(b, CaseMapping::Lowercase));
}

/// The characters of `chars`, each replaced by its mapping under `m`.
pub open spec fn mapped_char_seq(chars: Seq<char>, m: CaseMapping) -> Seq<char>
    decreases chars.len(),
{
    if chars.len() == 0 {
        seq![]
    } else {
        mapped_chars(m, chars[0]) + mapped_char_seq(chars.drop_first(), m)
    }
}

/// Some character of `chars` has a mapping under `m` with a character that
/// differs from it.
pub open spec fn chars_change(chars: Seq<char>, m: CaseMapping) -> bool
    decreases chars.len(),
{
    chars.len() > 0 && (differs_from(mapped_chars(m, chars[0]), chars[0]) || chars_change(
        chars.drop_first(),
        m,
    ))
}

/// Every character of `chars` has a good mapping under `m`.
pub open spec fn chars_good(chars: Seq<char>, m: CaseMapping) -> bool
    decreases chars.len(),
{
    chars.len() == 0 || (good_mapping(m, chars[0]) && chars_good(chars.drop_first(), m))
}

/// UTF-8 encoding distributes over concatenation.
proof fn lemma_encode_utf8_concat(a: Seq<char>, b: Seq<char>)
    ensures
        encode_utf8(a + b) == encode_utf8(a) + encode_utf8(b),
    decreases a.len(),
{
    if a.len() == 0 {
        assert(a + b =~= b);
        assert(encode_utf8(a) + encode_utf8(b) =~= encode_utf8(b));
    } else {
        assert((a + b).drop_first() =~= a.drop_first() + b);
        lemma_encode_utf8_concat(a.drop_first(), b);
        assert((a + b)[0] == a[0]);
        assert(encode_utf8(a + b) =~= encode_utf8(a) + encode_utf8(b));
    }
}

/// On valid UTF-8, case mapping chunk by chunk is case mapping the decoded
/// characters one by one.
proof fn lemma_case_mapped_chars(bytes: Seq<u8>, m: CaseMapping)
    requires
        valid_utf8(bytes),
    ensures
        case_mapped(bytes, m) == encode_utf8(mapped_char_seq(vstd::utf8::decode_utf8(bytes), m)),
        case_map_changes(bytes, m) == chars_change(vstd::utf8::decode_utf8(bytes), m),
        mappings_good(bytes, m) == chars_good(vstd::utf8::decode_utf8(bytes), m),
    decreases bytes.len(),
{
    if bytes.len() > 0 {
        lemma_chunk_len_bounds(bytes);
        let rest = bytes.skip(chunk_len(bytes));
        assert(rest =~= pop_first_scalar(bytes));
        lemma_case_mapped_chars(rest, m);
        let d = vstd::utf8::decode_utf8(bytes);
        assert(d == seq![first_char(bytes)] + vstd::utf8::decode_utf8(rest));
        assert(d[0] == first_char(bytes));
        assert(d.drop_first() =~= vstd::utf8::decode_utf8(rest));
        lemma_encode_utf8_concat(
            mapped_chars(m, first_char(bytes)),
            mapped_char_seq(vstd::utf8::decode_utf8(rest), m),
        );
    } else {
        assert(vstd::utf8::decode_utf8(bytes) =~= Seq::<char>::empty());
        assert(encode_utf8(Seq::<char>::empty()) =~= bytes);
    }
}

/// With good mappings, the mapped characters are at least as many, and
/// they differ from the characters exactly when some character changes.
proof fn lemma_mapped_char_seq_effect(chars: Seq<char>, m: CaseMapping)
    requires
        chars_good(chars, m),
    ensures
        mapped_char_seq(chars, m).len() >= chars.len(),
        chars_change(chars, m) <==> mapped_char_seq(chars, m) != chars,
    decreases chars.len(),
{
    if chars.len() > 0 {
        let c = chars[0];
        let t = chars.drop_first();
        let mc = mapped_chars(m, c);
        lemma_mapped_char_seq_effect(t, m);
        let f = mapped_char_seq(chars, m);
        assert(f == mc + mapped_char_seq(t, m));
        if differs_from(mc, c) || chars_change(t, m) {
            if f == chars {
                assert(mc.len() == 1);
                assert(f[0] == mc[0]);
                assert(!differs_from(mc, c));
                assert(f.drop_first() =~= mapped_char_seq(t, m));
                assert(mapped_char_seq(t, m) == t);
                assert(false);
            }
        } else {
            assert(mc == seq![c]);
            assert(f =~= chars);
        }
    } else {
        assert(mapped_char_seq(chars, m) =~= chars);
    }
}

/// On valid UTF-8 whose characters have good mappings, a character changes
/// exactly when the output differs from the input.
pub proof fn lemma_effect_iff_changed(bytes: Seq<u8>, m: CaseMapping)
    requires
        valid_utf8(bytes),
        mappings_good(bytes, m),
    ensures
        case_map_changes(bytes, m) <==> case_mapped(bytes, m) != bytes,
{
    lemma_case_mapped_chars(bytes, m);
    let d = vstd::utf8::decode_utf8(bytes);
    lemma_mapped_char_seq_effect(d, m);
    decode_utf8_encode_utf8(bytes);
    encode_utf8_decode_utf8(mapped_char_seq(d, m));
    encode_utf8_decode_utf8(d);
}

/// A character with a good mapping followed by more characters: the mapped
/// whole differs exactly when the head's mapping differs from it or the
/// mapped tail differs from the tail.
proof fn lemma_prepend_effect(c: char, mc: Seq<char>, t: Seq<char>, ft: Seq<char>)
    requires
        mc.len() >= 1,
        !differs_from(mc, c) ==> mc == seq![c],
        ft.len() >= t.len(),
    ensures
        (differs_from(mc, c) || ft != t) <==> mc + ft != seq![c] + t,
{
    let g = mc + ft;
    let d = seq![c] + t;
    if differs_from(mc, c) || ft != t {
        if g == d {
            assert(g.len() == mc.len() + ft.len());
            assert(d.len() == 1 + t.len());
            assert(mc.len() == 1);
            assert(g[0] == mc[0]);
            assert(d[0] == c);
            assert(!differs_from(mc, c));
            assert(g.drop_first() =~= ft);
            assert(d.drop_first() =~= t);
            assert(false);
        }
    } else {
        assert(g =~= d);
    }
}

/// On valid UTF-8 whose first character has a good uppercase mapping and
/// whose later characters have good lowercase mappings, capitalizing changes
/// a character exactly when the output differs from the input.
#[verifier::rlimit(30)]
pub proof fn lemma_capitalize_effect_iff_changed(bytes: Seq<u8>)
    requires
        valid_utf8(bytes),
        bytes.len() > 0 ==> good_mapping(CaseMapping::Uppercase, first_char(bytes))
            && mappings_good(bytes.skip(chunk_len(bytes)), CaseMapping::Lowercase),
    ensures
        capitalize_changes(bytes) <==> capitalized(bytes) != bytes,
{
    if bytes.len() > 0 {
        lemma_chunk_len_bounds(bytes);
        let rest = bytes.skip(chunk_len(bytes));
        assert(rest =~= pop_first_scalar(bytes));
        lemma_case_mapped_chars(rest, CaseMapping::Lowercase);
        let c = first_char(bytes);
        let t = vstd::utf8::decode_utf8(rest);
        let d = vstd::utf8::decode_utf8(bytes);
        assert(d == seq![c] + t);
        lemma_mapped_char_seq_effect(t, CaseMapping::Lowercase);
        let mc = mapped_chars(CaseMapping::Uppercase, c);
        let ft = mapped_char_seq(t, CaseMapping::Lowercase);
        let g = mc + ft;
        lemma_encode_utf8_concat(mc, ft);
        assert(capitalized(bytes) == encode_utf8(mc) + case_mapped(rest, CaseMapping::Lowercase));
        assert(capitalized(bytes) == encode_utf8(g));
        lemma_prepend_effect(c, mc, t, ft);
        decode_utf8_encode_utf8(bytes);
        encode_utf8_decode_utf8(g);
        encode_utf8_decode_utf8(d);
    } else {
        assert(capitalized(bytes) =~= bytes);
    }
}

/// Mapping characters one by one is the flat map of the mapping.
proof fn lemma_mapped_char_seq_is_flat_map(chars: Seq<char>, m: CaseMapping)
    ensures
        mapped_char_seq(chars, m) == chars.flat_map(|c: char| mapped_chars(m, c)),
    decreases chars.len(),
{
    let f = |c: char| mapped_chars(m, c);
    if chars.len() > 0 {
        lemma_mapped_char_seq_is_flat_map(chars.drop_first(), m);
        assert(chars.map_values(f).drop_first() =~= chars.drop_first().map_values(f));
        assert(chars.map_values(f).first() == mapped_chars(m, chars[0]));
    } else {
        assert(chars.map_values(f) =~= Seq::<Seq<char>>::empty());
        assert(chars.map_values(f).flatten() =~= Seq::<char>::empty());
    }
}

/// Each character is replaced by what std's case functions give for it,
/// whatever its code point: lowercasing by `char::to_lowercase`, uppercasing
/// by `char::to_uppercase`, and swapcase (apart from the titlecase digraphs)
/// by `char::to_uppercase` for a lowercase character, `char::to_lowercase`
/// for an uppercase one, and the character itself for any other.
pub proof fn lemma_char_replacements(c: char)
    ensures
        mapped_chars(CaseMapping::Lowercase, c) == char_lowercase(c),
        mapped_chars(CaseMapping::Uppercase, c) == char_uppercase(c),
        titlecase_swapped(c) is None && char_is_lowercase(c) ==> mapped_chars(
            CaseMapping::Swapcase,
            c,
        ) == char_uppercase(c),
        titlecase_swapped(c) is None && !char_is_lowercase(c) && char_is_uppercase(c)
            ==> mapped_chars(CaseMapping::Swapcase, c) == char_lowercase(c),
        titlecase_swapped(c) is None && !char_is_lowercase(c) && !char_is_uppercase(c)
            ==> mapped_chars(CaseMapping::Swapcase, c) == seq![c],
        titlecase_swapped(c) matches Some(t) ==> mapped_chars(CaseMapping::Swapcase, c) == t,
{
}

/// Lowercasing valid UTF-8 gives the encoding of its characters, each
/// replaced by `char::to_lowercase` of it.
pub proof fn lemma_lowercase_maps_every_char(bytes: Seq<u8>)
    requires
        valid_utf8(bytes),
    ensures
        case_mapped(bytes, CaseMapping::Lowercase) == encode_utf8(
            vstd::utf8::decode_utf8(bytes).flat_map(|c: char| char_lowercase(c)),
        ),
{
    lemma_case_mapped_chars(bytes, CaseMapping::Lowercase);
    lemma_mapped_char_seq_is_flat_map(vstd::utf8::decode_utf8(bytes), CaseMapping::Lowercase);
    assert((|c: char| mapped_chars(CaseMapping::Lowercase, c)) =~= (|c: char| char_lowercase(c)));
}

/// Uppercasing valid UTF-8 gives the encoding of its characters, each
/// replaced by `char::to_uppercase` of it.
pub proof fn lemma_uppercase_maps_every_char(bytes: Seq<u8>)
    requires
        valid_utf8(bytes),
    ensures
        case_mapped(bytes, CaseMapping::Uppercase) == encode_utf8(
            vstd::utf8::decode_utf8(bytes).flat_map(|c: char| char_uppercase(c)),
        ),
{
    lemma_case_mapped_chars(bytes, CaseMapping::Uppercase);
    lemma_mapped_char_seq_is_flat_map(vstd::utf8::decode_utf8(bytes), CaseMapping::Uppercase);
    assert((|c: char| mapped_chars(CaseMapping::Uppercase, c)) =~= (|c: char| char_uppercase(c)));
}

/// Swapping the case of valid UTF-8 gives the encoding of its characters,
/// each replaced by its swapcase replacement (see `lemma_char_replacements`).
pub proof fn lemma_swapcase_maps_every_char(bytes: Seq<u8>)
    requires
        valid_utf8(bytes),
    ensures
        case_mapped(bytes, CaseMapping::Swapcase) == encode_utf8(
            vstd::utf8::decode_utf8(bytes).flat_map(|c: char| mapped_chars(CaseMapping::Swapcase, c)),
        ),
{
    lemma_case_mapped_chars(bytes, CaseMapping::Swapcase);
    lemma_mapped_char_seq_is_flat_map(vstd::utf8::decode_utf8(bytes), CaseMapping::Swapcase);
}

/// Capitalizing non-empty valid UTF-8 gives the encoding of `char::to_uppercase`
/// of its first character followed by `char::to_lowercase` of each later one.
pub proof fn lemma_capitalized_maps_every_char(bytes: Seq<u8>)
    requires
        valid_utf8(bytes),
        bytes.len() > 0,
    ensures
        capitalized(bytes) == encode_utf8(
            char_uppercase(vstd::utf8::decode_utf8(bytes)[0]) + vstd::utf8::decode_utf8(
                bytes,
            ).drop_first().flat_map(|c: char| char_lowercase(c)),
        ),
{
    lemma_chunk_len_bounds(bytes);
    let rest = bytes.skip(chunk_len(bytes));
    assert(rest =~= pop_first_scalar(bytes));
    lemma_lowercase_maps_every_char(rest);
    let d = vstd::utf8::decode_utf8(bytes);
    assert(d == seq![first_char(bytes)] + vstd::utf8::decode_utf8(rest));
    assert(d[0] == first_char(bytes));
    assert(d.drop_first() =~= vstd::utf8::decode_utf8(rest));
    lemma_encode_utf8_concat(
        char_uppercase(first_char(bytes)),
        vstd::utf8::decode_utf8(rest).flat_map(|c: char| char_lowercase(c)),
    );
}

} // verus!

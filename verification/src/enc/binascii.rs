//! Shared encoding and decoding logic for binary and ASCII-8BIT strings.

use vstd::prelude::*;

use crate::case_folding::CaseFoldingEffect;

verus! {

/// `b` is an ASCII uppercase letter, `A` through `Z`.
pub open spec fn is_ascii_upper(b: u8) -> bool {
    0x41 <= b <= 0x5a
}

/// `b` is an ASCII lowercase letter, `a` through `z`.
pub open spec fn is_ascii_lower(b: u8) -> bool {
    0x61 <= b <= 0x7a
}

/// The byte with an ASCII uppercase letter mapped to its lowercase form;
/// every other byte is kept.
pub open spec fn ascii_lower(b: u8) -> u8 {
    if is_ascii_upper(b) {
        (b + 0x20) as u8
    } else {
        b
    }
}

/// The byte with an ASCII lowercase letter mapped to its uppercase form;
/// every other byte is kept.
pub open spec fn ascii_upper(b: u8) -> u8 {
    if is_ascii_lower(b) {
        (b - 0x20) as u8
    } else {
        b
    }
}

/// The byte with the case of an ASCII letter swapped; every other byte is kept.
pub open spec fn ascii_swap(b: u8) -> u8 {
    if is_ascii_lower(b) {
        ascii_upper(b)
    } else if is_ascii_upper(b) {
        ascii_lower(b)
    } else {
        b
    }
}

/// Every byte of `s` lowercased.
pub open spec fn lowercase_bytes(s: Seq<u8>) -> Seq<u8> {
    s.map_values(|b: u8| ascii_lower(b))
}

/// Every byte of `s` uppercased.
pub open spec fn uppercase_bytes(s: Seq<u8>) -> Seq<u8> {
    s.map_values(|b: u8| ascii_upper(b))
}

/// Every byte of `s` with its case swapped.
pub open spec fn swapcase_bytes(s: Seq<u8>) -> Seq<u8> {
    s.map_values(|b: u8| ascii_swap(b))
}

/// The first byte of `s` uppercased and every later byte lowercased.
pub open spec fn capitalized_bytes(s: Seq<u8>) -> Seq<u8> {
    if s.len() == 0 {
        s
    } else {
        seq![ascii_upper(s[0])] + lowercase_bytes(s.drop_first())
    }
}

fn to_ascii_lowercase(b: u8) -> (r: u8)
    ensures
        r == ascii_lower(b),
{
    if 0x41 <= b && b <= 0x5a {
        b + 0x20
    } else {
        b
    }
}

fn to_ascii_uppercase(b: u8) -> (r: u8)
    ensures
        r == ascii_upper(b),
{
    if 0x61 <= b && b <= 0x7a {
        b - 0x20
    } else {
        b
    }
}

fn to_swapcase(b: u8) -> (r: u8)
    ensures
        r == ascii_swap(b),
{
    if 0x61 <= b && b <= 0x7a {
        to_ascii_uppercase(b)
    } else if 0x41 <= b && b <= 0x5a {
        to_ascii_lowercase(b)
    } else {
        b
    }
}

/// Lowercases `s[start..]` without looking for changes.
fn lowercase_from(s: &mut [u8], start: usize)
    requires
        start <= old(s)@.len(),
    ensures
        final(s)@ == old(s)@.take(start as int) + lowercase_bytes(old(s)@.skip(start as int)),
{
    let ghost orig = s@;
    let mut i = start;
    while i < s.len()
        invariant
            start <= i <= s@.len(),
            s@.len() == orig.len(),
            forall|j: int| 0 <= j < start ==> s@[j] == orig[j],
            forall|j: int| start <= j < i ==> s@[j] == ascii_lower(orig[j]),
            forall|j: int| i <= j < s@.len() ==> s@[j] == orig[j],
        decreases s@.len() - i,
    {
        let b = s[i];
        s[i] = to_ascii_lowercase(b);
        i += 1;
    }
    assert(s@ =~= orig.take(start as int) + lowercase_bytes(orig.skip(start as int)));
}

/// Uppercases `s[start..]` without looking for changes.
fn uppercase_from(s: &mut [u8], start: usize)
    requires
        start <= old(s)@.len(),
    ensures
        final(s)@ == old(s)@.take(start as int) + uppercase_bytes(old(s)@.skip(start as int)),
{
    let ghost orig = s@;
    let mut i = start;
    while i < s.len()
        invariant
            start <= i <= s@.len(),
            s@.len() == orig.len(),
            forall|j: int| 0 <= j < start ==> s@[j] == orig[j],
            forall|j: int| start <= j < i ==> s@[j] == ascii_upper(orig[j]),
            forall|j: int| i <= j < s@.len() ==> s@[j] == orig[j],
        decreases s@.len() - i,
    {
        let b = s[i];
        s[i] = to_ascii_uppercase(b);
        i += 1;
    }
    assert(s@ =~= orig.take(start as int) + uppercase_bytes(orig.skip(start as int)));
}

/// Swaps the case of `s[start..]` without looking for changes.
fn swapcase_from(s: &mut [u8], start: usize)
    requires
        start <= old(s)@.len(),
    ensures
        final(s)@ == old(s)@.take(start as int) + swapcase_bytes(old(s)@.skip(start as int)),
{
    let ghost orig = s@;
    let mut i = start;
    while i < s.len()
        invariant
            start <= i <= s@.len(),
            s@.len() == orig.len(),
            forall|j: int| 0 <= j < start ==> s@[j] == orig[j],
            forall|j: int| start <= j < i ==> s@[j] == ascii_swap(orig[j]),
            forall|j: int| i <= j < s@.len() ==> s@[j] == orig[j],
        decreases s@.len() - i,
    {
        let b = s[i];
        s[i] = to_swapcase(b);
        i += 1;
    }
    assert(s@ =~= orig.take(start as int) + swapcase_bytes(orig.skip(start as int)));
}

/// Case-maps `s[start..]` in place, scanning for the first byte that changes;
/// from there on the rest is mapped without further comparisons.
fn lowercase_scan_from(s: &mut [u8], start: usize) -> (effect: CaseFoldingEffect)
    requires
        start <= old(s)@.len(),
    ensures
        final(s)@ == old(s)@.take(start as int) + lowercase_bytes(old(s)@.skip(start as int)),
        effect == CaseFoldingEffect::from_changed(final(s)@ != old(s)@),
{
    let ghost orig = s@;
    let mut i: usize = start;
    while i < s.len()
        invariant
            start <= i <= s@.len(),
            s@ == orig,
            orig == old(s)@,
            forall|j: int| start <= j < i ==> ascii_lower(orig[j]) == orig[j],
        decreases s@.len() - i,
    {
        let old_b = s[i];
        let new_b = to_ascii_lowercase(old_b);
        s[i] = new_b;
        if old_b != new_b {
            lowercase_from(&mut *s, i + 1);
            assert(s@ =~= orig.take(start as int) + lowercase_bytes(orig.skip(start as int)));
            assert(s@[i as int] != orig[i as int]);
            return CaseFoldingEffect::Modified;
        }
        i += 1;
    }
    assert(s@ =~= orig.take(start as int) + lowercase_bytes(orig.skip(start as int)));
    CaseFoldingEffect::Unchanged
}

/// Case-maps `s[start..]` in place, scanning for the first byte that changes;
/// from there on the rest is mapped without further comparisons.
fn uppercase_scan_from(s: &mut [u8], start: usize) -> (effect: CaseFoldingEffect)
    requires
        start <= old(s)@.len(),
    ensures
        final(s)@ == old(s)@.take(start as int) + uppercase_bytes(old(s)@.skip(start as int)),
        effect == CaseFoldingEffect::from_changed(final(s)@ != old(s)@),
{
    let ghost orig = s@;
    let mut i: usize = start;
    while i < s.len()
        invariant
            start <= i <= s@.len(),
            s@ == orig,
            orig == old(s)@,
            forall|j: int| start <= j < i ==> ascii_upper(orig[j]) == orig[j],
        decreases s@.len() - i,
    {
        let old_b = s[i];
        let new_b = to_ascii_uppercase(old_b);
        s[i] = new_b;
        if old_b != new_b {
            uppercase_from(&mut *s, i + 1);
            assert(s@ =~= orig.take(start as int) + uppercase_bytes(orig.skip(start as int)));
            assert(s@[i as int] != orig[i as int]);
            return CaseFoldingEffect::Modified;
        }
        i += 1;
    }
    assert(s@ =~= orig.take(start as int) + uppercase_bytes(orig.skip(start as int)));
    CaseFoldingEffect::Unchanged
}

/// Case-maps `s[start..]` in place, scanning for the first byte that changes;
/// from there on the rest is mapped without further comparisons.
fn swapcase_scan_from(s: &mut [u8], start: usize) -> (effect: CaseFoldingEffect)
    requires
        start <= old(s)@.len(),
    ensures
        final(s)@ == old(s)@.take(start as int) + swapcase_bytes(old(s)@.skip(start as int)),
        effect == CaseFoldingEffect::from_changed(final(s)@ != old(s)@),
{
    let ghost orig = s@;
    let mut i: usize = start;
    while i < s.len()
        invariant
            start <= i <= s@.len(),
            s@ == orig,
            orig == old(s)@,
            forall|j: int| start <= j < i ==> ascii_swap(orig[j]) == orig[j],
        decreases s@.len() - i,
    {
        let old_b = s[i];
        let new_b = to_swapcase(old_b);
        s[i] = new_b;
        if old_b != new_b {
            swapcase_from(&mut *s, i + 1);
            assert(s@ =~= orig.take(start as int) + swapcase_bytes(orig.skip(start as int)));
            assert(s@[i as int] != orig[i as int]);
            return CaseFoldingEffect::Modified;
        }
        i += 1;
    }
    assert(s@ =~= orig.take(start as int) + swapcase_bytes(orig.skip(start as int)));
    CaseFoldingEffect::Unchanged
}

/// Convert this ASCII or binary string to a "capitalized" form in-place,
/// returning whether any changes were made.
///
/// This routine ensures the first character is upcased, while every subsequent
/// character is downcased. If the first byte changes, the remainder is
/// downcased without further comparisons; otherwise the remainder is scanned
/// as [`make_lowercase`] does. If the entire slice is already in
/// "capitalized" form, [`CaseFoldingEffect::Unchanged`] is returned.
pub fn make_capitalized(s: &mut [u8]) -> (effect: CaseFoldingEffect)
    ensures
        final(s)@ == capitalized_bytes(old(s)@),
        effect == CaseFoldingEffect::from_changed(final(s)@ != old(s)@),
        final(s)@.len() == old(s)@.len(),
        old(s)@.len() > 0 ==> final(s)@[0] == (if 0x61 <= old(s)@[0] <= 0x7a { (old(s)@[0] - 0x20) as u8 } else { old(s)@[0] }),
        forall|i: int|
            1 <= i < old(s)@.len() ==> #[trigger] final(s)@[i] == (if 0x41 <= old(s)@[i] <= 0x5a { (old(s)@[i] + 0x20) as u8 } else { old(s)@[i] }),
{
    proof {
        lemma_capitalized_bytes_by_range(old(s)@);
    }
    let ghost orig = s@;
    if s.len() == 0 {
        return CaseFoldingEffect::Unchanged;
    }
    let old_first = s[0];
    let new_first = to_ascii_uppercase(old_first);
    s[0] = new_first;
    if old_first != new_first {
        lowercase_from(&mut *s, 1);
        assert(s@ =~= capitalized_bytes(orig));
        assert(s@[0] != orig[0]);
        return CaseFoldingEffect::Modified;
    }
    assert(s@ =~= orig);
    let effect = lowercase_scan_from(&mut *s, 1);
    assert(s@ =~= capitalized_bytes(orig));
    effect
}

/// Convert this ASCII or binary string to lowercase in-place, returning
/// whether any changes were made.
///
/// The function scans each byte until it finds a character that actually
/// needs to be changed (e.g., `A` → `a`). Once the first changed byte is
/// found, the rest of the slice is lowercased without further comparisons and
/// [`CaseFoldingEffect::Modified`] is returned. If the end of the string is
/// reached without finding any uppercase byte, [`CaseFoldingEffect::Unchanged`]
/// is returned.
pub fn make_lowercase(s: &mut [u8]) -> (effect: CaseFoldingEffect)
    ensures
        final(s)@ == lowercase_bytes(old(s)@),
        effect == CaseFoldingEffect::from_changed(final(s)@ != old(s)@),
        final(s)@.len() == old(s)@.len(),
        forall|i: int|
            0 <= i < old(s)@.len() ==> #[trigger] final(s)@[i] == (if 0x41 <= old(s)@[i] <= 0x5a { (old(s)@[i] + 0x20) as u8 } else { old(s)@[i] }),
{
    proof {
        lemma_lowercase_bytes_by_range(old(s)@);
    }
    let ghost orig = s@;
    let effect = lowercase_scan_from(s, 0);
    assert(orig.take(0) + orig.skip(0) =~= orig);
    assert(s@ =~= lowercase_bytes(orig));
    effect
}

/// Convert this ASCII or binary string to uppercase in-place, returning
/// whether any changes were made.
///
/// The function scans each byte until it finds a character that actually
/// needs to be changed (e.g., `a` → `A`). Once the first changed byte is
/// found, the rest of the slice is uppercased without further comparisons and
/// [`CaseFoldingEffect::Modified`] is returned. If the end of the string is
/// reached without finding any lowercase byte, [`CaseFoldingEffect::Unchanged`]
/// is returned.
pub fn make_uppercase(s: &mut [u8]) -> (effect: CaseFoldingEffect)
    ensures
        final(s)@ == uppercase_bytes(old(s)@),
        effect == CaseFoldingEffect::from_changed(final(s)@ != old(s)@),
        final(s)@.len() == old(s)@.len(),
        forall|i: int|
            0 <= i < old(s)@.len() ==> #[trigger] final(s)@[i] == (if 0x61 <= old(s)@[i] <= 0x7a { (old(s)@[i] - 0x20) as u8 } else { old(s)@[i] }),
{
    proof {
        lemma_uppercase_bytes_by_range(old(s)@);
    }
    let ghost orig = s@;
    let effect = uppercase_scan_from(s, 0);
    assert(s@ =~= uppercase_bytes(orig));
    effect
}

/// Convert this ASCII or binary string to "swapcase" in-place, returning
/// whether any changes were made.
///
/// "Swapcase" means each ASCII-lowercase byte is converted to uppercase, and
/// each ASCII-uppercase byte is converted to lowercase; any other byte is left
/// unchanged. The scan stops comparing at the first modified byte and swaps
/// the rest without further checks, returning [`CaseFoldingEffect::Modified`];
/// if no byte changes, [`CaseFoldingEffect::Unchanged`] is returned.
pub fn make_swapcase(s: &mut [u8]) -> (effect: CaseFoldingEffect)
    ensures
        final(s)@ == swapcase_bytes(old(s)@),
        effect == CaseFoldingEffect::from_changed(final(s)@ != old(s)@),
        final(s)@.len() == old(s)@.len(),
        forall|i: int|
            0 <= i < old(s)@.len() ==> #[trigger] final(s)@[i] == (if 0x61 <= old(s)@[i] <= 0x7a { (old(s)@[i] - 0x20) as u8 } else if 0x41 <= old(s)@[i] <= 0x5a { (old(s)@[i] + 0x20) as u8 } else { old(s)@[i] }),
{
    proof {
        lemma_swapcase_bytes_by_range(old(s)@);
    }
    let ghost orig = s@;
    let effect = swapcase_scan_from(s, 0);
    assert(s@ =~= swapcase_bytes(orig));
    effect
}

/// Lowercasing maps exactly the bytes `A`–`Z` (0x41–0x5A) to `a`–`z` by
/// adding 0x20, byte by byte, and keeps every other byte.
pub proof fn lemma_lowercase_bytes_by_range(s: Seq<u8>)
    ensures
        lowercase_bytes(s).len() == s.len(),
        forall|i: int|
            0 <= i < s.len() ==> #[trigger] lowercase_bytes(s)[i] == (if 0x41 <= s[i] <= 0x5a { (s[i] + 0x20) as u8 } else { s[i] }),
{
}

/// Uppercasing maps exactly the bytes `a`–`z` (0x61–0x7A) to `A`–`Z` by
/// subtracting 0x20, byte by byte, and keeps every other byte.
pub proof fn lemma_uppercase_bytes_by_range(s: Seq<u8>)
    ensures
        uppercase_bytes(s).len() == s.len(),
        forall|i: int|
            0 <= i < s.len() ==> #[trigger] uppercase_bytes(s)[i] == (if 0x61 <= s[i] <= 0x7a { (s[i] - 0x20) as u8 } else { s[i] }),
{
}

/// Swapping the case maps `a`–`z` to `A`–`Z` and `A`–`Z` to `a`–`z`, byte
/// by byte, and keeps every other byte.
pub proof fn lemma_swapcase_bytes_by_range(s: Seq<u8>)
    ensures
        swapcase_bytes(s).len() == s.len(),
        forall|i: int|
            0 <= i < s.len() ==> #[trigger] swapcase_bytes(s)[i] == (if 0x61 <= s[i] <= 0x7a { (s[i] - 0x20) as u8 } else if 0x41 <= s[i] <= 0x5a { (s[i] + 0x20) as u8 } else { s[i] }),
{
}

/// Capitalizing uppercases the first byte and lowercases every later one, by
/// the same byte ranges.
pub proof fn lemma_capitalized_bytes_by_range(s: Seq<u8>)
    ensures
        capitalized_bytes(s).len() == s.len(),
        s.len() > 0 ==> capitalized_bytes(s)[0] == (if 0x61 <= s[0] <= 0x7a { (s[0] - 0x20) as u8 } else { s[0] }),
        forall|i: int|
            1 <= i < s.len() ==> #[trigger] capitalized_bytes(s)[i] == (if 0x41 <= s[i] <= 0x5a { (s[i] + 0x20) as u8 } else { s[i] }),
{
    if s.len() > 0 {
        assert forall|i: int| 1 <= i < s.len() implies #[trigger] capitalized_bytes(s)[i] == (if 0x41 <= s[i] <= 0x5a { (s[i] + 0x20) as u8 } else { s[i] }) by {
            assert(capitalized_bytes(s)[i] == lowercase_bytes(s.drop_first())[i - 1]);
        }
    }
}

/// Lowercasing is idempotent: a second [`make_lowercase`] changes nothing
/// and reports [`CaseFoldingEffect::Unchanged`].
pub proof fn lemma_lowercase_idempotent(s: Seq<u8>)
    ensures
        lowercase_bytes(lowercase_bytes(s)) == lowercase_bytes(s),
        CaseFoldingEffect::from_changed(lowercase_bytes(lowercase_bytes(s)) != lowercase_bytes(s))
            == CaseFoldingEffect::Unchanged,
{
    assert(lowercase_bytes(lowercase_bytes(s)) =~= lowercase_bytes(s));
}

/// Uppercasing is idempotent: a second [`make_uppercase`] changes nothing
/// and reports [`CaseFoldingEffect::Unchanged`].
pub proof fn lemma_uppercase_idempotent(s: Seq<u8>)
    ensures
        uppercase_bytes(uppercase_bytes(s)) == uppercase_bytes(s),
        CaseFoldingEffect::from_changed(uppercase_bytes(uppercase_bytes(s)) != uppercase_bytes(s))
            == CaseFoldingEffect::Unchanged,
{
    assert(uppercase_bytes(uppercase_bytes(s)) =~= uppercase_bytes(s));
}

/// Capitalizing is idempotent: a second [`make_capitalized`] changes nothing
/// and reports [`CaseFoldingEffect::Unchanged`].
pub proof fn lemma_capitalized_idempotent(s: Seq<u8>)
    ensures
        capitalized_bytes(capitalized_bytes(s)) == capitalized_bytes(s),
        CaseFoldingEffect::from_changed(capitalized_bytes(capitalized_bytes(s)) != capitalized_bytes(s))
            == CaseFoldingEffect::Unchanged,
{
    if s.len() > 0 {
        let c = capitalized_bytes(s);
        assert(c.drop_first() =~= lowercase_bytes(s.drop_first()));
        lemma_lowercase_idempotent(s.drop_first());
        assert(capitalized_bytes(c) =~= c);
    }
}

/// Swapping the case twice gives back the bytes it started from.
pub proof fn lemma_swapcase_involution(s: Seq<u8>)
    ensures
        swapcase_bytes(swapcase_bytes(s)) == s,
{
    assert(swapcase_bytes(swapcase_bytes(s)) =~= s);
}

/// Lowercasing after uppercasing is lowercasing, and uppercasing after
/// lowercasing is uppercasing: the earlier pass is forgotten.
pub proof fn lemma_last_case_wins(s: Seq<u8>)
    ensures
        lowercase_bytes(uppercase_bytes(s)) == lowercase_bytes(s),
        uppercase_bytes(lowercase_bytes(s)) == uppercase_bytes(s),
        lowercase_bytes(swapcase_bytes(s)) == lowercase_bytes(s),
        uppercase_bytes(swapcase_bytes(s)) == uppercase_bytes(s),
{
    assert(lowercase_bytes(uppercase_bytes(s)) =~= lowercase_bytes(s));
    assert(uppercase_bytes(lowercase_bytes(s)) =~= uppercase_bytes(s));
    assert(lowercase_bytes(swapcase_bytes(s)) =~= lowercase_bytes(s));
    assert(uppercase_bytes(swapcase_bytes(s)) =~= uppercase_bytes(s));
}

/// Every case change keeps the length and leaves each byte that is not an
/// ASCII letter as it is.
pub proof fn lemma_only_ascii_letters_change(s: Seq<u8>, i: int)
    requires
        0 <= i < s.len(),
    ensures
        lowercase_bytes(s).len() == s.len(),
        uppercase_bytes(s).len() == s.len(),
        swapcase_bytes(s).len() == s.len(),
        capitalized_bytes(s).len() == s.len(),
        !is_ascii_upper(s[i]) && !is_ascii_lower(s[i]) ==> lowercase_bytes(s)[i] == s[i]
            && uppercase_bytes(s)[i] == s[i] && swapcase_bytes(s)[i] == s[i]
            && capitalized_bytes(s)[i] == s[i],
{
    if i > 0 {
        assert(capitalized_bytes(s)[i] == lowercase_bytes(s.drop_first())[i - 1]);
    }
}

} // verus!

use artichoke::enc::binascii::{make_capitalized, make_lowercase, make_swapcase, make_uppercase};
use artichoke::case_folding::CaseFoldingEffect;
use artichoke::enc::utf8::case_change::{
    push_case_mapped, to_utf8_capitalized, to_utf8_lowercase, to_utf8_swapcase, to_utf8_uppercase,
};

fn run_test<F>(func: F, input: &[u8], expected: &[u8], expect_fold: CaseFoldingEffect)
where
    F: FnOnce(&[u8]) -> (Vec<u8>, CaseFoldingEffect),
{
    let (output, effect) = func(input);
    assert_eq!(
        effect, expect_fold,
        "Expected folding effect {:?} for input {:?}, got {:?} with output {:?}",
        expect_fold, input, effect, output,
    );
    assert_eq!(
        output, expected,
        "Transformed result mismatch:\n  input = {:?}\n  expected = {:?}\n  actual   = {:?}",
        input, expected, output
    );
}

#[test]
fn test_to_utf8_capitalized() {
    let cases: [(&[u8], &[u8], CaseFoldingEffect); 9] = [
        (b"", b"", CaseFoldingEffect::Unchanged),
        (b"hello WORLD", b"Hello world", CaseFoldingEffect::Modified),
        (b"Hello world", b"Hello world", CaseFoldingEffect::Unchanged),
        (b"1234", b"1234", CaseFoldingEffect::Unchanged),
        (b"\xFFabc", b"\xFFabc", CaseFoldingEffect::Unchanged),
        ("ßtest".as_bytes(), b"SStest", CaseFoldingEffect::Modified),
        ("αγαπώ".as_bytes(), "Αγαπώ".as_bytes(), CaseFoldingEffect::Modified),
        ("işaret".as_bytes(), "Işaret".as_bytes(), CaseFoldingEffect::Modified),
        ("你好世界".as_bytes(), "你好世界".as_bytes(), CaseFoldingEffect::Unchanged),
    ];
    for (input, expected, effect) in cases {
        run_test(to_utf8_capitalized, input, expected, effect);
    }
}

#[test]
fn test_to_utf8_capitalized_dz_digraph() {
    let cases: [(&[u8], &[u8], CaseFoldingEffect); 3] = [
        ("Ǆ".as_bytes(), "Ǆ".as_bytes(), CaseFoldingEffect::Unchanged),
        ("ǅ".as_bytes(), "Ǆ".as_bytes(), CaseFoldingEffect::Modified),
        ("ǆ".as_bytes(), "Ǆ".as_bytes(), CaseFoldingEffect::Modified),
    ];
    for (input, expected, effect) in cases {
        run_test(to_utf8_capitalized, input, expected, effect);
    }
}

#[test]
fn test_to_utf8_lowercase() {
    let cases: [(&[u8], &[u8], CaseFoldingEffect); 9] = [
        (b"", b"", CaseFoldingEffect::Unchanged),
        (b"HELLO", b"hello", CaseFoldingEffect::Modified),
        ("ßTEST".as_bytes(), "ßtest".as_bytes(), CaseFoldingEffect::Modified),
        (b"\xFFhello", b"\xFFhello", CaseFoldingEffect::Unchanged),
        (b"Hello world", b"hello world", CaseFoldingEffect::Modified),
        (b"hello world", b"hello world", CaseFoldingEffect::Unchanged),
        ("İŞARET".as_bytes(), "i̇şaret".as_bytes(), CaseFoldingEffect::Modified),
        ("你好".as_bytes(), "你好".as_bytes(), CaseFoldingEffect::Unchanged),
        ("ΑΓΑΠΩ".as_bytes(), "αγαπω".as_bytes(), CaseFoldingEffect::Modified),
    ];
    for (input, expected, effect) in cases {
        run_test(to_utf8_lowercase, input, expected, effect);
    }
}

#[test]
fn test_to_utf8_lowercase_dz_digraph() {
    let cases: [(&[u8], &[u8], CaseFoldingEffect); 3] = [
        ("Ǆ".as_bytes(), "ǆ".as_bytes(), CaseFoldingEffect::Modified),
        ("ǅ".as_bytes(), "ǆ".as_bytes(), CaseFoldingEffect::Modified),
        ("ǆ".as_bytes(), "ǆ".as_bytes(), CaseFoldingEffect::Unchanged),
    ];
    for (input, expected, effect) in cases {
        run_test(to_utf8_lowercase, input, expected, effect);
    }
}

#[test]
fn test_to_utf8_uppercase() {
    let cases: [(&[u8], &[u8], CaseFoldingEffect); 8] = [
        (b"", b"", CaseFoldingEffect::Unchanged),
        (b"hello", b"HELLO", CaseFoldingEffect::Modified),
        ("ßtest".as_bytes(), b"SSTEST", CaseFoldingEffect::Modified),
        (b"hello world", b"HELLO WORLD", CaseFoldingEffect::Modified),
        (b"HELLO", b"HELLO", CaseFoldingEffect::Unchanged),
        ("işaret".as_bytes(), "IŞARET".as_bytes(), CaseFoldingEffect::Modified),
        ("你好".as_bytes(), "你好".as_bytes(), CaseFoldingEffect::Unchanged),
        ("αγαπώ".as_bytes(), "ΑΓΑΠΏ".as_bytes(), CaseFoldingEffect::Modified),
    ];
    for (input, expected, effect) in cases {
        run_test(to_utf8_uppercase, input, expected, effect);
    }
}

#[test]
fn test_to_utf8_uppercase_dz_digraph() {
    let cases: [(&[u8], &[u8], CaseFoldingEffect); 3] = [
        ("Ǆ".as_bytes(), "Ǆ".as_bytes(), CaseFoldingEffect::Unchanged),
        ("ǅ".as_bytes(), "Ǆ".as_bytes(), CaseFoldingEffect::Modified),
        ("ǆ".as_bytes(), "Ǆ".as_bytes(), CaseFoldingEffect::Modified),
    ];
    for (input, expected, effect) in cases {
        run_test(to_utf8_uppercase, input, expected, effect);
    }
}

#[test]
fn test_to_utf8_swapcase() {
    let cases: [(&[u8], &[u8], CaseFoldingEffect); 8] = [
        (b"", b"", CaseFoldingEffect::Unchanged),
        (b"hEllo", b"HeLLO", CaseFoldingEffect::Modified),
        (b"1234", b"1234", CaseFoldingEffect::Unchanged),
        ("ßTEST".as_bytes(), "SStest".as_bytes(), CaseFoldingEffect::Modified),
        (b"\xFFabc", b"\xFFABC", CaseFoldingEffect::Modified),
        ("iŞARET".as_bytes(), "Işaret".as_bytes(), CaseFoldingEffect::Modified),
        ("你好".as_bytes(), "你好".as_bytes(), CaseFoldingEffect::Unchanged),
        ("αγΑΠΏ".as_bytes(), "ΑΓαπώ".as_bytes(), CaseFoldingEffect::Modified),
    ];
    for (input, expected, effect) in cases {
        run_test(to_utf8_swapcase, input, expected, effect);
    }
}

#[test]
fn test_to_utf8_swapcase_dz_digraph() {
    let cases: [(&[u8], &[u8], CaseFoldingEffect); 4] = [
        ("Ǆ".as_bytes(), "ǆ".as_bytes(), CaseFoldingEffect::Modified),
        ("ǅ".as_bytes(), "dŽ".as_bytes(), CaseFoldingEffect::Modified),
        ("dŽ".as_bytes(), "Dž".as_bytes(), CaseFoldingEffect::Modified),
        ("ǆ".as_bytes(), "Ǆ".as_bytes(), CaseFoldingEffect::Modified),
    ];
    for (input, expected, effect) in cases {
        run_test(to_utf8_swapcase, input, expected, effect);
    }
}

#[test]
fn titlecase_digraphs_swap_letter_by_letter() {
    run_test(to_utf8_swapcase, "ǈ".as_bytes(), "lJ".as_bytes(), CaseFoldingEffect::Modified);
    run_test(to_utf8_swapcase, "ǋ".as_bytes(), "nJ".as_bytes(), CaseFoldingEffect::Modified);
    run_test(to_utf8_swapcase, "ǲ".as_bytes(), "dZ".as_bytes(), CaseFoldingEffect::Modified);
    run_test(to_utf8_swapcase, "xǅy".as_bytes(), "XdŽY".as_bytes(), CaseFoldingEffect::Modified);
}

#[test]
fn invalid_sequences_pass_through_whole() {
    // An incomplete three-byte sequence, a lone continuation byte, an
    // overlong lead and a truncated four-byte sequence are all copied.
    let input: &[u8] = b"\xE2\x98A\x80b\xC0c\xF0\x9F\x98";
    run_test(to_utf8_uppercase, input, b"\xE2\x98A\x80B\xC0C\xF0\x9F\x98", CaseFoldingEffect::Modified);
    run_test(to_utf8_lowercase, input, b"\xE2\x98a\x80b\xC0c\xF0\x9F\x98", CaseFoldingEffect::Modified);
}

#[test]
fn multibyte_mapping_is_encoded() {
    let mut out = b"x".to_vec();
    let effect = push_case_mapped(&mut out, 'ß', &vec!['S', 'S'], CaseFoldingEffect::Unchanged);
    assert_eq!(effect, CaseFoldingEffect::Modified);
    assert_eq!(out, b"xSS");
    let effect = push_case_mapped(&mut out, 'é', &vec!['é'], CaseFoldingEffect::Unchanged);
    assert_eq!(effect, CaseFoldingEffect::Unchanged);
    assert_eq!(out, "xSSé".as_bytes());
    let effect = push_case_mapped(&mut out, 'a', &vec!['a'], CaseFoldingEffect::Modified);
    assert_eq!(effect, CaseFoldingEffect::Modified);
    assert_eq!(out, "xSSéa".as_bytes());
}

#[test]
fn lowercase_of_lowercase_is_unchanged() {
    let (once, effect) = to_utf8_lowercase("ÀÉÎ Õ".as_bytes());
    assert_eq!(effect, CaseFoldingEffect::Modified);
    let (twice, effect) = to_utf8_lowercase(&once);
    assert_eq!(effect, CaseFoldingEffect::Unchanged);
    assert_eq!(once, twice);
    assert_eq!(twice, "àéî õ".as_bytes());
}

#[test]
fn valid_utf8_stays_valid() {
    let input = "Straße ǅ İstanbul ΣΑΣ".as_bytes();
    for f in [to_utf8_lowercase, to_utf8_uppercase, to_utf8_swapcase, to_utf8_capitalized] {
        let (out, _) = f(input);
        assert!(String::from_utf8(out).is_ok());
    }
}

#[test]
fn capitalize_distributes_over_a_valid_prefix() {
    let a = "héLLo ".as_bytes();
    let b: &[u8] = b"\xFFWoRLD\xC3";
    let mut whole = a.to_vec();
    whole.extend_from_slice(b);
    let (x, ex) = to_utf8_capitalized(a);
    let (y, ey) = to_utf8_lowercase(b);
    let (z, ez) = to_utf8_capitalized(&whole);
    let mut joined = x.clone();
    joined.extend_from_slice(&y);
    assert_eq!(z, joined);
    assert_eq!(z, b"H\xC3\xA9llo \xFFworld\xC3");
    assert_eq!(ex, CaseFoldingEffect::Modified);
    assert_eq!(ey, CaseFoldingEffect::Modified);
    assert_eq!(ez, CaseFoldingEffect::Modified);
}

#[test]
fn lowercase_distributes_over_a_valid_prefix() {
    let a = "abc".as_bytes();
    let b: &[u8] = b"\xE2\x98DEF";
    let mut whole = a.to_vec();
    whole.extend_from_slice(b);
    let (x, ex) = to_utf8_lowercase(a);
    let (y, ey) = to_utf8_lowercase(b);
    let (z, ez) = to_utf8_lowercase(&whole);
    let mut joined = x.clone();
    joined.extend_from_slice(&y);
    assert_eq!(z, joined);
    assert_eq!(ex, CaseFoldingEffect::Unchanged);
    assert_eq!(ey, CaseFoldingEffect::Modified);
    assert_eq!(ez, CaseFoldingEffect::Modified);
}

#[test]
fn ascii_input_agrees_with_the_byte_functions() {
    let inputs: [&[u8]; 6] = [b"", b"hello WORLD", b"Hello", b"1234 !?", b"aBcDeF", b"\x00\x7FzZ"];
    for input in inputs {
        let mut t = input.to_vec();
        let r = make_capitalized(&mut t);
        assert_eq!(to_utf8_capitalized(input), (t, r));
        let mut t = input.to_vec();
        let r = make_swapcase(&mut t);
        assert_eq!(to_utf8_swapcase(input), (t, r));
        let mut t = input.to_vec();
        let r = make_lowercase(&mut t);
        assert_eq!(to_utf8_lowercase(input), (t, r));
        let mut t = input.to_vec();
        let r = make_uppercase(&mut t);
        assert_eq!(to_utf8_uppercase(input), (t, r));
    }
}

#[test]
fn effect_is_modified_exactly_when_the_output_differs() {
    let inputs: [&str; 8] = ["", "abc", "ABC", "ß", "ǅ", "你好", "Ǆǅǆ", "i̇"];
    for input in inputs {
        let bytes = input.as_bytes();
        for f in [to_utf8_lowercase, to_utf8_uppercase, to_utf8_swapcase, to_utf8_capitalized] {
            let (out, effect) = f(bytes);
            assert_eq!(effect == CaseFoldingEffect::Modified, out != bytes, "{:?}", input);
        }
    }
}

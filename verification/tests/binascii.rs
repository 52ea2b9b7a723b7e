use artichoke::case_folding::CaseFoldingEffect;
use artichoke::enc::binascii::{make_capitalized, make_lowercase, make_swapcase, make_uppercase};

fn run_test<F>(func: F, input: &[u8], expected: &[u8], expect_fold: CaseFoldingEffect)
where
    F: FnOnce(&mut [u8]) -> CaseFoldingEffect,
{
    let mut data = input.to_vec();
    let fold = func(&mut data);
    assert_eq!(fold, expect_fold, "CaseFoldingEffect mismatch on {:?}", input);
    assert_eq!(data.as_slice(), expected, "Result bytes mismatch on {:?}", input);
}

#[test]
fn test_make_capitalized() {
    let cases: [(&[u8], &[u8], CaseFoldingEffect); 7] = [
        (b"", b"", CaseFoldingEffect::Unchanged),
        (b"1234", b"1234", CaseFoldingEffect::Unchanged),
        (b" \t ", b" \t ", CaseFoldingEffect::Unchanged),
        (b"\x01\x02Hello", b"\x01\x02hello", CaseFoldingEffect::Modified),
        (b"\xFFabc", b"\xFFabc", CaseFoldingEffect::Unchanged),
        (b"hello world", b"Hello world", CaseFoldingEffect::Modified),
        (b"Hello", b"Hello", CaseFoldingEffect::Unchanged),
    ];
    for (input, expected, effect) in cases {
        run_test(make_capitalized, input, expected, effect);
    }
}

#[test]
fn test_make_lowercase() {
    let cases: [(&[u8], &[u8], CaseFoldingEffect); 9] = [
        (b"", b"", CaseFoldingEffect::Unchanged),
        (b"1234", b"1234", CaseFoldingEffect::Unchanged),
        (b"HELLO", b"hello", CaseFoldingEffect::Modified),
        (b"Hello1", b"hello1", CaseFoldingEffect::Modified),
        (b"   \t", b"   \t", CaseFoldingEffect::Unchanged),
        (b"\x80\x81HI", b"\x80\x81hi", CaseFoldingEffect::Modified),
        (
            b"\xce\x93\xce\xb5\xce\xb9\xce\xac",
            b"\xce\x93\xce\xb5\xce\xb9\xce\xac",
            CaseFoldingEffect::Unchanged,
        ),
        (b"\xc4\xb0 \xc4\xb1", b"\xc4\xb0 \xc4\xb1", CaseFoldingEffect::Unchanged),
        (
            b"\xe4\xbd\xa0\xe5\xa5\xbd",
            b"\xe4\xbd\xa0\xe5\xa5\xbd",
            CaseFoldingEffect::Unchanged,
        ),
    ];
    for (input, expected, effect) in cases {
        run_test(make_lowercase, input, expected, effect);
    }
}

#[test]
fn test_make_uppercase() {
    let cases: [(&[u8], &[u8], CaseFoldingEffect); 9] = [
        (b"", b"", CaseFoldingEffect::Unchanged),
        (b"1234", b"1234", CaseFoldingEffect::Unchanged),
        (b"hello", b"HELLO", CaseFoldingEffect::Modified),
        (b"hEllo2", b"HELLO2", CaseFoldingEffect::Modified),
        (b"   \t", b"   \t", CaseFoldingEffect::Unchanged),
        (b"\x80\x81hi", b"\x80\x81HI", CaseFoldingEffect::Modified),
        (
            b"\xce\x93\xce\xb5\xce\xb9\xce\xac",
            b"\xce\x93\xce\xb5\xce\xb9\xce\xac",
            CaseFoldingEffect::Unchanged,
        ),
        (b"\xc4\xb0 \xc4\xb1", b"\xc4\xb0 \xc4\xb1", CaseFoldingEffect::Unchanged),
        (
            b"\xe4\xbd\xa0\xe5\xa5\xbd",
            b"\xe4\xbd\xa0\xe5\xa5\xbd",
            CaseFoldingEffect::Unchanged,
        ),
    ];
    for (input, expected, effect) in cases {
        run_test(make_uppercase, input, expected, effect);
    }
}

#[test]
fn test_make_swapcase() {
    let cases: [(&[u8], &[u8], CaseFoldingEffect); 10] = [
        (b"", b"", CaseFoldingEffect::Unchanged),
        (b"123", b"123", CaseFoldingEffect::Unchanged),
        (b"hEllO", b"HeLLo", CaseFoldingEffect::Modified),
        (b"HELLO", b"hello", CaseFoldingEffect::Modified),
        (b"hello", b"HELLO", CaseFoldingEffect::Modified),
        (b"   \t", b"   \t", CaseFoldingEffect::Unchanged),
        (b"\xffAB", b"\xffab", CaseFoldingEffect::Modified),
        (
            b"\xce\x93\xce\xb5\xce\xb9\xce\xac",
            b"\xce\x93\xce\xb5\xce\xb9\xce\xac",
            CaseFoldingEffect::Unchanged,
        ),
        (b"\xc4\xb0 \xc4\xb1", b"\xc4\xb0 \xc4\xb1", CaseFoldingEffect::Unchanged),
        (
            b"\xe4\xbd\xa0\xe5\xa5\xbd",
            b"\xe4\xbd\xa0\xe5\xa5\xbd",
            CaseFoldingEffect::Unchanged,
        ),
    ];
    for (input, expected, effect) in cases {
        run_test(make_swapcase, input, expected, effect);
    }
}

#[test]
fn changed_reports_modified_only() {
    assert!(CaseFoldingEffect::Modified.changed());
    assert!(!CaseFoldingEffect::Unchanged.changed());
}

#[test]
fn lowercase_twice_is_unchanged_the_second_time() {
    let mut data = b"MiXeD 123".to_vec();
    assert_eq!(make_lowercase(&mut data), CaseFoldingEffect::Modified);
    let first = data.clone();
    assert_eq!(make_lowercase(&mut data), CaseFoldingEffect::Unchanged);
    assert_eq!(data, first);
    assert_eq!(data, b"mixed 123");
}

#[test]
fn uppercase_twice_is_unchanged_the_second_time() {
    let mut data = b"MiXeD 123".to_vec();
    assert_eq!(make_uppercase(&mut data), CaseFoldingEffect::Modified);
    assert_eq!(make_uppercase(&mut data), CaseFoldingEffect::Unchanged);
    assert_eq!(data, b"MIXED 123");
}

#[test]
fn capitalized_twice_is_unchanged_the_second_time() {
    let mut data = b"mIXED".to_vec();
    assert_eq!(make_capitalized(&mut data), CaseFoldingEffect::Modified);
    assert_eq!(data, b"Mixed");
    assert_eq!(make_capitalized(&mut data), CaseFoldingEffect::Unchanged);
    assert_eq!(data, b"Mixed");
}

#[test]
fn swapcase_twice_restores_the_input() {
    let mut data = b"aZ@[`{\xC1".to_vec();
    assert_eq!(make_swapcase(&mut data), CaseFoldingEffect::Modified);
    assert_eq!(data, b"Az@[`{\xC1");
    assert_eq!(make_swapcase(&mut data), CaseFoldingEffect::Modified);
    assert_eq!(data, b"aZ@[`{\xC1");
}

#[test]
fn boundary_bytes_around_letters_are_kept() {
    let mut data = b"@[`{AZaz".to_vec();
    assert_eq!(make_lowercase(&mut data), CaseFoldingEffect::Modified);
    assert_eq!(data, b"@[`{azaz");
    let mut data = b"@[`{AZaz".to_vec();
    assert_eq!(make_uppercase(&mut data), CaseFoldingEffect::Modified);
    assert_eq!(data, b"@[`{AZAZ");
}

#[test]
fn capitalized_first_byte_change_lowercases_the_rest() {
    let mut data = b"aBC".to_vec();
    assert_eq!(make_capitalized(&mut data), CaseFoldingEffect::Modified);
    assert_eq!(data, b"Abc");
    let mut data = b"A".to_vec();
    assert_eq!(make_capitalized(&mut data), CaseFoldingEffect::Unchanged);
    let mut data = b"aBC".to_vec();
    assert_eq!(make_capitalized(&mut data[1..]), CaseFoldingEffect::Modified);
    assert_eq!(data, b"aBc");
}

#[test]
fn last_case_change_wins() {
    let mut data = b"Hello, World!".to_vec();
    make_uppercase(&mut data);
    make_lowercase(&mut data);
    assert_eq!(data, b"hello, world!");
    let mut data = b"Hello, World!".to_vec();
    make_swapcase(&mut data);
    make_uppercase(&mut data);
    assert_eq!(data, b"HELLO, WORLD!");
}


use artichoke::convert::{
    Convert, TryConvert, TryConvertInto, TryConvertIntoMut, TryConvertIntoRef, TryConvertMut,
};
use artichoke::error::UnboxRubyError;
use artichoke::interpreter::interpreter;
use artichoke::value::{Ruby, Rust, Value};

#[test]
fn convert_option_value_some_returns_the_inner_value() {
    let interp = interpreter();
    let inner = interp.convert(42_i64);
    let value = interp.convert(Some(inner));
    // Ensure the converted value is not nil.
    assert!(!value.is_nil());
    // Roundtrip: convert back to i64.
    let num = i64::try_convert_into(&interp, value).unwrap();
    assert_eq!(num, 42);
}

#[test]
fn convert_option_value_none_returns_nil() {
    let interp = interpreter();
    let value = interp.convert(None::<Value>);
    assert!(value.is_nil());
}

#[test]
fn convert_value_to_option_value_non_nil_returns_some() {
    let interp = interpreter();
    let value = interp.convert(789_i64);
    let opt: Option<Value> = interp.convert(value);
    assert!(opt.is_some());
    let num = i64::try_convert_into(&interp, opt.unwrap()).unwrap();
    assert_eq!(num, 789);
}

#[test]
fn convert_value_to_option_value_nil_returns_none() {
    let interp = interpreter();
    let nil_value = Value::nil();
    let opt: Option<Value> = interp.convert(nil_value);
    assert!(opt.is_none());
}

#[test]
fn convert_option_i64_some_converts_to_fixnum() {
    let interp = interpreter();
    let value = interp.convert(Some(123_i64));
    let num = i64::try_convert_into(&interp, value).unwrap();
    assert_eq!(num, 123);
}

#[test]
fn convert_option_i64_none_converts_to_nil() {
    let interp = interpreter();
    let value = interp.convert(None::<i64>);
    assert!(value.is_nil());
}

#[test]
fn try_convert_option_usize_some_converts_to_fixnum() {
    let interp = interpreter();
    let value = interp.try_convert(Some(456_usize)).unwrap();
    let num: usize = usize::try_convert_into(&interp, value).unwrap();
    assert_eq!(num, 456);
}

#[test]
fn try_convert_option_usize_none_converts_to_nil() {
    let interp = interpreter();
    let value = interp.try_convert(None::<usize>).unwrap();
    assert!(value.is_nil());
}

#[test]
fn try_convert_mut_option_vec_u8_some_converts_to_string() {
    let mut interp = interpreter();
    let input = b"hello".to_vec();
    let value = interp.try_convert_mut(Some(input.clone())).unwrap();
    // Convert the resulting Ruby value back to String.
    let result = Option::<String>::try_convert_into_mut(&mut interp, value).unwrap();
    assert_eq!(result, Some(String::from("hello")));
}

#[test]
fn try_convert_mut_option_vec_u8_none_converts_to_nil() {
    let mut interp = interpreter();
    let value = interp.try_convert_mut(None::<Vec<u8>>).unwrap();
    assert!(value.is_nil());
}

#[test]
fn try_convert_mut_option_slice_u8_some_converts_to_string() {
    let mut interp = interpreter();
    let input: &[u8] = b"world";
    let value = interp.try_convert_mut(Some(input)).unwrap();
    let result = Option::<String>::try_convert_into_mut(&mut interp, value).unwrap();
    assert_eq!(result, Some(String::from("world")));
}

#[test]
fn try_convert_mut_option_slice_u8_none_converts_to_nil() {
    let mut interp = interpreter();
    let value = interp.try_convert_mut(None::<&[u8]>).unwrap();
    assert!(value.is_nil());
}

#[test]
fn try_convert_mut_option_string_some_converts_to_string() {
    let mut interp = interpreter();
    let input = String::from("artichoke");
    let value = interp.try_convert_mut(Some(input.clone())).unwrap();
    let result = Option::<String>::try_convert_into_mut(&mut interp, value).unwrap();
    assert_eq!(result, Some(input));
}

#[test]
fn try_convert_mut_option_string_none_converts_to_nil() {
    let mut interp = interpreter();
    let value = interp.try_convert_mut(None::<String>).unwrap();
    assert!(value.is_nil());
}

#[test]
fn try_convert_mut_option_str_some_converts_to_string() {
    let mut interp = interpreter();
    let input = "convert me";
    let value = interp.try_convert_mut(Some(input)).unwrap();
    let result = Option::<String>::try_convert_into_mut(&mut interp, value).unwrap();
    assert_eq!(result, Some(input.to_owned()));
}

#[test]
fn try_convert_mut_option_str_none_converts_to_nil() {
    let mut interp = interpreter();
    let value = interp.try_convert_mut(None::<&str>).unwrap();
    assert!(value.is_nil());
}

#[test]
fn try_convert_mut_value_to_option_vec_u8_non_nil_returns_some() {
    let mut interp = interpreter();
    let value = interp.try_convert_mut("hello world").unwrap();
    let result = Option::<Vec<u8>>::try_convert_into_mut(&mut interp, value).unwrap();
    let s = String::from_utf8(result.unwrap()).unwrap();
    assert_eq!(s, "hello world");
}

#[test]
fn try_convert_mut_value_to_option_vec_u8_nil_returns_none() {
    let mut interp = interpreter();
    let value = Value::nil();
    let result = Option::<Vec<u8>>::try_convert_into_mut(&mut interp, value).unwrap();
    assert!(result.is_none());
}

#[test]
fn try_convert_mut_value_to_option_slice_u8_non_nil_returns_some() {
    let mut interp = interpreter();
    let value = interp.try_convert_mut("slice-test").unwrap();
    let result = Option::<&[u8]>::try_convert_into_ref(&mut interp, &value).unwrap();
    let s = String::from_utf8(result.unwrap().to_vec()).unwrap();
    assert_eq!(s, "slice-test");
}

#[test]
fn try_convert_mut_value_to_option_slice_u8_nil_returns_none() {
    let mut interp = interpreter();
    let value = Value::nil();
    let result = Option::<&[u8]>::try_convert_into_ref(&mut interp, &value).unwrap();
    assert!(result.is_none());
}

#[test]
fn try_convert_mut_value_to_option_string_non_nil_returns_some() {
    let mut interp = interpreter();
    let value = interp.try_convert_mut("string-test").unwrap();
    let result = Option::<String>::try_convert_into_mut(&mut interp, value).unwrap();
    assert_eq!(result, Some(String::from("string-test")));
}

#[test]
fn try_convert_mut_value_to_option_string_nil_returns_none() {
    let mut interp = interpreter();
    let value = Value::nil();
    let result = Option::<String>::try_convert_into_mut(&mut interp, value).unwrap();
    assert!(result.is_none());
}

#[test]
fn try_convert_mut_value_to_option_str_non_nil_returns_some() {
    let mut interp = interpreter();
    let value = interp.try_convert_mut("str-test").unwrap();
    let result = Option::<&str>::try_convert_into_ref(&mut interp, &value).unwrap();
    assert_eq!(result, Some("str-test"));
}

#[test]
fn try_convert_mut_value_to_option_str_nil_returns_none() {
    let mut interp = interpreter();
    let value = Value::nil();
    let result = Option::<&str>::try_convert_into_ref(&mut interp, &value).unwrap();
    assert!(result.is_none());
}

#[test]
fn try_convert_value_to_option_i64_non_nil_returns_some() {
    let interp = interpreter();
    let value = interp.convert(555i64);
    let result = Option::<i64>::try_convert_into(&interp, value).unwrap();
    assert_eq!(result, Some(555));
}

#[test]
fn try_convert_value_to_option_i64_nil_returns_none() {
    let interp = interpreter();
    let value = Value::nil();
    let result = Option::<i64>::try_convert_into(&interp, value).unwrap();
    assert!(result.is_none());
}

#[test]
fn invalid_utf8_string_value_is_refused_as_str() {
    let mut interp = interpreter();
    let value = interp.try_convert_mut(Some(&b"\xFFabc"[..])).unwrap();
    let result = Option::<&str>::try_convert_into_ref(&mut interp, &value);
    assert_eq!(result, Err(UnboxRubyError::new(Ruby::String, Rust::String)));
    let result = Option::<String>::try_convert_into_mut(&mut interp, value.clone());
    assert_eq!(result, Err(UnboxRubyError::new(Ruby::String, Rust::String)));
    let bytes = Option::<Vec<u8>>::try_convert_into_mut(&mut interp, value).unwrap();
    assert_eq!(bytes, Some(b"\xFFabc".to_vec()));
}

#[test]
fn non_string_values_are_refused_as_bytes() {
    let mut interp = interpreter();
    let value = interp.convert(Some(5_i64));
    let result = Option::<Vec<u8>>::try_convert_into_mut(&mut interp, value.clone());
    assert_eq!(result, Err(UnboxRubyError::new(Ruby::Fixnum, Rust::Bytes)));
    let result = Option::<&str>::try_convert_into_ref(&mut interp, &value);
    assert_eq!(result, Err(UnboxRubyError::new(Ruby::Fixnum, Rust::String)));
    let result = Option::<i64>::try_convert_into(&interp, interp.convert(true));
    assert_eq!(result, Err(UnboxRubyError::new(Ruby::Bool, Rust::SignedInt)));
}

#[test]
fn string_value_of_utf8_keeps_the_bytes() {
    let mut interp = interpreter();
    let value = interp.try_convert_mut("ß✓").unwrap();
    let bytes = <&[u8]>::try_convert_into_ref(&mut interp, &value).unwrap();
    assert_eq!(bytes, "ß✓".as_bytes());
    let s = <&str>::try_convert_into_ref(&mut interp, &value).unwrap();
    assert_eq!(s, "ß✓");
}

#[test]
fn mut_value_conversions_through_the_interpreter() {
    let mut interp = interpreter();
    let value = interp.try_convert_mut("abc").unwrap();
    let bytes: Vec<u8> = interp.try_convert_mut(value.clone()).unwrap();
    assert_eq!(bytes, b"abc");
    let s: String = interp.try_convert_mut(value.clone()).unwrap();
    assert_eq!(s, "abc");
    let o: Option<Vec<u8>> = interp.try_convert_mut(Value::nil()).unwrap();
    assert_eq!(o, None);
    let o: Option<String> = interp.try_convert_mut(value).unwrap();
    assert_eq!(o, Some(String::from("abc")));
    let e: Result<String, _> = interp.try_convert_mut(Value::Fixnum(1));
    assert_eq!(e, Err(UnboxRubyError::new(Ruby::Fixnum, Rust::String)));
}

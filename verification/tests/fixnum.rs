use artichoke::convert::{Convert, TryConvert, TryConvertInto};
use artichoke::error::{BoxIntoRubyError, Error, UnboxRubyError};
use artichoke::interpreter::{interpreter, Artichoke};
use artichoke::value::{Ruby, Rust, Value};

const SAMPLES: [i64; 9] = [i64::MIN, i64::MIN + 1, -4096, -1, 0, 1, 255, 1 << 40, i64::MAX];

#[test]
fn fail_convert() {
    let interp = interpreter();
    // get a Ruby value that can't be converted to a primitive type: the
    // value that `Object.new` evaluates to.
    let value = Value::Object;
    let result = i64::try_convert_into(&interp, value);
    assert!(result.is_err());
}

#[test]
fn prop_convert_to_fixnum() {
    let interp = interpreter();
    for i in SAMPLES {
        let value = interp.convert(i);
        assert_eq!(value.ruby_type(), Ruby::Fixnum);
    }
}

#[test]
fn prop_fixnum_with_value() {
    let interp = interpreter();
    for i in SAMPLES {
        let value = interp.convert(i);
        let Value::Fixnum(cint) = value else {
            panic!("not a fixnum");
        };
        assert_eq!(cint, i);
    }
}

#[test]
fn prop_roundtrip() {
    let interp = interpreter();
    for i in SAMPLES {
        let value = interp.convert(i);
        let value = TryConvert::<Value, i64>::try_convert(&interp, value).unwrap();
        assert_eq!(value, i);
    }
}

#[test]
fn prop_roundtrip_err() {
    let interp = interpreter();
    for b in [true, false] {
        let value = interp.convert(b);
        let value = i64::try_convert_into(&interp, value);
        assert!(value.is_err());
    }
}

#[test]
fn test_fixnum_to_usize() {
    let interp = interpreter();
    let value = Convert::<_, Value>::convert(&interp, 100);
    let value = usize::try_convert_into(&interp, value).unwrap();
    assert_eq!(100, value);
    let value = Convert::<_, Value>::convert(&interp, -100);
    let value = usize::try_convert_into(&interp, value);
    assert!(value.is_err());
}

#[test]
fn unsigned_beyond_fixnum_range_is_refused() {
    let interp = Artichoke::new();
    let too_big = (i64::MAX as u64) + 1;
    let err = TryConvert::<u64, Value>::try_convert(&interp, too_big).unwrap_err();
    assert_eq!(err, BoxIntoRubyError::new(Rust::UnsignedInt, Ruby::Fixnum));
    let max = TryConvert::<u64, Value>::try_convert(&interp, i64::MAX as u64).unwrap();
    assert_eq!(i64::try_convert_into(&interp, max), Ok(i64::MAX));
    let err = TryConvert::<usize, Value>::try_convert(&interp, usize::MAX);
    assert_eq!(err.unwrap_err(), BoxIntoRubyError::new(Rust::UnsignedInt, Ruby::Fixnum));
    let fits = TryConvert::<isize, Value>::try_convert(&interp, isize::MIN).unwrap();
    assert_eq!(i64::try_convert_into(&interp, fits), Ok(isize::MIN as i64));
}

#[test]
fn u32_conversion_checks_the_range() {
    let interp = interpreter();
    let ok = u32::try_convert_into(&interp, interp.convert(u32::MAX));
    assert_eq!(ok, Ok(u32::MAX));
    let err = u32::try_convert_into(&interp, interp.convert(i64::from(u32::MAX) + 1));
    assert_eq!(err, Err(UnboxRubyError::new(Ruby::Fixnum, Rust::UnsignedInt)));
    let err = u32::try_convert_into(&interp, interp.convert(-1_i8));
    assert_eq!(err, Err(UnboxRubyError::new(Ruby::Fixnum, Rust::UnsignedInt)));
    let err = u32::try_convert_into(&interp, Value::nil());
    assert_eq!(err, Err(UnboxRubyError::new(Ruby::Nil, Rust::SignedInt)));
}

#[test]
fn small_integers_widen_into_fixnums() {
    let interp = interpreter();
    assert_eq!(i64::try_convert_into(&interp, interp.convert(200_u8)), Ok(200));
    assert_eq!(i64::try_convert_into(&interp, interp.convert(60000_u16)), Ok(60000));
    assert_eq!(i64::try_convert_into(&interp, interp.convert(-7_i16)), Ok(-7));
    assert_eq!(i64::try_convert_into(&interp, interp.convert(i32::MIN)), Ok(i32::MIN as i64));
    let err: Error = i64::try_convert_into(&interp, Value::String(b"1".to_vec())).unwrap_err();
    assert_eq!(err, UnboxRubyError::new(Ruby::String, Rust::SignedInt));
}

#[test]
fn value_conversions_through_the_interpreter() {
    let interp = interpreter();
    assert_eq!(TryConvert::<Value, u32>::try_convert(&interp, interp.convert(7_i64)), Ok(7));
    assert_eq!(TryConvert::<Value, usize>::try_convert(&interp, interp.convert(-7_i64)),
        Err(UnboxRubyError::new(Ruby::Fixnum, Rust::UnsignedInt)));
    assert_eq!(TryConvert::<Value, Option<i64>>::try_convert(&interp, Value::nil()), Ok(None));
    assert_eq!(TryConvert::<Value, i64>::try_convert(&interp, Value::Object),
        Err(UnboxRubyError::new(Ruby::Object, Rust::SignedInt)));
}

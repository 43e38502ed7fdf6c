use typed_input::{read_input_from, FromText, InputError, IntParseError, MemSource};

/// The decimal grammar accepts an optional sign.
#[test]
fn signed_values_parse_exactly() {
    let mut reader = MemSource::new("-42\n+7\n-0\n");
    let first: i32 = read_input_from(&mut reader, None).unwrap();
    assert_eq!(first, -42);
    let second: i32 = read_input_from(&mut reader, None).unwrap();
    assert_eq!(second, 7);
    let third: i32 = read_input_from(&mut reader, None).unwrap();
    assert_eq!(third, 0);
}

/// An unsigned target rejects a minus sign as an invalid digit.
#[test]
fn unsigned_rejects_minus() {
    let mut reader = MemSource::new("-1\n");
    let res: Result<u32, _> = read_input_from(&mut reader, None);
    assert!(matches!(
        res,
        Err(InputError::Parse(IntParseError::InvalidDigit))
    ));
}

/// A sign with no digits after it is an invalid digit, not an empty text.
#[test]
fn bare_sign_is_invalid_digit() {
    let mut reader = MemSource::new("+\n");
    let res: Result<u32, _> = read_input_from(&mut reader, None);
    assert!(matches!(
        res,
        Err(InputError::Parse(IntParseError::InvalidDigit))
    ));
}

/// The empty text is its own error kind.
#[test]
fn empty_text_error_kind() {
    assert_eq!(
        <i32 as FromText>::from_text(""),
        Err(IntParseError::Empty)
    );
    assert_eq!(
        <u64 as FromText>::from_text(""),
        Err(IntParseError::Empty)
    );
}

/// Values at the targets' bounds parse; one past them overflows.
#[test]
fn range_bounds_are_exact() {
    assert_eq!(<i32 as FromText>::from_text("2147483647"), Ok(i32::MAX));
    assert_eq!(<i32 as FromText>::from_text("-2147483648"), Ok(i32::MIN));
    assert_eq!(
        <i32 as FromText>::from_text("2147483648"),
        Err(IntParseError::Overflow)
    );
    assert_eq!(
        <i32 as FromText>::from_text("-2147483649"),
        Err(IntParseError::Overflow)
    );
    assert_eq!(<u32 as FromText>::from_text("4294967295"), Ok(u32::MAX));
    assert_eq!(
        <u32 as FromText>::from_text("4294967296"),
        Err(IntParseError::Overflow)
    );
    assert_eq!(
        <i64 as FromText>::from_text("9223372036854775807"),
        Ok(i64::MAX)
    );
    assert_eq!(
        <i64 as FromText>::from_text("-9223372036854775808"),
        Ok(i64::MIN)
    );
    assert_eq!(
        <i64 as FromText>::from_text("9223372036854775808"),
        Err(IntParseError::Overflow)
    );
    assert_eq!(
        <u64 as FromText>::from_text("18446744073709551615"),
        Ok(u64::MAX)
    );
    assert_eq!(
        <u64 as FromText>::from_text("18446744073709551616"),
        Err(IntParseError::Overflow)
    );
}

/// A value far beyond every accumulator still reports overflow, and digits
/// after the overflowing prefix still decide invalidity first.
#[test]
fn long_inputs_classify_correctly() {
    assert_eq!(
        <u64 as FromText>::from_text("999999999999999999999999999999"),
        Err(IntParseError::Overflow)
    );
    assert_eq!(
        <u64 as FromText>::from_text("999999999999999999999999999999x"),
        Err(IntParseError::InvalidDigit)
    );
}

/// Leading zeros are plain digits.
#[test]
fn leading_zeros_accepted() {
    assert_eq!(<u32 as FromText>::from_text("007"), Ok(7));
    assert_eq!(<i32 as FromText>::from_text("-007"), Ok(-7));
}

/// Interior whitespace or signs are invalid digits.
#[test]
fn interior_characters_rejected() {
    assert_eq!(
        <i32 as FromText>::from_text("1 2"),
        Err(IntParseError::InvalidDigit)
    );
    assert_eq!(
        <i32 as FromText>::from_text("1-2"),
        Err(IntParseError::InvalidDigit)
    );
    assert_eq!(
        <i32 as FromText>::from_text(" 42"),
        Err(IntParseError::InvalidDigit)
    );
}

/// A text target never fails: it hands the normalized line back whole.
#[test]
fn text_target_is_total() {
    assert_eq!(
        <String as FromText>::from_text("anything at all"),
        Ok(String::from("anything at all"))
    );
    assert_eq!(<String as FromText>::from_text(""), Ok(String::new()));
}

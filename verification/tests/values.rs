use checklist::decimal::{decimal_string, natural_string, parse_decimal};
use checklist::value::{Value, ValueKind};

#[test]
fn numbers_are_tagged_as_numbers() {
    assert!(Value::from(5u32).is_kind_of(ValueKind::Number));
    assert!(Value::from(-5).is_kind_of(ValueKind::Number));
    assert!(!Value::from(5u32).is_kind_of(ValueKind::Literal));
}

#[test]
fn texts_are_tagged_as_literals() {
    assert!(Value::from("5").is_kind_of(ValueKind::Literal));
    assert!(!Value::from("5").is_kind_of(ValueKind::Number));
    assert!(Value::from("").is_kind_of(ValueKind::Literal));
}

#[test]
fn numbers_keep_their_decimal_notation() {
    assert_eq!(Value::from(0u32).to_string(), "0");
    assert_eq!(Value::from(u32::MAX).to_string(), "4294967295");
    assert_eq!(Value::from(i32::MIN).to_string(), "-2147483648");
    assert_eq!(Value::from(i32::MAX).to_string(), "2147483647");
    assert_eq!(Value::from(-10).to_string(), "-10");
    assert_eq!(Value::from(1000).to_string(), "1000");
}

#[test]
fn texts_keep_their_text() {
    assert_eq!(Value::from("abc").to_string(), "abc");
    assert_eq!(Value::from("").to_string(), "");
    assert_eq!(Value::from("-0.5e3").to_string(), "-0.5e3");
}

#[test]
fn values_convert_into_strings() {
    let text: String = Value::from("abc").into();
    assert_eq!(text, "abc");
    let number = Value::from(42);
    let by_reference: String = (&number).into();
    assert_eq!(by_reference, "42");
    let owned: String = number.into();
    assert_eq!(owned, "42");
}

#[test]
fn values_compare_by_text_and_tag() {
    assert_eq!(Value::from(5), Value::from(5u32));
    assert_ne!(Value::from(5), Value::from("5"));
    assert_ne!(Value::from(5), Value::from(6));
    let value = Value::from("abc");
    assert_eq!(value.clone(), value);
}

#[test]
fn numbers_read_back_as_integers() {
    assert_eq!(Value::from(0).to_integer(), Some(0));
    assert_eq!(Value::from(-17).to_integer(), Some(-17));
    assert_eq!(Value::from(u32::MAX).to_integer(), Some(4294967295));
    assert_eq!(Value::from(i32::MIN).to_integer(), Some(-2147483648));
}

#[test]
fn the_tag_is_no_parse_guarantee() {
    assert_eq!(Value::from("12").to_integer(), Some(12));
    assert_eq!(Value::from("-12").to_integer(), Some(-12));
    assert_eq!(Value::from("abc").to_integer(), None);
    assert_eq!(Value::from("").to_integer(), None);
}

#[test]
fn decimal_notation_of_integers() {
    assert_eq!(natural_string(0), "0");
    assert_eq!(natural_string(9), "9");
    assert_eq!(natural_string(10), "10");
    assert_eq!(natural_string(u64::MAX), "18446744073709551615");
    assert_eq!(decimal_string(0), "0");
    assert_eq!(decimal_string(-1), "-1");
    assert_eq!(decimal_string(1234567890), "1234567890");
    assert_eq!(decimal_string(i64::MAX), "9223372036854775807");
    assert_eq!(decimal_string(i64::MIN), "-9223372036854775808");
}

#[test]
fn reading_decimal_notation() {
    assert_eq!(parse_decimal("0"), Some(0));
    assert_eq!(parse_decimal("-0"), Some(0));
    assert_eq!(parse_decimal("007"), Some(7));
    assert_eq!(parse_decimal("-45"), Some(-45));
    assert_eq!(parse_decimal("9223372036854775807"), Some(i64::MAX));
    assert_eq!(parse_decimal("-9223372036854775808"), Some(i64::MIN));
}

#[test]
fn reading_what_is_no_integer() {
    assert_eq!(parse_decimal(""), None);
    assert_eq!(parse_decimal("-"), None);
    assert_eq!(parse_decimal("+5"), None);
    assert_eq!(parse_decimal("--5"), None);
    assert_eq!(parse_decimal("5-"), None);
    assert_eq!(parse_decimal("1.5"), None);
    assert_eq!(parse_decimal("1e3"), None);
    assert_eq!(parse_decimal(" 1"), None);
    assert_eq!(parse_decimal("12a"), None);
    assert_eq!(parse_decimal("\u{0663}"), None);
}

#[test]
fn reading_what_does_not_fit() {
    assert_eq!(parse_decimal("9223372036854775808"), None);
    assert_eq!(parse_decimal("-9223372036854775809"), None);
    assert_eq!(parse_decimal("99999999999999999999999999"), None);
    assert_eq!(parse_decimal("-99999999999999999999999999"), None);
    assert_eq!(parse_decimal("92233720368547758070"), None);
    assert_eq!(parse_decimal("9223372036854775807x"), None);
}

#[test]
fn reading_gives_back_what_was_written() {
    let samples: [i64; 9] = [
        0,
        1,
        -1,
        9,
        10,
        -10,
        123456789,
        i64::MAX,
        i64::MIN,
    ];
    for n in samples {
        assert_eq!(parse_decimal(&decimal_string(n)), Some(n));
    }
}

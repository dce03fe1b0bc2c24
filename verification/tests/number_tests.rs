use bilog::number::parse_decimal;

#[test]
fn plain_numbers() {
    assert_eq!(parse_decimal("0", false, 0, 100), Some(0));
    assert_eq!(parse_decimal("42", false, 0, 100), Some(42));
    assert_eq!(parse_decimal("0042", false, 0, 100), Some(42));
    assert_eq!(parse_decimal("+42", false, 0, 100), Some(42));
    assert_eq!(parse_decimal("100", false, 0, 100), Some(100));
    assert_eq!(parse_decimal("101", false, 0, 100), None);
}

#[test]
fn signs() {
    assert_eq!(parse_decimal("-42", true, -100, 100), Some(-42));
    assert_eq!(parse_decimal("-42", false, -100, 100), None);
    assert_eq!(parse_decimal("-100", true, -100, 100), Some(-100));
    assert_eq!(parse_decimal("-101", true, -100, 100), None);
    assert_eq!(parse_decimal("+-1", true, -100, 100), None);
    assert_eq!(parse_decimal("--1", true, -100, 100), None);
    assert_eq!(parse_decimal("-0", true, -100, 100), Some(0));
}

#[test]
fn not_a_number() {
    assert_eq!(parse_decimal("", true, -100, 100), None);
    assert_eq!(parse_decimal("+", true, -100, 100), None);
    assert_eq!(parse_decimal("-", true, -100, 100), None);
    assert_eq!(parse_decimal("4 2", true, -100, 100), None);
    assert_eq!(parse_decimal(" 42", true, -100, 100), None);
    assert_eq!(parse_decimal("42a", true, -100, 100), None);
    assert_eq!(parse_decimal("4\u{0662}", true, -100, 100), None);
    assert_eq!(parse_decimal("\u{ff11}", true, -100, 100), None);
}

#[test]
fn full_range() {
    assert_eq!(
        parse_decimal("9223372036854775807", true, i64::MIN, i64::MAX),
        Some(i64::MAX)
    );
    assert_eq!(
        parse_decimal("-9223372036854775808", true, i64::MIN, i64::MAX),
        Some(i64::MIN)
    );
    assert_eq!(parse_decimal("9223372036854775808", true, i64::MIN, i64::MAX), None);
    assert_eq!(parse_decimal("-9223372036854775809", true, i64::MIN, i64::MAX), None);
    assert_eq!(
        parse_decimal("99999999999999999999999999999999999999999999", true, i64::MIN, i64::MAX),
        None
    );
    assert_eq!(
        parse_decimal("00000000000000000000000000000000000000000007", true, i64::MIN, i64::MAX),
        Some(7)
    );
}

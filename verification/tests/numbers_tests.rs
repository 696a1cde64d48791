use distributed_calculator::numbers::parse_u8;
use distributed_calculator::numbers::u8_to_dec;
use distributed_calculator::numbers::usize_to_dec;
use distributed_calculator::numbers::NumError;

#[test]
fn parse_u8_accepts_plain_and_signed_digits() {
    assert_eq!(parse_u8("0"), Ok(0));
    assert_eq!(parse_u8("42"), Ok(42));
    assert_eq!(parse_u8("255"), Ok(255));
    assert_eq!(parse_u8("+7"), Ok(7));
    assert_eq!(parse_u8("007"), Ok(7));
}

#[test]
fn parse_u8_rejects_the_empty_string() {
    assert_eq!(parse_u8(""), Err(NumError::Empty));
}

#[test]
fn parse_u8_rejects_non_digits() {
    assert_eq!(parse_u8("ten"), Err(NumError::InvalidDigit));
    assert_eq!(parse_u8("+"), Err(NumError::InvalidDigit));
    assert_eq!(parse_u8("-1"), Err(NumError::InvalidDigit));
    assert_eq!(parse_u8("1 2"), Err(NumError::InvalidDigit));
}

#[test]
fn parse_u8_rejects_numbers_above_the_range() {
    assert_eq!(parse_u8("256"), Err(NumError::TooLarge));
    assert_eq!(parse_u8("300"), Err(NumError::TooLarge));
    assert_eq!(parse_u8("999999"), Err(NumError::TooLarge));
}

#[test]
fn decimal_rendering_matches_expected_text() {
    assert_eq!(u8_to_dec(0), "0");
    assert_eq!(u8_to_dec(9), "9");
    assert_eq!(u8_to_dec(10), "10");
    assert_eq!(u8_to_dec(255), "255");
    assert_eq!(usize_to_dec(1000), "1000");
}

#[test]
fn parse_of_rendering_is_identity() {
    let values: Vec<u8> = vec![0, 1, 9, 10, 99, 100, 200, 255];
    for v in values {
        assert_eq!(parse_u8(&u8_to_dec(v)), Ok(v));
    }
}

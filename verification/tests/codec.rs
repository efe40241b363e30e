use txprobe::codec::{
    format_address, format_address_short, parse_address, parse_amount, Address, ParseError,
    NATIVE_DECIMALS,
};

#[test]
fn parse_amount_thousandth() {
    assert_eq!(parse_amount("0.001", NATIVE_DECIMALS), Ok(1_000_000_000_000_000u128));
}

#[test]
fn parse_amount_one() {
    assert_eq!(parse_amount("1", NATIVE_DECIMALS), Ok(1_000_000_000_000_000_000u128));
}

#[test]
fn parse_amount_nineteen_fractional_digits() {
    assert_eq!(
        parse_amount("0.0000000000000000001", NATIVE_DECIMALS),
        Err(ParseError::TooManyFractionalDigits)
    );
}

#[test]
fn parse_amount_eighteen_fractional_digits() {
    assert_eq!(parse_amount("0.000000000000000001", NATIVE_DECIMALS), Ok(1u128));
}

#[test]
fn parse_amount_mixed_parts() {
    assert_eq!(parse_amount("12.5", 3), Ok(12_500u128));
}

#[test]
fn parse_amount_zero() {
    assert_eq!(parse_amount("0.000", NATIVE_DECIMALS), Ok(0u128));
}

#[test]
fn parse_amount_rejects_empty() {
    assert_eq!(parse_amount("", NATIVE_DECIMALS), Err(ParseError::NotNumeric));
}

#[test]
fn parse_amount_rejects_letters() {
    assert_eq!(parse_amount("12a", NATIVE_DECIMALS), Err(ParseError::NotNumeric));
}

#[test]
fn parse_amount_rejects_bare_dot_parts() {
    assert_eq!(parse_amount("1.", NATIVE_DECIMALS), Err(ParseError::NotNumeric));
    assert_eq!(parse_amount(".5", NATIVE_DECIMALS), Err(ParseError::NotNumeric));
    assert_eq!(parse_amount("1..2", NATIVE_DECIMALS), Err(ParseError::NotNumeric));
}

#[test]
fn parse_amount_rejects_oversized_value() {
    // one more than the largest 128-bit value, with no scaling
    assert_eq!(
        parse_amount("340282366920938463463374607431768211456", 0),
        Err(ParseError::AmountTooLarge)
    );
    // a modest amount pushed out of range by the unit's exponent
    assert_eq!(parse_amount("1000000000000000000000", NATIVE_DECIMALS), Err(ParseError::AmountTooLarge));
}

#[test]
fn parse_amount_without_scaling() {
    assert_eq!(parse_amount("7", 0), Ok(7u128));
}

#[test]
fn parse_address_lowercase() {
    let a = parse_address("0x00000000000000000000000000000000000000ff").unwrap();
    assert_eq!(a.as_bytes().len(), 20);
    assert_eq!(a.as_bytes()[19], 0xff);
    assert_eq!(a.as_bytes()[0], 0);
}

#[test]
fn parse_address_checksummed_case() {
    let a = parse_address("0xAbCdEf0123456789aBcDeF0123456789abcdef01").unwrap();
    assert_eq!(a.as_bytes()[0], 0xab);
    assert_eq!(a.as_bytes()[2], 0xef);
}

#[test]
fn parse_address_without_prefix() {
    let a = parse_address("1111111111111111111111111111111111111111").unwrap();
    assert_eq!(a.as_bytes()[7], 0x11);
}

#[test]
fn parse_address_rejects_short_input() {
    assert_eq!(parse_address("0x1234").unwrap_err(), ParseError::BadLength);
}

#[test]
fn parse_address_rejects_long_input() {
    assert_eq!(
        parse_address("0x00000000000000000000000000000000000000ff00").unwrap_err(),
        ParseError::BadLength
    );
}

#[test]
fn parse_address_rejects_non_hex() {
    assert_eq!(
        parse_address("0x00000000000000000000000000000000000000gg").unwrap_err(),
        ParseError::BadHexDigit
    );
}

#[test]
fn format_address_round_trip() {
    let text = "0xabcdef0123456789abcdef0123456789abcdef01";
    let a = parse_address(text).unwrap();
    assert_eq!(format_address(&a), text);
}

#[test]
fn format_address_short_keeps_ends() {
    let a = parse_address("0x1234567890abcdef1234567890abcdef12345678").unwrap();
    let short = format_address_short(&a);
    assert_eq!(short, "0x12345678…5678");
    assert_eq!(short.chars().count(), 15);
}

#[test]
fn format_address_short_uniform_bytes() {
    let a = Address::from_bytes(vec![0x12u8; 20]).unwrap();
    assert_eq!(format_address_short(&a), "0x12121212…1212");
}

#[test]
fn address_from_bytes_checks_length() {
    assert!(Address::from_bytes(vec![0u8; 19]).is_none());
    assert!(Address::from_bytes(vec![0u8; 21]).is_none());
    assert!(Address::from_bytes(vec![0u8; 20]).is_some());
}

#[test]
fn address_dup_preserves_bytes() {
    let a = Address::from_bytes((0u8..20).collect()).unwrap();
    let b = a.dup();
    assert_eq!(a.as_bytes(), b.as_bytes());
}

use xc_fetch::ids::{parse_decimal, parse_xc_number, ParseError};

#[test]
fn plain_prefixed_and_url_forms_agree() {
    assert_eq!(parse_xc_number("928094"), Ok(928094));
    assert_eq!(parse_xc_number("XC928094"), Ok(928094));
    assert_eq!(parse_xc_number("https://xeno-canto.org/928094"), Ok(928094));
    assert_eq!(parse_xc_number("https://www.xeno-canto.org/928094/"), Ok(928094));
}

#[test]
fn prefix_in_any_letter_case() {
    assert_eq!(parse_xc_number("xc928094"), Ok(928094));
    assert_eq!(parse_xc_number("Xc12"), Ok(12));
    assert_eq!(parse_xc_number("xC12"), Ok(12));
}

#[test]
fn url_without_scheme_or_with_http() {
    assert_eq!(parse_xc_number("xeno-canto.org/42"), Ok(42));
    assert_eq!(parse_xc_number("www.xeno-canto.org/42"), Ok(42));
    assert_eq!(parse_xc_number("http://xeno-canto.org/42"), Ok(42));
    assert_eq!(parse_xc_number("http://www.xeno-canto.org/42//"), Ok(42));
}

#[test]
fn surrounding_whitespace_is_ignored() {
    assert_eq!(parse_xc_number("  928094\n"), Ok(928094));
    assert_eq!(parse_xc_number("\tXC7 "), Ok(7));
}

#[test]
fn malformed_identifiers_are_rejected() {
    for s in ["", "abc", "XC", "https://example.com/928094", "XC12a", "12 34", "https://xeno-canto.org/"] {
        assert_eq!(parse_xc_number(s), Err(ParseError::Unrecognized(s.to_string())));
    }
}

#[test]
fn unrecognized_keeps_the_input_as_given() {
    assert_eq!(parse_xc_number("  abc "), Err(ParseError::Unrecognized("  abc ".to_string())));
}

#[test]
fn numbers_beyond_u64_overflow() {
    assert_eq!(parse_xc_number("18446744073709551615"), Ok(u64::MAX));
    assert_eq!(parse_xc_number("18446744073709551616"), Err(ParseError::Overflow));
    assert_eq!(parse_xc_number("XC99999999999999999999"), Err(ParseError::Overflow));
    assert_eq!(
        parse_xc_number("https://xeno-canto.org/99999999999999999999"),
        Err(ParseError::Overflow)
    );
}

#[test]
fn zero_and_leading_zeros() {
    assert_eq!(parse_xc_number("0"), Ok(0));
    assert_eq!(parse_xc_number("XC007"), Ok(7));
}

#[test]
fn decimal_reading() {
    assert_eq!(parse_decimal("48000"), Some(48000));
    assert_eq!(parse_decimal(""), None);
    assert_eq!(parse_decimal("44.1"), None);
    assert_eq!(parse_decimal(" 1"), None);
}

#[test]
fn a_second_scheme_is_not_the_provider_host() {
    let s = "https://http://xeno-canto.org/928094";
    assert_eq!(parse_xc_number(s), Err(ParseError::Unrecognized(s.to_string())));
    let s = "http://https://www.xeno-canto.org/5";
    assert_eq!(parse_xc_number(s), Err(ParseError::Unrecognized(s.to_string())));
}

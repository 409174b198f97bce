use doc_fn::decimal::{decimal_string, parse_u64, IntErrorKind};
use doc_fn::http::{u64_from_str, StringOrU64};
use std::num::IntErrorKind as StdKind;

fn std_parse(s: &str) -> Result<u64, IntErrorKind> {
    s.parse::<u64>().map_err(|e| match e.kind() {
        StdKind::Empty => IntErrorKind::Empty,
        StdKind::InvalidDigit => IntErrorKind::InvalidDigit,
        StdKind::PosOverflow => IntErrorKind::PosOverflow,
        other => panic!("unexpected kind {other:?}"),
    })
}

const CASES: &[&str] = &[
    "", "+", "-", "0", "+0", "-0", "00012", "+5", "++5", "5+", " 5", "5 ", "12a", "a12", "3600",
    "18446744073709551615", "+18446744073709551615", "18446744073709551616",
    "99999999999999999999", "99999999999999999999a", "1844674407370955161a", "١٢", "1٢",
    "0x10", "1_000", "1e3",
];

#[test]
fn parse_agrees_with_std() {
    for s in CASES {
        assert_eq!(parse_u64(s), std_parse(s), "input {s:?}");
    }
}

#[test]
fn parse_error_kinds() {
    assert_eq!(parse_u64(""), Err(IntErrorKind::Empty));
    assert_eq!(parse_u64("+"), Err(IntErrorKind::InvalidDigit));
    assert_eq!(parse_u64("-1"), Err(IntErrorKind::InvalidDigit));
    assert_eq!(parse_u64("18446744073709551616"), Err(IntErrorKind::PosOverflow));
    assert_eq!(parse_u64("99999999999999999999a"), Err(IntErrorKind::PosOverflow));
    assert_eq!(parse_u64("+42"), Ok(42));
}

#[test]
fn parse_reads_back_decimal_text() {
    for n in [0u64, 1, 9, 10, 99, 100, 3599, 3600, 86399, 1 << 40, u64::MAX - 1, u64::MAX] {
        assert_eq!(parse_u64(&decimal_string(n)), Ok(n));
    }
}

#[test]
fn error_messages_are_those_of_std() {
    for s in ["", "x", "18446744073709551616"] {
        let std_message = s.parse::<u64>().unwrap_err().to_string();
        let kind = parse_u64(s).unwrap_err();
        assert_eq!(kind.message(), std_message);
    }
}

#[test]
fn number_or_string() {
    assert_eq!(u64_from_str(&StringOrU64::Number(3599)), Ok(3599));
    assert_eq!(u64_from_str(&StringOrU64::Text("3599".to_string())), Ok(3599));
    assert_eq!(u64_from_str(&StringOrU64::Text("1721000000".to_string())), Ok(1721000000));
    assert_eq!(u64_from_str(&StringOrU64::Text("soon".to_string())), Err(IntErrorKind::InvalidDigit));
    assert_eq!(u64_from_str(&StringOrU64::Text(String::new())), Err(IntErrorKind::Empty));
}

//! Tests of stored-timestamp parsing.

use garden_core::datetime::InvalidDatetime;
use garden_core::datetime::parse_datetime;

#[test]
fn parse_valid_datetime() {
    let result = parse_datetime("2024-01-15T10:30:00Z", "test_field");
    assert!(result.is_ok());
    // 2024-01-15 10:30:00 UTC in milliseconds since the epoch.
    assert_eq!(result.unwrap(), 1705314600000);
}

#[test]
fn parse_datetime_with_offset() {
    let result = parse_datetime("2024-01-15T10:30:00+05:00", "test_field");
    assert!(result.is_ok());
    // The offset is folded into the UTC instant.
    assert_eq!(result.unwrap(), 1705296600000);
}

#[test]
fn parse_invalid_datetime() {
    let result = parse_datetime("not-a-date", "test_field");
    assert!(result.is_err());
    match result {
        Err(InvalidDatetime { field, value }) => {
            assert_eq!(field, "test_field");
            assert_eq!(value, "not-a-date");
        }
        _ => panic!("expected InvalidDatetime"),
    }
}

//! Direct tests of the cell-level parsers.

use kusto_columnar::datetime::parse_datetime;
use kusto_columnar::ints::{parse_int32_token, parse_int_token};
use kusto_columnar::timespan::parse_timespan;

#[test]
fn int_tokens() {
    assert_eq!(parse_int_token("0"), Some(0));
    assert_eq!(parse_int_token("-0"), Some(0));
    assert_eq!(parse_int_token("007"), Some(7));
    assert_eq!(parse_int_token("123456789012345"), Some(123456789012345));
    assert_eq!(parse_int_token("-9223372036854775808"), Some(i64::MIN));
    assert_eq!(parse_int_token("9223372036854775807"), Some(i64::MAX));
    assert_eq!(parse_int_token("9223372036854775808"), None);
    assert_eq!(parse_int_token("-9223372036854775809"), None);
    assert_eq!(parse_int_token("99999999999999999999999999"), None);
    assert_eq!(parse_int_token(""), None);
    assert_eq!(parse_int_token("-"), None);
    assert_eq!(parse_int_token("1.0"), None);
    assert_eq!(parse_int_token("1e3"), None);
    assert_eq!(parse_int_token("abc"), None);
    assert_eq!(parse_int32_token("2147483647"), Some(i32::MAX));
    assert_eq!(parse_int32_token("-2147483648"), Some(i32::MIN));
    assert_eq!(parse_int32_token("2147483648"), None);
    assert_eq!(parse_int32_token("-2147483649"), None);
}

#[test]
fn datetime_strings() {
    assert_eq!(parse_datetime("1970-01-01T00:00:00Z"), Some(0));
    assert_eq!(parse_datetime("1970-01-01T00:00:00.5Z"), Some(500_000_000));
    assert_eq!(
        parse_datetime("2023-03-04T05:06:07.123456789Z"),
        Some(1677906367123456789)
    );
    // leap-year day exists in 2024 but not 2023
    assert_eq!(parse_datetime("2024-02-29T00:00:00Z"), Some(1709164800000000000));
    assert_eq!(parse_datetime("2023-02-29T00:00:00Z"), None);
    // shape violations
    assert_eq!(parse_datetime("not-a-date"), None);
    assert_eq!(parse_datetime("1970-01-01T00:00:00"), None);
    assert_eq!(parse_datetime("1970-01-01 00:00:00Z"), None);
    assert_eq!(parse_datetime("1970-13-01T00:00:00Z"), None);
    assert_eq!(parse_datetime("1970-00-01T00:00:00Z"), None);
    assert_eq!(parse_datetime("1970-01-01T24:00:00Z"), None);
    assert_eq!(parse_datetime("1970-01-01T00:00:00.Z"), None);
    assert_eq!(parse_datetime("1970-01-01T00:00:00.0123456789Z"), None);
    // outside the 64-bit nanosecond range
    assert_eq!(parse_datetime("2263-01-01T00:00:00Z"), None);
    assert_eq!(parse_datetime("1600-01-01T00:00:00Z"), None);
}

#[test]
fn timespan_strings() {
    assert_eq!(parse_timespan("00:00:00"), Some(0));
    assert_eq!(parse_timespan("00:00:01"), Some(1_000_000_000));
    assert_eq!(parse_timespan("-00:00:01"), Some(-1_000_000_000));
    assert_eq!(parse_timespan("01:23:45.6780000"), Some(5025678000000));
    assert_eq!(parse_timespan("1.00:00:00"), Some(86400000000000));
    assert_eq!(parse_timespan("-1.00:00:00"), Some(-86400000000000));
    assert_eq!(parse_timespan("3.04:05:06.007"), Some(273906007000000));
    // shape violations
    assert_eq!(parse_timespan(""), None);
    assert_eq!(parse_timespan("bad"), None);
    assert_eq!(parse_timespan("1:00:00"), None);
    assert_eq!(parse_timespan("25:00:00"), None);
    assert_eq!(parse_timespan("00:60:00"), None);
    assert_eq!(parse_timespan("00:00:60"), None);
    assert_eq!(parse_timespan("123:00:00"), None);
    assert_eq!(parse_timespan("1.00:00:00.0123456789"), None);
    // outside the 64-bit nanosecond range
    assert_eq!(parse_timespan("200001.00:00:00"), None);
    assert_eq!(parse_timespan("106752.00:00:00"), None);
    // the largest representable magnitudes
    assert_eq!(parse_timespan("106751.23:47:16.854775807"), Some(i64::MAX));
    assert_eq!(parse_timespan("-106751.23:47:16.854775808"), Some(i64::MIN));
    assert_eq!(parse_timespan("106751.23:47:16.854775808"), None);
}

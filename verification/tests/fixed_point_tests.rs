//! Parsing and formatting of fixed-point decimals.

use rangebar::fixed_point::{FixedPoint, ParseError, FIXED_POINT_SCALE};

#[test]
fn test_types_export() {
    // Test that we can create and use exported types
    let fp = FixedPoint::from_str("123.456").unwrap();
    assert_eq!(fp.to_string(), "123.45600000");
}

#[test]
fn parse_preserves_eight_decimals() {
    assert_eq!(FixedPoint::from_str("123.456").unwrap().0, 12_345_600_000);
    assert_eq!(FixedPoint::from_str("0.00000001").unwrap().0, 1);
    assert_eq!(FixedPoint::from_str("1.00000001").unwrap().0, 100_000_001);
    assert_eq!(
        FixedPoint::from_str("50014.00859087").unwrap().0,
        5_001_400_859_087
    );
}

#[test]
fn parse_integer_without_dot() {
    assert_eq!(FixedPoint::from_str("50000").unwrap().0, 5_000_000_000_000);
    assert_eq!(FixedPoint::from_str("0").unwrap().0, 0);
}

#[test]
fn parse_rejects_malformed_input() {
    assert_eq!(FixedPoint::from_str(""), Err(ParseError::InvalidFormat));
    assert_eq!(FixedPoint::from_str("abc"), Err(ParseError::InvalidFormat));
    assert_eq!(FixedPoint::from_str("12x"), Err(ParseError::InvalidFormat));
    assert_eq!(FixedPoint::from_str("1."), Err(ParseError::InvalidFormat));
    assert_eq!(FixedPoint::from_str(".5"), Err(ParseError::InvalidFormat));
    assert_eq!(FixedPoint::from_str("1..2"), Err(ParseError::InvalidFormat));
    assert_eq!(FixedPoint::from_str("1.2.3"), Err(ParseError::InvalidFormat));
    assert_eq!(FixedPoint::from_str("-1.5"), Err(ParseError::InvalidFormat));
    assert_eq!(FixedPoint::from_str("1e5"), Err(ParseError::InvalidFormat));
    // more than eight fractional digits
    assert_eq!(
        FixedPoint::from_str("1.123456789"),
        Err(ParseError::InvalidFormat)
    );
}

#[test]
fn parse_rejects_out_of_range_values() {
    // i64::MAX is 92233720368.54775807 at scale 10^8
    assert_eq!(
        FixedPoint::from_str("92233720368.54775807").unwrap().0,
        i64::MAX
    );
    assert_eq!(
        FixedPoint::from_str("92233720368.54775808"),
        Err(ParseError::InvalidFormat)
    );
    assert_eq!(
        FixedPoint::from_str("92233720369"),
        Err(ParseError::InvalidFormat)
    );
    assert_eq!(
        FixedPoint::from_str("999999999999999999999999999"),
        Err(ParseError::InvalidFormat)
    );
}

#[test]
fn format_always_eight_decimals() {
    assert_eq!(FixedPoint(0).to_string(), "0.00000000");
    assert_eq!(FixedPoint(1).to_string(), "0.00000001");
    assert_eq!(FixedPoint(150_000_000).to_string(), "1.50000000");
    assert_eq!(FixedPoint(-150_000_000).to_string(), "-1.50000000");
    assert_eq!(FixedPoint(i64::MAX).to_string(), "92233720368.54775807");
    assert_eq!(FixedPoint(i64::MIN).to_string(), "-92233720368.54775808");
}

#[test]
fn parse_format_round_trip() {
    for s in ["123.45600000", "0.00000001", "50014.00859087", "1.00000000"] {
        let v = FixedPoint::from_str(s).unwrap();
        assert_eq!(v.to_string(), s);
    }
}

#[test]
fn scale_constant_matches_eight_decimals() {
    assert_eq!(FIXED_POINT_SCALE, 100_000_000);
    assert_eq!(FixedPoint::from_str("1").unwrap().0, FIXED_POINT_SCALE);
}

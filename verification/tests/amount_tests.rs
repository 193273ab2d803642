use payment_engine::amount::FixedPointAmount;
use payment_engine::text::parse_amount;

fn chars(s: &str) -> Vec<char> {
    let mut v: Vec<char> = Vec::new();
    for c in s.chars() {
        v.push(c);
    }
    v
}

fn parsed(s: &str) -> Option<i64> {
    parse_amount(&chars(s)).map(|a| a.units)
}

#[test]
fn zero_is_zero() {
    assert_eq!(FixedPointAmount::zero().units, 0);
}

#[test]
fn checked_add_exact() {
    let a = FixedPointAmount::from_units(15000);
    let b = FixedPointAmount::from_units(5000);
    assert_eq!(a.checked_add(b).unwrap().units, 20000);
    assert_eq!(a.checked_sub(b).unwrap().units, 10000);
}

#[test]
fn checked_add_overflow_is_none() {
    let a = FixedPointAmount::from_units(i64::MAX);
    let b = FixedPointAmount::from_units(1);
    assert!(a.checked_add(b).is_none());
    let c = FixedPointAmount::from_units(i64::MIN);
    assert!(c.checked_sub(b).is_none());
}

#[test]
fn comparison_is_exact() {
    let a = FixedPointAmount::from_units(9999);
    let b = FixedPointAmount::from_units(10000);
    assert!(a.lt(b));
    assert!(!b.lt(a));
    assert!(!a.lt(a));
    assert!(FixedPointAmount::from_units(-1).is_negative());
    assert!(!FixedPointAmount::zero().is_negative());
}

#[test]
fn parse_plain_amounts() {
    assert_eq!(parsed("1.5"), Some(15000));
    assert_eq!(parsed("0.0001"), Some(1));
    assert_eq!(parsed("2"), Some(20000));
    assert_eq!(parsed("1."), Some(10000));
    assert_eq!(parsed(".5"), Some(5000));
    assert_eq!(parsed("-1.5"), Some(-15000));
    assert_eq!(parsed("+1.5"), Some(15000));
    assert_eq!(parsed("9999999999999.9999"), Some(99999999999999999));
    assert_eq!(parsed("10000000000000.0000"), Some(100000000000000000));
}

#[test]
fn parse_rejects_malformed() {
    assert_eq!(parsed(""), None);
    assert_eq!(parsed("."), None);
    assert_eq!(parsed("+"), None);
    assert_eq!(parsed("-"), None);
    assert_eq!(parsed("+."), None);
    assert_eq!(parsed("1.2.3"), None);
    assert_eq!(parsed("abc"), None);
    assert_eq!(parsed("1,5"), None);
    assert_eq!(parsed("--1"), None);
}

#[test]
fn parse_rejects_out_of_range() {
    // One above the largest representable count of ten-thousandths.
    assert_eq!(parsed("922337203685477.5807"), Some(i64::MAX));
    assert_eq!(parsed("922337203685477.5808"), None);
    assert_eq!(parsed("99999999999999999999"), None);
}

#[test]
fn rounding_half_to_even_at_fourth_digit() {
    // More than four fractional digits rounds; fewer are zero-padded.
    assert_eq!(parsed("1.23456"), Some(12346));
    assert_eq!(parsed("1.00005"), Some(10000));
    assert_eq!(parsed("1.00015"), Some(10002));
    assert_eq!(parsed("1.000051"), Some(10001));
    assert_eq!(parsed("1.00004999"), Some(10000));
    assert_eq!(parsed("-1.23456"), Some(-12346));
    assert_eq!(parsed("1.23"), Some(12300));
}

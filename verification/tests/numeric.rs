use bigdecimal::BigDecimal;
use diesel::numeric::{from_sql, to_sql, Decimal, IsNull};
use std::str::FromStr;

fn decimal(negative: bool, digits: Vec<u8>, scale: i64) -> Decimal {
    Decimal::new(negative, digits, scale).unwrap()
}

#[test]
fn decimal_is_sent_as_its_text() {
    let mut out = b"x=".to_vec();
    assert_eq!(to_sql(&decimal(false, vec![1, 2, 5, 0], 2), &mut out), IsNull::No);
    assert_eq!(String::from_utf8(out).unwrap(), "x=12.50");
    let mut out = Vec::new();
    to_sql(&decimal(true, vec![7], 0), &mut out);
    assert_eq!(out, b"-7".to_vec());
}

#[test]
fn decimal_is_read_from_its_text() {
    assert_eq!(from_sql(Some(b"-3.25")).unwrap(), decimal(true, vec![3, 2, 5], 2));
    assert_eq!(from_sql(Some(b"1e3")).unwrap(), decimal(false, vec![1], -3));
    assert_eq!(from_sql(Some(b"0")).unwrap(), decimal(false, vec![0], 0));
}

#[test]
fn parts_of_a_decimal() {
    let d = from_sql(Some(b"-12.5")).unwrap();
    assert!(d.negative());
    assert_eq!(d.digits(), &vec![1, 2, 5]);
    assert_eq!(d.scale(), 1);
    assert!(Decimal::new(false, vec![1, 10], 0).is_none());
}

#[test]
fn written_text_is_the_display_text() {
    for text in ["0", "-12.5", "1e30", "0.0000000001", "-7", "123456789012345678901234567890.5"] {
        let d = from_sql(Some(text.as_bytes())).unwrap();
        let mut out = Vec::new();
        to_sql(&d, &mut out);
        assert_eq!(String::from_utf8(out).unwrap(), format!("{}", BigDecimal::from_str(text).unwrap()));
    }
}

#[test]
fn null_is_refused() {
    assert_eq!(from_sql(None).unwrap_err(), "Unexpected null for non-null column");
}

#[test]
fn garbage_is_refused_with_the_bytes_shown() {
    assert_eq!(from_sql(Some(b"abc")).unwrap_err(), "[97, 98, 99] is not valid decimal number ");
    assert_eq!(from_sql(Some(b"")).unwrap_err(), "[] is not valid decimal number ");
}

#[test]
fn what_to_sql_writes_from_sql_reads_back_as_the_same_number() {
    for text in ["0", "-12.50", "1e30", "100000", "0.0000000001", "-7", "1e-40", "123456789012345678901234567890.5"] {
        let d = from_sql(Some(text.as_bytes())).unwrap();
        let mut out = Vec::new();
        to_sql(&d, &mut out);
        let back = from_sql(Some(&out)).unwrap();
        let mut again = Vec::new();
        to_sql(&back, &mut again);
        let a = BigDecimal::from_str(text).unwrap();
        let b = BigDecimal::from_str(std::str::from_utf8(&again).unwrap()).unwrap();
        assert_eq!(a, b);
    }
}

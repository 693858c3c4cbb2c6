use pico_ledger::Amount;

#[test]
fn deserialize_amount_csv() {
    let cases: Vec<(&str, i64)> = vec![
        ("1.2", 12000),
        ("1.2345", 12345),
        ("1.00", 10000),
        ("1", 10000),
        ("12345.12345678", 12345_1234),
    ];

    for (c, e) in cases.iter() {
        let r: Amount = Amount::from_decimal_str(c).unwrap();
        assert_eq!(*e, r.to_i64());
    }
}

#[test]
fn serialize_amount_csv() {
    let cases: Vec<(&str, Amount)> = vec![
        ("1.2\n", Amount::from(1_2000)),
        ("1.2345\n", Amount::from(1_2345)),
        ("1.0\n", Amount::from(1_0000)),
        ("1234.0\n", Amount::from(1234_0000)),
        ("0.1234\n", Amount::from(1234)),
    ];

    for (e, c) in cases.iter() {
        let data = format!("{}\n", c.to_decimal_string());
        assert_eq!(e.to_string(), data);
    }
}

#[test]
fn round_trip_scaled_text() {
    let a = Amount::from_decimal_str("12345.12345678").unwrap();
    assert_eq!(12345_1234, a.to_i64());
    assert_eq!("12345.1234", Amount::from(12345_1234).to_decimal_string());
}

#[test]
fn truncates_toward_zero() {
    assert_eq!(1_0000, Amount::from_decimal_str("1.00009").unwrap().to_i64());
    assert_eq!(-1_2345, Amount::from_decimal_str("-1.23459999").unwrap().to_i64());
    assert_eq!(0, Amount::from_decimal_str("0.00001").unwrap().to_i64());
}

#[test]
fn negative_amount_text() {
    assert_eq!(-1_2000, Amount::from_decimal_str("-1.2").unwrap().to_i64());
    assert_eq!("-1.2", Amount::from(-1_2000).to_decimal_string());
    assert_eq!("0.0", Amount::from(0).to_decimal_string());
}

#[test]
fn exact_arithmetic_and_ordering() {
    let a = Amount::from_decimal_str("0.1").unwrap();
    let b = Amount::from_decimal_str("0.2").unwrap();
    let sum = a.checked_add(&b).unwrap();
    assert_eq!(Amount::from_decimal_str("0.3").unwrap(), sum);
    assert_eq!(a, sum.checked_sub(&b).unwrap());
    assert!(a < b);
    assert!(Amount::from(-1) < Amount::from(0));
    assert!(Amount::from(i64::MAX).checked_add(&Amount::from(1)).is_none());
    assert!(Amount::from(i64::MIN).checked_sub(&Amount::from(1)).is_none());
}

#[test]
fn same_text_same_amount() {
    let a = Amount::from_decimal_str("42.4242").unwrap();
    let b = Amount::from_decimal_str("42.4242").unwrap();
    assert_eq!(a, b);
}

#[test]
fn rejects_malformed_text() {
    assert!(Amount::from_decimal_str("").is_none());
    assert!(Amount::from_decimal_str("-").is_none());
    assert!(Amount::from_decimal_str(".5").is_none());
    assert!(Amount::from_decimal_str("1.").is_none());
    assert!(Amount::from_decimal_str("1.2.3").is_none());
    assert!(Amount::from_decimal_str("12a").is_none());
    assert!(Amount::from_decimal_str("1,5").is_none());
}

#[test]
fn extreme_values_round_trip() {
    assert_eq!(
        "922337203685477.5807",
        Amount::from(i64::MAX).to_decimal_string()
    );
    assert_eq!(
        "-922337203685477.5808",
        Amount::from(i64::MIN).to_decimal_string()
    );
    let back = Amount::from_decimal_str(&Amount::from(i64::MIN).to_decimal_string()).unwrap();
    assert_eq!(i64::MIN, back.to_i64());
}

#[test]
fn rejects_unrepresentable_values() {
    assert!(Amount::from_decimal_str("99999999999999999999").is_none());
    assert!(Amount::from_decimal_str("922337203685477.5808").is_none());
    assert_eq!(
        i64::MAX,
        Amount::from_decimal_str("922337203685477.5807").unwrap().to_i64()
    );
    assert_eq!(
        i64::MIN,
        Amount::from_decimal_str("-922337203685477.5808").unwrap().to_i64()
    );
}

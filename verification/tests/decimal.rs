use barter_data::decimal::{decimal_bytes, push_decimal, push_digits, push_int, push_nat, push_padded};

fn text(value: u64) -> String {
    String::from_utf8(decimal_bytes(value)).unwrap()
}

#[test]
fn whole_numbers_have_no_point() {
    assert_eq!(text(0), "0");
    assert_eq!(text(100_000_000), "1");
    assert_eq!(text(2_500_000_000_000), "25000");
}

#[test]
fn fractions_drop_trailing_zeros() {
    assert_eq!(text(150_000_000), "1.5");
    assert_eq!(text(10_050_000_000), "100.5");
    assert_eq!(text(25_000_000), "0.25");
    assert_eq!(text(1), "0.00000001");
    assert_eq!(text(10), "0.0000001");
    assert_eq!(text(123_456_789_012), "1234.56789012");
    assert_eq!(text(100_000_001), "1.00000001");
}

#[test]
fn largest_value_is_written_in_full() {
    assert_eq!(text(u64::MAX), "184467440737.09551615");
}

#[test]
fn push_decimal_appends() {
    let mut out = b"x=".to_vec();
    push_decimal(&mut out, 350_000_000);
    assert_eq!(out, b"x=3.5".to_vec());
}

#[test]
fn digits_and_padding() {
    let mut out = Vec::new();
    push_digits(&mut out, 0);
    push_digits(&mut out, 907);
    assert_eq!(out, b"0907".to_vec());
    let mut padded = Vec::new();
    push_padded(&mut padded, 42, 5);
    assert_eq!(padded, b"00042".to_vec());
    let mut cut = Vec::new();
    push_padded(&mut cut, 12345, 3);
    assert_eq!(cut, b"345".to_vec());
    let mut none = Vec::new();
    push_padded(&mut none, 12345, 0);
    assert!(none.is_empty());
}

#[test]
fn integers_as_text() {
    let mut out = String::new();
    push_nat(&mut out, 0);
    out.push(' ');
    push_nat(&mut out, 18446744073709551615);
    out.push(' ');
    push_int(&mut out, -11050);
    out.push(' ');
    push_int(&mut out, 7);
    out.push(' ');
    push_int(&mut out, i64::MIN);
    out.push(' ');
    push_int(&mut out, i64::MAX);
    assert_eq!(
        out,
        "0 18446744073709551615 -11050 7 -9223372036854775808 9223372036854775807"
    );
}

use collection_email_worker::currency::format_currency;

#[test]
fn test_format_currency() {
    assert_eq!(format_currency(1500000), "1.500.000");
}

#[test]
fn test_format_currency_zero() {
    assert_eq!(format_currency(0), "0");
}

#[test]
fn test_format_currency_small() {
    assert_eq!(format_currency(999), "999");
    assert_eq!(format_currency(1000), "1.000");
}

#[test]
fn test_format_currency_negative() {
    assert_eq!(format_currency(-1500000), "-1.500.000");
}

#[test]
fn test_format_currency_padded_groups() {
    assert_eq!(format_currency(1000001), "1.000.001");
    assert_eq!(format_currency(12), "12");
    assert_eq!(format_currency(123456), "123.456");
}

use sme_pro::money::{format_money, parse_money_input};

#[test]
fn parses_plain_decimal() {
    assert_eq!(parse_money_input("12.50", "USD").unwrap(), 1250);
    assert_eq!(parse_money_input("0.01", "USD").unwrap(), 1);
    assert_eq!(parse_money_input("100", "USD").unwrap(), 10000);
}

#[test]
fn rejects_sub_cent_precision() {
    assert!(parse_money_input("12.505", "USD").is_err());
}

#[test]
fn respects_zero_decimal_currencies() {
    assert_eq!(parse_money_input("1500", "JPY").unwrap(), 1500);
    assert!(parse_money_input("15.50", "JPY").is_err());
}

#[test]
fn respects_three_decimal_currencies() {
    assert_eq!(parse_money_input("1.500", "KWD").unwrap(), 1500);
}

#[test]
fn strips_thousands_separators() {
    assert_eq!(parse_money_input("50,000", "KES").unwrap(), 5_000_000);
    assert_eq!(parse_money_input("50,000.00", "KES").unwrap(), 5_000_000);
    assert_eq!(parse_money_input("1,234,567.89", "USD").unwrap(), 123_456_789);
}

#[test]
fn rejects_garbage() {
    assert!(parse_money_input("abc", "USD").is_err());
    assert!(parse_money_input("", "USD").is_err());
    assert!(parse_money_input("12.5.6", "USD").is_err());
}

#[test]
fn format_round_trips() {
    assert_eq!(format_money(1250, "USD"), "12.50");
    assert_eq!(format_money(1, "USD"), "0.01");
    assert_eq!(format_money(1500, "JPY"), "1500");
    assert_eq!(format_money(-1250, "USD"), "-12.50");
}

#[test]
fn exactness_over_many_operations() {
    let unit_price_cents = 1999_i64; // $19.99
    let qty = 7_i64;
    let mut subtotal = 0_i64;
    for _ in 0..10_000 {
        subtotal = 0;
        subtotal += unit_price_cents * qty;
    }
    assert_eq!(subtotal, 13993);
}

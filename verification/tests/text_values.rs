use sme_pro::dates::{date_day, date_text, is_date};
use sme_pro::money::{
    decimal_places_for, format_money, money_error_text, parse_money_input, parse_with_places, MoneyError,
};
use sme_pro::reals::{is_finite, real_bits, round_real};
use sme_pro::text::{
    char_ascii_lower, char_is_digit, char_is_letter, char_is_white, contains_text, double_char, i64_text, is_blank, join,
    keep_nonempty, parse_i64, parse_u64, remove_char, same_ignoring_case, split, starts_with, text_before, trim, u64_text,
};
use sme_pro::value::{Record, Value};

fn texts(list: &[&str]) -> Vec<String> {
    list.iter().map(|s| s.to_string()).collect()
}

#[test]
fn white_space_is_that_of_std() {
    for n in 0u32..0x11_0000 {
        if let Some(c) = char::from_u32(n) {
            assert_eq!(char_is_white(c), c.is_whitespace(), "{n:x}");
            assert_eq!(char_is_digit(c), c.is_ascii_digit());
            assert_eq!(char_is_letter(c), c.is_ascii_alphabetic());
            assert_eq!(char_ascii_lower(c), c.to_ascii_lowercase());
        }
    }
}

#[test]
fn trimming_is_that_of_std() {
    for s in ["", "  ", " a ", "a b", "\u{2003}x\t\n", "\u{feff}x", "é "] {
        assert_eq!(trim(s), s.trim());
        assert_eq!(is_blank(s), s.trim().is_empty());
    }
}

#[test]
fn integers_are_read_as_std_reads_them() {
    for s in [
        "0", "7", "+7", "-7", "007", "", "-", "+", "1 ", " 1", "1e3", "9223372036854775807", "9223372036854775808",
        "-9223372036854775808", "-9223372036854775809", "99999999999999999999999", "18446744073709551615",
        "18446744073709551616", "-0", "+18446744073709551615",
    ] {
        assert_eq!(parse_u64(s), s.parse::<u64>().ok(), "{s}");
        assert_eq!(parse_i64(s), s.parse::<i64>().ok(), "{s}");
    }
}

#[test]
fn integers_are_written_as_std_writes_them() {
    for n in [0i64, 7, -7, 1000, i64::MAX, i64::MIN] {
        assert_eq!(i64_text(n), n.to_string());
    }
    assert_eq!(u64_text(u64::MAX), u64::MAX.to_string());
}

#[test]
fn splitting_and_joining() {
    for s in ["", "a", "a,b", ",a,,b,"] {
        assert_eq!(split(s, ','), s.split(',').map(str::to_string).collect::<Vec<_>>());
    }
    assert_eq!(join(&texts(&["a", "b", "c"]), ", "), "a, b, c");
    assert_eq!(join(&Vec::new(), ", "), "");
    assert_eq!(keep_nonempty(&texts(&["", "a", "", "b"])), texts(&["a", "b"]));
}

#[test]
fn searching_in_texts() {
    for (s, p) in [("abc", "bc"), ("abc", ""), ("", ""), ("abc", "d"), ("aab", "ab"), ("ab", "abc")] {
        assert_eq!(contains_text(s, p), s.contains(p));
        assert_eq!(starts_with(s, p), s.starts_with(p));
    }
    assert_eq!(remove_char("1,234,5", ','), "12345");
    assert_eq!(double_char("it's", '\''), "it''s");
    assert!(same_ignoring_case("X-Business-Id", "x-business-ID"));
    assert!(!same_ignoring_case("é", "É"));
}

#[test]
fn texts_are_ordered_as_std_orders_them() {
    let list = ["", "a", "ab", "b", "B", "é", "z"];
    for a in list {
        for b in list {
            assert_eq!(text_before(a, b), a < b);
        }
    }
}

#[test]
fn days_and_their_texts() {
    assert!(is_date("2026-02-28"));
    assert!(!is_date("2026-02-30"));
    assert!(!is_date("yesterday"));
    let day = date_day("2026-01-31").unwrap();
    assert_eq!(date_text(day + 1).unwrap(), "2026-02-01");
    assert_eq!(date_day("not a date"), None);
}

#[test]
fn currencies_have_their_places() {
    assert_eq!(decimal_places_for("ugx"), 0);
    assert_eq!(decimal_places_for("KWD"), 3);
    assert_eq!(decimal_places_for("XYZ"), 2);
}

#[test]
fn money_errors_are_told_apart() {
    assert_eq!(parse_money_input("  ", "USD"), Err(MoneyError::Required));
    assert_eq!(parse_money_input("1.005", "USD"), Err(MoneyError::TooPrecise));
    assert_eq!(parse_money_input("abc", "USD"), Err(MoneyError::Invalid));
    assert_eq!(parse_money_input("99999999999999999999", "USD"), Err(MoneyError::Invalid));
    assert_eq!(parse_money_input("92233720368547758.07", "USD"), Ok(i64::MAX));
    assert_eq!(parse_money_input("92233720368547758.08", "USD"), Err(MoneyError::OutOfRange));
    assert_eq!(parse_with_places("1.005", 3), Ok(1005));
    for e in [MoneyError::Required, MoneyError::TooPrecise, MoneyError::Invalid, MoneyError::OutOfRange] {
        assert!(!money_error_text(e, "x", "USD").is_empty());
    }
}

#[test]
fn formatted_money_is_read_back() {
    for cents in [0i64, 1, -1, 99, 100, -12345, 123456789, i64::MAX, i64::MIN + 1] {
        for currency in ["USD", "JPY", "KWD"] {
            assert_eq!(parse_money_input(&format_money(cents, currency), currency), Ok(cents));
        }
    }
}

#[test]
fn reals_are_rounded_as_std_rounds_them() {
    let texts = [
        "0", "-0", "0.4", "0.5", "-0.5", "1.5", "2.5", "-2.5", "1e3", "123456.789", "4503599627370497.5",
        "9007199254740993", "9223372036854775807", "9223372036854775808", "-9223372036854775808", "1e300", "-1e300",
        "1e-320", "0.49999999999999994", "inf", "-inf", "nan", "1.7976931348623157e308",
    ];
    for s in texts {
        let x: f64 = s.parse().unwrap();
        let bits = real_bits(s).unwrap();
        assert_eq!(round_real(bits), x.round() as i64, "{s}");
        assert_eq!(is_finite(bits), x.is_finite(), "{s}");
    }
    assert_eq!(real_bits("nan"), Some(0x7ff8_0000_0000_0000));
    assert_eq!(real_bits("1,5"), None);
    assert_eq!(real_bits("1.5"), Some(1.5f64.to_bits()));
}

#[test]
fn records_hold_one_value_for_a_name() {
    let mut r = Record::new();
    r.insert_int("a", 1);
    r.insert_text("b", "x");
    r.insert_int("a", 2);
    assert_eq!(r.get_int_or("a", 0), 2);
    assert_eq!(r.get_text("b"), "x");
    assert_eq!(r.get_text("a"), "");
    assert_eq!(r.names().len(), 2);
    r.remove("a");
    assert!(!r.has("a"));
    r.insert_opt_text("c", &None);
    assert!(!r.has("c"));
}

#[test]
fn values_compare_by_what_they_are() {
    assert!(Value::Int(1).equals(&Value::Int(1)));
    assert!(!Value::Int(1).equals(&Value::UInt(1)));
    assert!(Value::Real(0.0f64.to_bits()).equals(&Value::Real((-0.0f64).to_bits())));
    assert!(!Value::Text("a".into()).equals(&Value::Null));
    assert_eq!(Value::UInt(5).as_i64(), Some(5));
    assert_eq!(Value::UInt(u64::MAX).as_i64(), None);
}

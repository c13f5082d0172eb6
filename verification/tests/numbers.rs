use bluedger::decimal::{parse_u64, push_decimal};

fn decimal(n: u64) -> String {
    let mut s = String::new();
    push_decimal(&mut s, n);
    s
}

#[test]
fn decimal_matches_display() {
    for n in [0u64, 1, 9, 10, 11, 99, 100, 101, 2024, 65535, u64::MAX - 1, u64::MAX] {
        assert_eq!(decimal(n), n.to_string());
    }
}

#[test]
fn decimal_appends() {
    let mut s = String::from("year ");
    push_decimal(&mut s, 2025);
    assert_eq!(s, "year 2025");
}

#[test]
fn parse_accepts_digits() {
    assert_eq!(parse_u64("0"), Some(0));
    assert_eq!(parse_u64("2025"), Some(2025));
    assert_eq!(parse_u64("007"), Some(7));
    assert_eq!(parse_u64("+12"), Some(12));
    assert_eq!(parse_u64("18446744073709551615"), Some(u64::MAX));
}

#[test]
fn parse_refuses_what_std_refuses() {
    for s in ["", "+", "-", "-1", "+-1", "++1", " 1", "1 ", "1a", "a", "1.0", "18446744073709551616", "99999999999999999999999", "１"] {
        assert_eq!(parse_u64(s), None, "{s:?}");
    }
}

#[test]
fn parse_agrees_with_std() {
    let samples = [
        "", "0", "00", "+0", "+", "-0", "12", "+34", "3+4", "4294967296", "18446744073709551615",
        "18446744073709551616", "000000000000000000000000001", " ", "\n5", "5\n", "٣",
    ];
    for s in samples {
        assert_eq!(parse_u64(s), s.parse::<u64>().ok(), "{s:?}");
    }
}

#[test]
fn printed_numbers_parse_back() {
    for n in [0u64, 5, 12, 1999, 1 << 40, u64::MAX] {
        assert_eq!(parse_u64(&decimal(n)), Some(n));
    }
}

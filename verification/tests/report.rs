use bluedger::report::{is_whitespace_char, parse_balance_report, replace_commas};

/// The text part of the server's own reading of a balance report.
fn reference(output: &str) -> (Vec<String>, Vec<String>, u64) {
    let mut count = 0;
    let mut amounts = Vec::new();
    let mut curr = Vec::new();
    for val in output.split('\n') {
        count += 1;
        let mut split_val = val.split_whitespace();
        let value_str = match split_val.next() {
            None => "0 XXX",
            Some(s) => s,
        };
        amounts.push(value_str.replace(',', "."));
        let curr_str = match split_val.next() {
            None => "0.0 XXX",
            Some(s) => s,
        };
        curr.push(curr_str.to_owned());
    }
    (amounts, curr, count)
}

fn check(output: &str) {
    let r = parse_balance_report(output);
    let (a, c, n) = reference(output);
    assert_eq!(r.amounts, a, "{output:?}");
    assert_eq!(r.currencies, c, "{output:?}");
    assert_eq!(r.size, n, "{output:?}");
}

#[test]
fn typical_report() {
    let r = parse_balance_report("1.234,56 EUR\n-12,5 USD\n");
    assert_eq!(r.size, 3);
    assert_eq!(r.amounts, vec!["1.234.56", "-12.5", "0 XXX"]);
    assert_eq!(r.currencies, vec!["EUR", "USD", "0.0 XXX"]);
}

#[test]
fn empty_report() {
    let r = parse_balance_report("");
    assert_eq!(r.size, 1);
    assert_eq!(r.amounts, vec!["0 XXX"]);
    assert_eq!(r.currencies, vec!["0.0 XXX"]);
}

#[test]
fn one_word_line() {
    let r = parse_balance_report("  42  ");
    assert_eq!(r.amounts, vec!["42"]);
    assert_eq!(r.currencies, vec!["0.0 XXX"]);
}

#[test]
fn agrees_with_str_methods() {
    for s in [
        "", "\n", "\n\n", "a", "a b", "a  b  c", " \t a\u{a0}b \r", "1,2,3 X Y\n4 Z",
        "\u{3000}5\u{2003}EUR\u{2028}", "x\ny\n", "€ 1,0", ",,, ,,", "\r\n12 GBP\r\n",
        "\u{85}7\u{1680}JPY\u{202f}extra",
    ] {
        check(s);
    }
}

#[test]
fn whitespace_matches_char_method() {
    for u in 0u32..0x3100 {
        if let Some(c) = char::from_u32(u) {
            assert_eq!(is_whitespace_char(c), c.is_whitespace(), "{u:x}");
        }
    }
}

#[test]
fn commas_become_points() {
    assert_eq!(replace_commas("1,5"), "1.5");
    assert_eq!(replace_commas(",a,"), ".a.");
    assert_eq!(replace_commas("none"), "none");
}

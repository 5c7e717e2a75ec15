use represence::config::{listen_port, parse_port, DEFAULT_PORT};
use represence::text::is_all_digits;

#[test]
fn default_port_is_used_where_nothing_is_configured() {
    assert_eq!(DEFAULT_PORT, 3001);
    assert_eq!(listen_port(None), 3001);
}

#[test]
fn configured_port_is_used() {
    assert_eq!(listen_port(Some("8080")), 8080);
    assert_eq!(listen_port(Some("1")), 1);
    assert_eq!(listen_port(Some("65535")), 65535);
    assert_eq!(listen_port(Some("0")), 0);
}

#[test]
fn default_port_is_used_where_the_text_is_no_port() {
    assert_eq!(listen_port(Some("")), 3001);
    assert_eq!(listen_port(Some("http")), 3001);
    assert_eq!(listen_port(Some("65536")), 3001);
    assert_eq!(listen_port(Some("80 ")), 3001);
    assert_eq!(listen_port(Some("-1")), 3001);
}

#[test]
fn port_is_written_in_decimal_digits() {
    assert_eq!(parse_port("3001"), Some(3001));
    assert_eq!(parse_port("0"), Some(0));
    assert_eq!(parse_port("9"), Some(9));
    assert_eq!(parse_port("10"), Some(10));
    assert_eq!(parse_port("65535"), Some(65535));
}

#[test]
fn port_may_have_leading_zeros_and_a_plus() {
    assert_eq!(parse_port("0080"), Some(80));
    assert_eq!(parse_port("000000000000000000000000065535"), Some(65535));
    assert_eq!(parse_port("+443"), Some(443));
    assert_eq!(parse_port("+0"), Some(0));
}

#[test]
fn port_above_the_range_is_refused() {
    assert_eq!(parse_port("65536"), None);
    assert_eq!(parse_port("70000"), None);
    assert_eq!(parse_port("100000"), None);
    assert_eq!(parse_port("4294967296"), None);
    assert_eq!(parse_port("99999999999999999999999999"), None);
}

#[test]
fn text_that_is_no_number_is_refused() {
    assert_eq!(parse_port(""), None);
    assert_eq!(parse_port("+"), None);
    assert_eq!(parse_port("++1"), None);
    assert_eq!(parse_port("-1"), None);
    assert_eq!(parse_port("-0"), None);
    assert_eq!(parse_port(" 80"), None);
    assert_eq!(parse_port("80 "), None);
    assert_eq!(parse_port("8 0"), None);
    assert_eq!(parse_port("80a"), None);
    assert_eq!(parse_port("0x50"), None);
    assert_eq!(parse_port("8_0"), None);
    assert_eq!(parse_port("1e3"), None);
    assert_eq!(parse_port("٨٠"), None);
    assert_eq!(parse_port("99999x"), None);
}

#[test]
fn port_reading_agrees_with_the_standard_one() {
    let samples = [
        "", "+", "-", "0", "00", "+0", "-0", "1", "+1", "-1", "42", "042", "+042", "65534",
        "65535", "65536", "+65535", "+65536", "655350", "0065535", "99999", "100000", "12a",
        "a12", "1 2", " 12", "12 ", "1+2", "+-1", "3001", "3.0", "１２",
    ];
    for text in samples {
        assert_eq!(parse_port(text), text.parse::<u16>().ok(), "{:?}", text);
    }
    for n in 0..=70000u32 {
        let text = n.to_string();
        assert_eq!(parse_port(&text), text.parse::<u16>().ok());
    }
}

#[test]
fn digits_are_told_from_other_characters() {
    assert!(is_all_digits("0123456789"));
    assert!(is_all_digits(""));
    assert!(!is_all_digits("12 "));
    assert!(!is_all_digits("/"));
    assert!(!is_all_digits(":"));
    assert!(!is_all_digits("١"));
}

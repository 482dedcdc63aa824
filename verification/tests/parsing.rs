use umdb::net::{parse_ipv4, parse_octet, try_parse_remote_id, Ipv4Address};
use umdb::properties::find_device_model;
use umdb::text::{parse_u16, split_char, str_contains, str_equal, str_starts_with, trim_str};

fn ip(a: u8, b: u8, c: u8, d: u8) -> Ipv4Address {
    Ipv4Address { a, b, c, d }
}

#[test]
fn splits_on_separator() {
    let parts = split_char("a\tb\tc", '\t');
    assert_eq!(parts, vec!["a".to_string(), "b".to_string(), "c".to_string()]);
    assert_eq!(split_char("", '\t'), vec!["".to_string()]);
    assert_eq!(split_char("x\t", '\t'), vec!["x".to_string(), "".to_string()]);
}

#[test]
fn trims_ascii_whitespace() {
    assert_eq!(trim_str("  device \r\n"), "device".to_string());
    assert_eq!(trim_str(""), "".to_string());
    assert_eq!(trim_str(" \t "), "".to_string());
}

#[test]
fn prefix_and_substring_tests() {
    assert!(str_starts_with("offline at boot", "offline"));
    assert!(!str_starts_with("off", "offline"));
    assert!(str_contains("abcdef", "cde"));
    assert!(!str_contains("abcdef", "cf"));
    assert!(str_equal("same", "same"));
    assert!(!str_equal("same", "sane"));
}

#[test]
fn parses_ports_like_the_standard_parser() {
    assert_eq!(parse_u16("5555"), Some(5555));
    assert_eq!(parse_u16("+80"), Some(80));
    assert_eq!(parse_u16("0"), Some(0));
    assert_eq!(parse_u16("65535"), Some(65535));
    assert_eq!(parse_u16("65536"), None);
    assert_eq!(parse_u16(""), None);
    assert_eq!(parse_u16("+"), None);
    assert_eq!(parse_u16("-1"), None);
    assert_eq!(parse_u16("12a"), None);
}

#[test]
fn parses_octets_strictly() {
    assert_eq!(parse_octet("0"), Some(0));
    assert_eq!(parse_octet("255"), Some(255));
    assert_eq!(parse_octet("256"), None);
    assert_eq!(parse_octet("01"), None);
    assert_eq!(parse_octet(""), None);
    assert_eq!(parse_octet("1234"), None);
}

#[test]
fn parses_dotted_quads() {
    assert_eq!(parse_ipv4("192.168.1.5"), Some(ip(192, 168, 1, 5)));
    assert_eq!(parse_ipv4("0.0.0.0"), Some(ip(0, 0, 0, 0)));
    assert_eq!(parse_ipv4("300.1.1.1"), None);
    assert_eq!(parse_ipv4("01.2.3.4"), None);
    assert_eq!(parse_ipv4("1.2.3"), None);
    assert_eq!(parse_ipv4("1.2.3.4.5"), None);
    assert_eq!(parse_ipv4("::1"), None);
}

#[test]
fn classifies_remote_identifiers() {
    assert_eq!(
        try_parse_remote_id("192.168.1.5:5555"),
        Some((ip(192, 168, 1, 5), 5555))
    );
    assert_eq!(try_parse_remote_id("ABC123"), None);
    assert_eq!(try_parse_remote_id("192.168.1.5"), None);
    assert_eq!(try_parse_remote_id("::1:5555"), None);
    assert_eq!(try_parse_remote_id("192.168.1.5:70000"), None);
    assert_eq!(try_parse_remote_id("192.168.1.5:5555:extra"), None);
}

#[test]
fn model_string_joins_manufacturer_and_model() {
    let text = "[ro.product.model]: [Pixel 6]\n[ro.product.manufacturer]: [Google]";
    assert_eq!(find_device_model(text), "Google Pixel 6".to_string());
}

#[test]
fn model_string_falls_back_per_key() {
    assert_eq!(
        find_device_model("[ro.product.model]: [Pixel 6]"),
        "Pixel 6".to_string()
    );
    assert_eq!(
        find_device_model("[ro.product.manufacturer]: [Google]"),
        "Google".to_string()
    );
    assert_eq!(find_device_model("[ro.other]: [x]"), "<Unknown>".to_string());
    assert_eq!(find_device_model(""), "<Unknown>".to_string());
}

#[test]
fn model_lines_without_colon_are_skipped() {
    let text = "garbage line\n[ro.product.model]: [Pixel 6]";
    assert_eq!(find_device_model(text), "Pixel 6".to_string());
}

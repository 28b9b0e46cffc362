use cros_typec_selector::error::{Error, IoErrorKind};
use cros_typec_selector::order::{less, sort_unique};
use cros_typec_selector::parse::{
    parse_svid, parse_u32_text, parse_u8_text, port_number, split_words, trim,
};
use cros_typec_selector::paths::{file_name, join_path, split_pieces};
use cros_typec_selector::text::{format_decimal, format_hex, starts_with, substring};

#[test]
fn numbers_accept_decimal_or_hex() {
    assert_eq!(parse_u32_text(" 0x1F \n"), Some(31));
    assert_eq!(parse_u32_text("42"), Some(42));
    assert_eq!(parse_u32_text("+42"), Some(42));
    assert_eq!(parse_u32_text("0x"), None);
    assert_eq!(parse_u32_text("-1"), None);
    assert_eq!(parse_u32_text("4294967295"), Some(u32::MAX));
    assert_eq!(parse_u32_text("4294967296"), None);
    assert_eq!(parse_u32_text("0xffffffff"), Some(u32::MAX));
    assert_eq!(parse_u32_text("ff"), None);
}

#[test]
fn svids_and_mode_numbers() {
    assert_eq!(parse_svid("ff01"), Some(0xff01));
    assert_eq!(parse_svid("0x8087"), Some(0x8087));
    assert_eq!(parse_svid("0x0xFF01"), Some(0xff01));
    assert_eq!(parse_svid("10000"), None);
    assert_eq!(parse_svid(""), None);
    assert_eq!(parse_u8_text("1"), Some(1));
    assert_eq!(parse_u8_text("+7"), Some(7));
    assert_eq!(parse_u8_text("256"), None);
    assert_eq!(parse_u8_text("+"), None);
    assert_eq!(port_number("port12"), Some(12));
    assert_eq!(port_number("port"), None);
    assert_eq!(port_number("port99999999999"), None);
}

#[test]
fn whitespace_is_trimmed_and_split() {
    assert_eq!(trim("  usb2 [usb3]\n"), "usb2 [usb3]");
    assert_eq!(trim("\t\n "), "");
    assert_eq!(split_words(" a  b\tc\n"), vec!["a".to_string(), "b".to_string(), "c".to_string()]);
    assert!(split_words("   ").is_empty());
}

#[test]
fn paths_join_like_pathbuf() {
    assert_eq!(join_path("/sys/class/typec", "port0"), "/sys/class/typec/port0");
    assert_eq!(join_path("/sys/class/typec/", "port0"), "/sys/class/typec/port0");
    assert_eq!(join_path("", "port0"), "port0");
    assert_eq!(join_path("/a", "/b"), "/b");
    assert_eq!(file_name("/a/b/port0-partner"), Some("port0-partner".to_string()));
    assert_eq!(file_name("/a/b/"), Some("b".to_string()));
    assert_eq!(file_name("/"), None);
    assert_eq!(file_name("a/.."), None);
    assert_eq!(
        split_pieces("/sys//class/./typec/"),
        vec!["sys".to_string(), "class".to_string(), "typec".to_string()]
    );
}

#[test]
fn text_helpers() {
    assert_eq!(format_decimal(0), "0");
    assert_eq!(format_decimal(1234), "1234");
    assert_eq!(format_hex(0xff01, 4), "ff01");
    assert_eq!(format_hex(0x1, 4), "0001");
    assert_eq!(cros_typec_selector::text::concat("ab", "cd"), "abcd");
    assert!(starts_with("port0-partner.1", "port0-partner."));
    assert!(!starts_with("port0", "port0-partner."));
    assert_eq!(substring("domain9", 0, 6), "domain");
}

#[test]
fn names_sort_by_code_point() {
    assert!(less("port0-partner.1", "port0-partner.2"));
    assert!(less("port", "port0"));
    assert!(!less("b", "a"));
    assert!(!less("a", "a"));
    assert_eq!(
        sort_unique(vec!["c".to_string(), "a".to_string(), "b".to_string(), "a".to_string()]),
        vec!["a".to_string(), "b".to_string(), "c".to_string()]
    );
}

#[test]
fn error_messages_name_what_failed() {
    let io = Error::Io { path: "/x/active".into(), kind: IoErrorKind::Other, detail: "Permission denied".into() };
    assert_eq!(io.message(), "/x/active: Permission denied");
    let parse = Error::Parse { path: "/x/id_header".into(), value: "zz".into(), expected: "u32".into() };
    assert_eq!(parse.message(), "/x/id_header: expected u32, found zz");
    assert_eq!(Error::InvalidPort("../port0".into()).message(), "invalid port name: ../port0");
    assert_eq!(Error::Unsupported("no".into()).message(), "no");
    assert_eq!(parse.duplicate(), parse);
}

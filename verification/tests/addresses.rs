use vnt_api::ipv4::{from_text, prefix_to_netmask, to_text};
use vnt_api::text::{chars_of, contains, decimal_text, find, parse_u32};

fn addr(a: u32, b: u32, c: u32, d: u32) -> u32 {
    a * 0x100_0000 + b * 0x1_0000 + c * 0x100 + d
}

#[test]
fn address_text_is_dotted_decimal() {
    assert_eq!(to_text(addr(10, 26, 0, 2)), "10.26.0.2");
    assert_eq!(to_text(0), "0.0.0.0");
    assert_eq!(to_text(u32::MAX), "255.255.255.255");
}

#[test]
fn address_round_trip() {
    for a in [0u32, 1, 255, 256, 0x0a1a_0002, 0x7f00_0001, 0xc0a8_01ff, u32::MAX] {
        assert_eq!(from_text(&to_text(a)), Some(a));
    }
}

#[test]
fn texts_that_are_no_address() {
    for s in [
        "", ".", "1.2.3", "1.2.3.", ".1.2.3", "1.2.3.4.5", "1.2.3.256", "1.2.3.04", "01.2.3.4", "00.0.0.0",
        "1..2.3", " 1.2.3.4", "1.2.3.4 ", "1.2.3.4/24", "1.2.3.-4", "1.2.3.+4", "a.b.c.d", "1.2.3.1000",
        "１.2.3.4",
    ] {
        assert_eq!(from_text(s), None, "{}", s);
    }
}

#[test]
fn netmasks() {
    assert_eq!(prefix_to_netmask(0), 0);
    assert_eq!(to_text(prefix_to_netmask(1)), "128.0.0.0");
    assert_eq!(to_text(prefix_to_netmask(8)), "255.0.0.0");
    assert_eq!(to_text(prefix_to_netmask(20)), "255.255.240.0");
    assert_eq!(to_text(prefix_to_netmask(24)), "255.255.255.0");
    assert_eq!(to_text(prefix_to_netmask(31)), "255.255.255.254");
    assert_eq!(to_text(prefix_to_netmask(32)), "255.255.255.255");
}

#[test]
fn longer_prefixes_have_greater_netmasks() {
    for prefix_len in 0..32u8 {
        assert!(prefix_to_netmask(prefix_len) < prefix_to_netmask(prefix_len + 1));
    }
}

#[test]
fn decimal_numbers() {
    assert_eq!(decimal_text(0), "0");
    assert_eq!(decimal_text(9), "9");
    assert_eq!(decimal_text(10), "10");
    assert_eq!(decimal_text(u64::MAX), "18446744073709551615");
    let read = |s: &str| {
        let chars = chars_of(s);
        let n = chars.len();
        parse_u32(&chars, 0, n)
    };
    assert_eq!(read("0"), Some(0));
    assert_eq!(read("+7"), Some(7));
    assert_eq!(read("0000000000000042"), Some(42));
    assert_eq!(read("4294967295"), Some(u32::MAX));
    assert_eq!(read("4294967296"), None);
    assert_eq!(read("99999999999999999999"), None);
    assert_eq!(read(""), None);
    assert_eq!(read("+"), None);
    assert_eq!(read("++1"), None);
    assert_eq!(read("-1"), None);
    assert_eq!(read("1 "), None);
}

#[test]
fn numbers_are_read_as_by_std() {
    for s in ["0", "+0", "007", "12a", "4294967295", "4294967296", "", "+", "-0", "1_0", " 1"] {
        let chars = chars_of(s);
        assert_eq!(parse_u32(&chars, 0, chars.len()), s.parse::<u32>().ok(), "{}", s);
    }
}

#[test]
fn searching() {
    let text = chars_of("密码 abcabc");
    assert_eq!(find(&text, "abc"), Some(3));
    assert_eq!(find(&text, "bca"), Some(4));
    assert_eq!(find(&text, ""), Some(0));
    assert_eq!(find(&text, "abcabcabc"), None);
    assert!(contains(&text, "码 a"));
    assert!(!contains(&text, "ac"));
}

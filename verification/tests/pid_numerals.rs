use aware::numerals::{format_i32, format_u32, parse_u32};

#[test]
fn format_small_values() {
    assert_eq!(format_u32(0), "0");
    assert_eq!(format_u32(7), "7");
    assert_eq!(format_u32(42), "42");
    assert_eq!(format_u32(1000), "1000");
}

#[test]
fn format_largest_value() {
    assert_eq!(format_u32(u32::MAX), "4294967295");
}

#[test]
fn format_signed_values() {
    assert_eq!(format_i32(0), "0");
    assert_eq!(format_i32(3), "3");
    assert_eq!(format_i32(-1), "-1");
    assert_eq!(format_i32(i32::MIN), "-2147483648");
}

#[test]
fn parse_plain_numerals() {
    assert_eq!(parse_u32("0"), Some(0));
    assert_eq!(parse_u32("1234"), Some(1234));
    assert_eq!(parse_u32("4294967295"), Some(u32::MAX));
}

#[test]
fn parse_ignores_surrounding_whitespace() {
    assert_eq!(parse_u32(" 42\n"), Some(42));
    assert_eq!(parse_u32("\t7 "), Some(7));
    assert_eq!(parse_u32("99\r\n"), Some(99));
}

#[test]
fn parse_rejects_empty_content() {
    assert_eq!(parse_u32(""), None);
    assert_eq!(parse_u32("   \n"), None);
}

#[test]
fn parse_rejects_corrupt_content() {
    assert_eq!(parse_u32("12a"), None);
    assert_eq!(parse_u32("a12"), None);
    assert_eq!(parse_u32("12 34"), None);
    assert_eq!(parse_u32("-5"), None);
    assert_eq!(parse_u32("garbage"), None);
}

#[test]
fn parse_rejects_overflow() {
    assert_eq!(parse_u32("4294967296"), None);
    assert_eq!(parse_u32("99999999999999999999"), None);
}

#[test]
fn pid_round_trip() {
    for pid in [0u32, 1, 9, 10, 4321, 65535, u32::MAX] {
        let written = format_u32(pid);
        assert_eq!(parse_u32(&written), Some(pid));
        let with_newline = format!("{}\n", written);
        assert_eq!(parse_u32(&with_newline), Some(pid));
    }
}

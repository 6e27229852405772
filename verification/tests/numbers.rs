use image_rs::numbers::{fmt_i64, fmt_u64, parse_i32, parse_u32, parse_u64};
use image_rs::text::{ascii_lowercase, split_char, split_once_or_all, trim_chars, trim_leading_slashes};

#[test]
fn decimal_parsing_follows_std() {
    assert_eq!(parse_u32("42"), Some(42));
    assert_eq!(parse_u32("+42"), Some(42));
    assert_eq!(parse_u32("+"), None);
    assert_eq!(parse_u32(""), None);
    assert_eq!(parse_u32("-1"), None);
    assert_eq!(parse_u32("4294967295"), Some(u32::MAX));
    assert_eq!(parse_u32("4294967296"), None);
    assert_eq!(parse_u64("18446744073709551615"), Some(u64::MAX));
    assert_eq!(parse_i32("-2147483648"), Some(i32::MIN));
    assert_eq!(parse_i32("2147483648"), None);
    assert_eq!(parse_i32("-"), None);
    assert_eq!(parse_i32("1.5"), None);
}

#[test]
fn decimal_formatting() {
    assert_eq!(fmt_u64(0), "0");
    assert_eq!(fmt_u64(u64::MAX), "18446744073709551615");
    assert_eq!(fmt_i64(-12), "-12");
    assert_eq!(fmt_i64(i64::MIN), "-9223372036854775808");
}

#[test]
fn text_helpers() {
    assert_eq!(ascii_lowercase("AbC-É"), "abc-É");
    assert_eq!(split_char("a,,b", ','), vec!["a", "", "b"]);
    assert_eq!(split_once_or_all("w_10_2", '_'), ("w", "10_2"));
    assert_eq!(split_once_or_all("flag", '_'), ("flag", ""));
    assert_eq!(trim_chars(" \t x y \n", false), "x y");
    assert_eq!(trim_chars("//a/b//", true), "a/b");
    assert_eq!(trim_leading_slashes("//a/"), "a/");
}

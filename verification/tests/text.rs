use chargecap::text;

#[test]
fn numbers_are_written_in_their_base() {
    assert_eq!(text::decimal_text(0), "0");
    assert_eq!(text::decimal_text(u64::MAX), "18446744073709551615");
    assert_eq!(text::decimal_padded_text(7, 2), "07");
    assert_eq!(text::decimal_padded_text(12345, 4), "12345");
    assert_eq!(text::hex_padded_text(0xab, 8), "000000ab");
    assert_eq!(text::truth_text(true), "true");
    assert_eq!(text::truth_text(false), "false");
}

#[test]
fn numbers_read_back() {
    assert_eq!(text::parse_decimal("255", 255), Some(255));
    assert_eq!(text::parse_decimal("256", 255), None);
    assert_eq!(text::parse_decimal("+7", 255), Some(7));
    assert_eq!(text::parse_decimal("+", 255), None);
    assert_eq!(text::parse_decimal("-7", 255), None);
    assert_eq!(text::parse_decimal("", 255), None);
    assert_eq!(text::parse_decimal("0007", 255), Some(7));
    assert_eq!(text::parse_decimal("18446744073709551615", u64::MAX), Some(u64::MAX));
    assert_eq!(text::parse_decimal("18446744073709551616", u64::MAX), None);
    for n in [0, 9, 10, 99, 1_000_000_007] {
        assert_eq!(text::parse_decimal(&text::decimal_text(n), u64::MAX), Some(n));
    }
}

#[test]
fn white_space_is_the_unicode_property() {
    for n in 0..0x11_0000u32 {
        if let Some(c) = char::from_u32(n) {
            assert_eq!(text::is_white_space(c), c.is_whitespace(), "U+{n:04X}");
        }
    }
    assert_eq!(text::trim("\u{3000} a b\t\n"), "a b");
    assert_eq!(text::trim_tail(" a \r\n"), " a");
    assert_eq!(text::trim(" \n"), "");
}

#[test]
fn texts_are_joined_and_cut() {
    assert_eq!(text::text2("a", "b"), "ab");
    assert_eq!(text::text5("a", "b", "c", "d", "e"), "abcde");
    assert_eq!(text::join(&vec!["a".to_string(), "".to_string(), "b".to_string()], '.'), "a..b");
    assert_eq!(text::replace_char("a'b'", '\'', "__"), "a__b__");
    assert_eq!(text::strip_prefix("preset:80", "preset:").as_deref(), Some("80"));
    assert_eq!(text::strip_prefix("pre", "preset:"), None);
    assert!(text::ends_with("a.dmg", ".dmg"));
    assert!(!text::ends_with("dmg", ".dmg"));
    assert!(text::same_text("é", "é"));
    assert!(!text::same_text("a", "b"));
}

use eee::text::{to_decimal, to_wide};

#[test]
fn wide_strings_end_in_zero() {
    assert_eq!(to_wide(""), vec![0]);
    assert_eq!(to_wide("eee"), vec![0x65, 0x65, 0x65, 0]);
}

#[test]
fn wide_strings_use_one_unit_up_to_ffff() {
    assert_eq!(to_wide("\u{2014}"), vec![0x2014, 0]);
    assert_eq!(to_wide("\u{D7FF}\u{E000}\u{FFFF}"), vec![0xD7FF, 0xE000, 0xFFFF, 0]);
}

#[test]
fn wide_strings_use_surrogates_beyond() {
    assert_eq!(to_wide("\u{10000}"), vec![0xD800, 0xDC00, 0]);
    assert_eq!(to_wide("a\u{1F600}b"), vec![0x61, 0xD83D, 0xDE00, 0x62, 0]);
    assert_eq!(to_wide("\u{10FFFF}"), vec![0xDBFF, 0xDFFF, 0]);
}

#[test]
fn wide_strings_agree_with_std() {
    for text in ["", "eee", "C:\\Users\\J\u{fc}rgen\\AppData", "\u{1F468}\u{200D}\u{1F469}", "a\0b"] {
        let mut units: Vec<u16> = text.encode_utf16().collect();
        units.push(0);
        assert_eq!(to_wide(text), units);
    }
}

#[test]
fn a_nul_character_is_an_inner_zero() {
    assert_eq!(to_wide("a\0b"), vec![0x61, 0, 0x62, 0]);
}

#[test]
fn different_texts_have_different_wide_strings() {
    assert_ne!(to_wide("\u{10000}"), to_wide("\u{10001}"));
    assert_ne!(to_wide("e"), to_wide("ee"));
}

#[test]
fn decimals_have_no_leading_zeros() {
    assert_eq!(to_decimal(0), "0");
    assert_eq!(to_decimal(7), "7");
    assert_eq!(to_decimal(10), "10");
    assert_eq!(to_decimal(1009), "1009");
    assert_eq!(to_decimal(4294967295), "4294967295");
}

#[test]
fn decimals_read_back() {
    for n in [0u32, 1, 9, 10, 99, 100, 12345, 987654321] {
        assert_eq!(to_decimal(n).parse::<u32>(), Ok(n));
    }
}

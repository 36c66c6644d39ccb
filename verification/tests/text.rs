use fggb::text::{contains_text, decimal_text, is_blank, parse_decimal};

#[test]
fn decimal_text_spells_numbers() {
    assert_eq!(decimal_text(0), "0");
    assert_eq!(decimal_text(7), "7");
    assert_eq!(decimal_text(10), "10");
    assert_eq!(decimal_text(6699), "6699");
    assert_eq!(decimal_text(u64::MAX), "18446744073709551615");
}

#[test]
fn decimal_text_reads_back() {
    let numbers: [u64; 6] = [0, 9, 10, 99, 1_234_567_890, u64::MAX];
    for number in numbers {
        assert_eq!(parse_decimal(&decimal_text(number), u64::MAX), Some(number));
    }
}

#[test]
fn different_numbers_are_spelled_differently() {
    assert_ne!(decimal_text(1), decimal_text(10));
    assert_ne!(decimal_text(11), decimal_text(101));
}

#[test]
fn parse_decimal_agrees_with_std() {
    let texts: [&str; 18] = [
        "", "+", "-", "0", "+0", "-0", "+7", "++7", "007", "12a", "a12", " 12", "12 ", "1_000",
        "4294967295", "4294967296", "99999999999999999999", "١",
    ];
    for text in texts {
        let by_std: Option<u64> = text.parse::<u32>().ok().map(u64::from);
        assert_eq!(parse_decimal(text, u64::from(u32::MAX)), by_std, "{text:?}");
        assert_eq!(parse_decimal(text, u64::MAX), text.parse::<u64>().ok(), "{text:?}");
    }
}

#[test]
fn parse_decimal_keeps_to_the_bound() {
    assert_eq!(parse_decimal("18446744073709551615", u64::MAX), Some(u64::MAX));
    assert_eq!(parse_decimal("18446744073709551616", u64::MAX), None);
    assert_eq!(parse_decimal("10", 10), Some(10));
    assert_eq!(parse_decimal("11", 10), None);
    assert_eq!(parse_decimal("0000000000000000000000000000011", 11), Some(11));
}

#[test]
fn blank_texts_hold_only_white_space() {
    assert!(is_blank(""));
    assert!(is_blank(" \t\r\n\u{b}\u{c}"));
    assert!(!is_blank("  x "));
    assert!(!is_blank("\u{200b}"));
    assert!(!is_blank("\u{feff}"));
}

#[test]
fn white_space_is_what_unicode_says() {
    for code in 0u32..0x11_0000 {
        if let Some(c) = char::from_u32(code) {
            let listed = matches!(
                code,
                0x9..=0xd
                    | 0x20
                    | 0x85
                    | 0xa0
                    | 0x1680
                    | 0x2000..=0x200a
                    | 0x2028
                    | 0x2029
                    | 0x202f
                    | 0x205f
                    | 0x3000
            );
            assert_eq!(is_blank(&c.to_string()), listed, "{code:x}");
        }
    }
}

#[test]
fn contains_text_finds_parts() {
    assert!(contains_text("text/html, application/json;q=0.9", "application/json"));
    assert!(contains_text("application/json", "application/json"));
    assert!(contains_text("aab", "ab"));
    assert!(contains_text("anything", ""));
    assert!(contains_text("", ""));
    assert!(!contains_text("", "a"));
    assert!(!contains_text("application/jso", "application/json"));
    assert!(!contains_text("Application/JSON", "application/json"));
}

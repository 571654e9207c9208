use chartr_browser::text::{is_u16_text, is_whitespace, trimmed};

#[test]
fn white_space_is_unicode_white_space() {
    for c in (0..=0x10ffffu32).filter_map(char::from_u32) {
        assert_eq!(is_whitespace(c), c.is_whitespace(), "{:x}", c as u32);
    }
}

#[test]
fn port_numbers_parse_like_u16() {
    for text in [
        "", "0", "80", "+80", "-0", "+", "-", "65535", "65536", "0065535", "99999999999999999999",
        "8a", " 8", "८", "00",
    ] {
        let chars: Vec<char> = text.chars().collect();
        assert_eq!(is_u16_text(&chars), text.parse::<u16>().is_ok(), "{text:?}");
    }
}

#[test]
fn trimming_matches_str_trim() {
    for text in ["", "  ", " a b ", "\u{3000}x\u{2029}", "x"] {
        let chars: Vec<char> = text.chars().collect();
        let expected: Vec<char> = text.trim().chars().collect();
        assert_eq!(trimmed(&chars), expected);
    }
}

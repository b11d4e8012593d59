use foundry_compilers::text::{chars_of, decimal_text, has_at, is_whitespace_char, string_of, trimmed};

#[test]
fn characters_go_there_and_back() {
    let text = "a\u{e9}\u{4e2d}\u{1f600} b";
    let chars = chars_of(text);
    assert_eq!(chars, vec!['a', '\u{e9}', '\u{4e2d}', '\u{1f600}', ' ', 'b']);
    assert_eq!(string_of(&chars), text);
    assert_eq!(chars_of(""), Vec::<char>::new());
    assert_eq!(string_of(&[]), "");
}

#[test]
fn white_space_is_what_unicode_says() {
    for code in 0u32..0x3100 {
        if let Some(c) = char::from_u32(code) {
            assert_eq!(is_whitespace_char(c), c.is_whitespace(), "U+{:04X}", code);
        }
    }
    assert!(!is_whitespace_char('\u{200b}'));
    assert!(!is_whitespace_char('\u{feff}'));
    assert!(!is_whitespace_char('\u{10ffff}'));
}

#[test]
fn trimming_is_what_std_does() {
    for text in ["", " ", "a", " a", "a ", " a b ", "\n\t x \r\n", "\u{a0}x\u{3000}", " \u{200b} "] {
        let got = string_of(&trimmed(&chars_of(text)));
        assert_eq!(got, text.trim(), "{:?}", text);
    }
}

#[test]
fn patterns_are_found_where_they_stand() {
    let text = chars_of("pragma solidity");
    assert!(has_at(&text, 0, &chars_of("pragma")));
    assert!(has_at(&text, 7, &chars_of("solidity")));
    assert!(!has_at(&text, 8, &chars_of("solidity")));
    assert!(!has_at(&text, 1, &chars_of("pragma")));
    assert!(has_at(&text, 15, &chars_of("")));
    assert!(!has_at(&text, 16, &chars_of("")));
    assert!(!has_at(&text, usize::MAX, &chars_of("a")));
}

#[test]
fn numbers_are_written_in_decimal() {
    for n in [0u64, 1, 9, 10, 11, 99, 100, 101, 12345, 1_000_000, u64::MAX - 1, u64::MAX] {
        assert_eq!(decimal_text(n), n.to_string());
    }
}

use igm5000::text::{
    chars_of, control_char, digit_char, digit_of, parse_number, push_decimal, push_hex2, push_hex4,
    push_signed, split_at_char, split_lines, string_of, trimmed, white_space,
};

fn texts(parts: Vec<Vec<char>>) -> Vec<String> {
    parts.iter().map(string_of).collect()
}

#[test]
fn characters_are_sorted_as_the_standard_library_does() {
    for code in 0..=0x10ffffu32 {
        if let Some(c) = char::from_u32(code) {
            assert_eq!(white_space(c), c.is_whitespace(), "{code:x}");
            assert_eq!(control_char(c), c.is_control(), "{code:x}");
        }
    }
}

#[test]
fn lines_and_parts_come_apart_as_in_the_standard_library() {
    for text in ["", "\n", "a", "a\n", "a\r\nb", "a\n\nb\r", "\r\n\r\n", "x\ry\n"] {
        let expected: Vec<&str> = text.lines().collect();
        assert_eq!(texts(split_lines(&chars_of(text))), expected, "{text:?}");
    }
    for text in ["", ":", "a", "a:b", "a::b:", ":a"] {
        let expected: Vec<&str> = text.split(':').collect();
        assert_eq!(
            texts(split_at_char(&chars_of(text), ':')),
            expected,
            "{text:?}"
        );
    }
    for text in ["", " ", " a ", "\t a b\u{a0}", "a"] {
        assert_eq!(string_of(&trimmed(&chars_of(text))), text.trim());
    }
}

#[test]
fn numbers_are_written_as_the_standard_library_does() {
    for n in [0u64, 7, 10, 99, 100, 12345, u64::MAX] {
        let mut text = String::from("n=");
        push_decimal(&mut text, n);
        assert_eq!(text, format!("n={n}"));
    }
    for n in [0i32, -1, 5, i32::MIN, i32::MAX] {
        let mut text = String::new();
        push_signed(&mut text, n);
        assert_eq!(text, n.to_string());
    }
    for b in 0..=255u8 {
        let mut text = String::new();
        push_hex2(&mut text, b);
        assert_eq!(text, format!("{b:02x}"));
    }
    let mut text = String::new();
    push_hex4(&mut text, 0x2e);
    push_hex4(&mut text, 0xbeef);
    assert_eq!(text, "002ebeef");
    assert_eq!(digit_char(11), 'b');
}

#[test]
fn numbers_are_read_from_digits_alone() {
    assert_eq!(parse_number(&chars_of("0258A"), 16, 0xffff), Some(0x258a));
    assert_eq!(parse_number(&chars_of("10000"), 16, 0xffff), None);
    assert_eq!(parse_number(&chars_of("4294967295"), 10, u32::MAX), Some(u32::MAX));
    assert_eq!(parse_number(&chars_of("4294967296"), 10, u32::MAX), None);
    assert_eq!(parse_number(&chars_of(""), 10, 9), None);
    assert_eq!(parse_number(&chars_of("1a"), 10, 99), None);
    assert_eq!(parse_number(&chars_of("-1"), 10, 99), None);
    assert_eq!(digit_of('F', 16), Some(15));
    assert_eq!(digit_of('9', 8), None);
}

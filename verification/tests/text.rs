use spinal_tap::text::{
    chars_of, decimal_text, find_char, join_strings, split_chars, text_of, trim_chars, white_space,
};

#[test]
fn white_space_is_what_std_calls_so() {
    for code in 0..=0x10FFFF_u32 {
        if let Some(c) = char::from_u32(code) {
            assert_eq!(white_space(c), c.is_whitespace(), "{code:x}");
        }
    }
}

#[test]
fn numbers_are_written_in_decimals() {
    for n in [0, 1, 9, 10, 42, 100, 999, 1000, 65535, u64::MAX] {
        assert_eq!(decimal_text(n), n.to_string());
    }
}

#[test]
fn texts_are_split_like_strings() {
    for text in ["", "a", ",", "a,b", ",a,", "a,,b", "é,ß"] {
        let chars = chars_of(text);
        let pieces: Vec<String> = split_chars(&chars, ',').iter().map(|piece| text_of(piece)).collect();
        let expected: Vec<String> = text.split(',').map(|piece| piece.to_string()).collect();
        assert_eq!(pieces, expected);
    }
}

#[test]
fn texts_are_trimmed_like_strings() {
    for text in ["", " ", "a", " a", "a ", " \t a b \n", "\u{2003}x\u{85}"] {
        let chars = chars_of(text);
        assert_eq!(text_of(trim_chars(&chars)), text.trim());
    }
}

#[test]
fn characters_are_found_where_they_first_stand() {
    assert_eq!(find_char(&chars_of("a:b:c"), ':'), 1);
    assert_eq!(find_char(&chars_of("abc"), ':'), 3);
    assert_eq!(find_char(&chars_of(""), ':'), 0);
}

#[test]
fn strings_are_joined_with_a_separator() {
    let three = vec!["a".to_string(), String::new(), "c".to_string()];
    assert_eq!(join_strings(&three, ", "), "a, , c");
    assert_eq!(join_strings(&vec![], ", "), "");
    assert_eq!(join_strings(&vec!["x".to_string()], ", "), "x");
}

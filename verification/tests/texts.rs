use libplasmoid_updater::text::{
    contains, decimal_text, ends_with, join_lines, lines, parse_u32, same_text, starts_with,
    strip_prefix, to_chars, trim,
};

#[test]
fn lines_agree_with_the_standard_library() {
    for text in ["", "\n", "a", "a\n", "a\nb", "a\r\nb\r\n", "a\r", "a\r\r\nb", "\n\n", "\r\n\r"] {
        let expected: Vec<&str> = text.lines().collect();
        assert_eq!(lines(text), expected);
    }
}

#[test]
fn lines_are_joined() {
    let ab = vec!["a".to_string(), "".to_string(), "b".to_string()];
    assert_eq!(join_lines(&ab), "a\n\nb");
    assert_eq!(lines(&join_lines(&ab)), ab);
    assert_eq!(join_lines(&Vec::new()), "");
}

#[test]
fn trim_agrees_with_the_standard_library() {
    for text in ["", " ", "a b", "\t a\u{85}\n", "\u{a0}x\u{2003}", "\u{1680}", "\u{200b}z ", "\u{feff}q"] {
        assert_eq!(trim(text), text.trim());
    }
    for code in 0..0x3100u32 {
        if let Some(c) = char::from_u32(code) {
            let text = format!("{c}x{c}");
            assert_eq!(trim(&text), text.trim());
        }
    }
}

#[test]
fn parts_of_texts_are_found() {
    assert!(starts_with("größer", "grö") && !starts_with("größer", "gro"));
    assert!(ends_with("größer", "ßer") && !ends_with("r", "er"));
    assert!(contains("aab", "ab") && !contains("aab", "ba") && contains("", ""));
    assert_eq!(strip_prefix("prefix rest", "prefix "), "rest");
    assert_eq!(strip_prefix("rest", "prefix "), "rest");
    assert!(same_text("ä", "ä") && !same_text("ä", "a"));
    assert_eq!(to_chars("äb"), vec!['ä', 'b']);
}

#[test]
fn numbers_are_written_and_read() {
    for n in [0, 9, 10, 4_294_967_295, u64::MAX] {
        assert_eq!(decimal_text(n), n.to_string());
    }
    for text in ["0", "007", "+1", "4294967295", "4294967296", "", "+", "-0", "1 ", "٣", "99999999999999999999"] {
        assert_eq!(parse_u32(text), text.parse::<u32>().ok());
    }
}

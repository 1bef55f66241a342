use carrier::number::{decimal_text, parse_int};
use carrier::text::{
    chars_of, concat_text, find_last, has_part, has_prefix, has_suffix, is_white_space,
    lower_chars, same_text, split_chars, text_of, trim_chars, without_prefix, Padding,
};

#[test]
fn white_space_is_that_of_unicode() {
    for code in 0..=0x10ffff {
        if let Some(c) = char::from_u32(code) {
            assert_eq!(is_white_space(c), c.is_whitespace(), "{code:x}");
        }
    }
}

#[test]
fn text_and_characters() {
    for text in ["", "abc", "\u{e9}\u{1f600} x"] {
        assert_eq!(text_of(&chars_of(text)), text);
        assert_eq!(chars_of(text), text.chars().collect::<Vec<char>>());
    }
    assert_eq!(concat_text("a", "\u{e9}"), "a\u{e9}");
    assert!(same_text("ab", "ab"));
    assert!(!same_text("ab", "aB"));
    assert!(!same_text("ab", "abc"));
}

#[test]
fn trimming() {
    for text in ["", " ", " a ", "\t a b \u{2029}", "..a..", ".", "a"] {
        let chars = chars_of(text);
        assert_eq!(text_of(&trim_chars(&chars, Padding::WhiteSpace)), text.trim());
        assert_eq!(text_of(&trim_chars(&chars, Padding::Dots)), text.trim_matches('.'));
    }
}

#[test]
fn lowering_is_for_ascii() {
    for text in ["ABC xyz", "\u{c9}A", "[@Z"] {
        assert_eq!(text_of(&lower_chars(&chars_of(text))), text.to_ascii_lowercase());
    }
}

#[test]
fn parts_of_texts() {
    let texts = ["", "a", "ab", "abab", "b.a.b", "."];
    for text in texts {
        for part in texts {
            let (t, p) = (chars_of(text), chars_of(part));
            assert_eq!(has_prefix(&t, &p), text.starts_with(part));
            assert_eq!(has_suffix(&t, &p), text.ends_with(part));
            assert_eq!(has_part(&t, &p), text.contains(part));
            assert_eq!(
                without_prefix(&t, &p).map(|rest| text_of(&rest)).as_deref(),
                text.strip_prefix(part)
            );
        }
        let split: Vec<String> = split_chars(&chars_of(text), '.').iter().map(text_of).collect();
        assert_eq!(split, text.split('.').collect::<Vec<&str>>());
        assert_eq!(find_last(&chars_of(text), 'b'), text.rfind('b'));
    }
}

#[test]
fn numbers_are_written_and_read_back() {
    for n in [0, 9, 10, 99, 100, 1048576, i64::MAX as u64] {
        assert_eq!(decimal_text(n), n.to_string());
        assert_eq!(parse_int(&chars_of(&decimal_text(n))), Some(n as i64));
    }
    assert_eq!(decimal_text(u64::MAX), "18446744073709551615");
    assert_eq!(parse_int(&chars_of("-9223372036854775808")), Some(i64::MIN));
    assert_eq!(parse_int(&chars_of("18446744073709551615")), None);
    assert_eq!(parse_int(&chars_of("1 ")), None);
}

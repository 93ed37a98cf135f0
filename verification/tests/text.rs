use policy_local::split::split_at_first;
use policy_local::text::{
    begins_with, chars_of, decimal_text, has_char, is_blank_text, is_space_char, lines_of,
    parse_usize_text, same_text, same_text_but_case, split_text, trim_text,
};

const SAMPLES: [&str; 14] = [
    "",
    " ",
    "a",
    "?",
    "a?b?c",
    "??",
    "é?ü",
    "日本?語\u{1F600}?",
    " \t a b \u{3000}",
    "\r\n",
    "a\nb\r\nc",
    "a\n\n\r\n b \r",
    "\n",
    "last=5&x=é",
];

#[test]
fn white_space_is_that_of_unicode() {
    for c in '\0'..=char::MAX {
        assert_eq!(is_space_char(c), c.is_whitespace(), "{c:?}");
    }
}

#[test]
fn splitting_agrees_with_std() {
    for text in SAMPLES {
        for c in ['?', '=', '&', '\n', 'a', '\0', '\u{7f}'] {
            assert_eq!(split_at_first(text, c), text.split_once(c));
            assert_eq!(split_text(text, c), text.split(c).collect::<Vec<_>>());
            assert_eq!(has_char(text, c), text.contains(c));
        }
    }
}

#[test]
fn lines_agree_with_std() {
    for text in SAMPLES {
        assert_eq!(lines_of(text), text.lines().collect::<Vec<_>>());
    }
    assert_eq!(lines_of("a\r"), ["a\r"]);
    assert_eq!(lines_of("a\r\r\nb"), ["a\r", "b"]);
}

#[test]
fn trimming_agrees_with_std() {
    for text in SAMPLES {
        assert_eq!(trim_text(text), text.trim());
        assert_eq!(is_blank_text(text), text.trim().is_empty());
    }
    assert_eq!(trim_text("\u{a0}\u{2028} x\u{200b} \u{85}"), "x\u{200b}");
}

#[test]
fn comparing_agrees_with_std() {
    for a in SAMPLES {
        assert_eq!(chars_of(a), a.chars().collect::<Vec<_>>());
        for b in SAMPLES {
            assert_eq!(same_text(a, b), a == b);
            assert_eq!(begins_with(a, b), a.starts_with(b));
        }
    }
    assert!(same_text_but_case("Content-LENGTH", "content-length"));
    assert!(!same_text_but_case("content_length", "content-length"));
    assert!(!same_text_but_case("content-lengthy", "content-length"));
    assert!(!same_text_but_case("[", "{"));
    assert!(!same_text_but_case("É", "é"));
    assert!(!same_text_but_case("\u{212a}", "k"));
}

#[test]
fn numbers_agree_with_std() {
    for text in [
        "", "0", "7", "007", "+7", "-7", "++7", "+", "7 ", " 7", "1_0", "0x1", "٣",
        "18446744073709551615", "18446744073709551616", "99999999999999999999999",
    ] {
        assert_eq!(parse_usize_text(text), text.parse::<usize>().ok(), "{text}");
    }
    for n in [0, 9, 10, 99, 100, 65536, 1234567890, usize::MAX] {
        assert_eq!(decimal_text(n), n.to_string());
        assert_eq!(parse_usize_text(&decimal_text(n)), Some(n));
    }
}

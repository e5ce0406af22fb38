use borneo::text::{decimal_text, first_word_before_dash, lines, white};

#[test]
fn white_space_is_that_of_the_standard_library() {
    for n in 0..=0x10ffffu32 {
        if let Some(c) = char::from_u32(n) {
            assert_eq!(white(c), c.is_whitespace(), "{n:x}");
        }
    }
}

#[test]
fn first_word_stops_at_a_dash() {
    assert_eq!(first_word_before_dash("1.9.0-release-358"), Some("1.9.0".to_string()));
    assert_eq!(first_word_before_dash(" \n\t2.0.21\nmore"), Some("2.0.21".to_string()));
    assert_eq!(first_word_before_dash("word"), Some("word".to_string()));
}

#[test]
fn first_word_may_be_empty_before_its_dash() {
    assert_eq!(first_word_before_dash("-x y"), Some(String::new()));
    assert_eq!(first_word_before_dash("  - y"), Some(String::new()));
}

#[test]
fn white_space_alone_holds_no_word() {
    assert_eq!(first_word_before_dash(""), None);
    assert_eq!(first_word_before_dash(" \r\n\u{a0}\u{3000}"), None);
}

#[test]
fn lines_are_those_of_the_standard_library() {
    let texts = [
        "", "\n", "a", "a\n", "a\nb", "a\r\nb\r\n", "a\r", "\r", "\r\n", "\n\n", "a\rb\n", "a\r\r\nb",
        "\r\r", "é\nü\r\n\u{1f980}", "a\n\nb\n\n",
    ];
    for text in texts {
        let expected: Vec<String> = text.lines().map(String::from).collect();
        assert_eq!(lines(text), expected, "{text:?}");
    }
}

#[test]
fn lines_hold_no_line_feed_on_values() {
    for line in lines("one\ntwo\r\n\nthree\r") {
        assert!(!line.contains('\n'));
    }
    assert_eq!(lines("one\ntwo\r\n\nthree\r"), vec!["one", "two", "", "three\r"]);
}

#[test]
fn numbers_are_written_in_decimal() {
    for n in [0usize, 1, 9, 10, 11, 99, 100, 101, 12345678909, usize::MAX] {
        assert_eq!(decimal_text(n), n.to_string());
    }
}

use ghosttype::text::{
    char_is_whitespace, chars_of, contains_chars, is_blank_str, line_chars, split_newline_chars,
    starts_with_chars, string_of, trim_chars,
};

fn trim(s: &str) -> String {
    string_of(&trim_chars(&chars_of(s)))
}

fn lines(s: &str) -> Vec<String> {
    line_chars(&chars_of(s)).iter().map(string_of).collect()
}

fn pieces(s: &str) -> Vec<String> {
    split_newline_chars(&chars_of(s)).iter().map(string_of).collect()
}

#[test]
fn whitespace_is_what_the_standard_library_calls_whitespace() {
    let mut code: u32 = 0;
    while code <= 0x10FFFF {
        if let Some(c) = char::from_u32(code) {
            assert_eq!(char_is_whitespace(c), c.is_whitespace(), "U+{:04X}", code);
        }
        code += 1;
    }
}

#[test]
fn chars_and_strings_round_trip() {
    for s in ["", "a", "git status", "naïve → ✓", "line\nbreak"] {
        assert_eq!(chars_of(s), s.chars().collect::<Vec<char>>());
        assert_eq!(string_of(&chars_of(s)), s);
    }
}

#[test]
fn trimming_agrees_with_the_standard_library() {
    for s in ["", " ", "a", "  a b  ", "\t\n x \r\n", "\u{3000}x\u{a0}", "x  ", "  x", " \u{2003} "] {
        assert_eq!(trim(s), s.trim());
        assert_eq!(is_blank_str(s), s.trim().is_empty());
    }
}

#[test]
fn lines_agree_with_the_standard_library() {
    for s in [
        "", "a", "a\n", "a\nb", "a\n\nb", "\n", "\n\n", "a\r\nb\r\n", "a\r", "a\r\n", "\r\n",
        "a\rb\n", "x\n\r", "tail\n\n",
    ] {
        let expected: Vec<String> = s.lines().map(|l| l.to_string()).collect();
        assert_eq!(lines(s), expected, "{:?}", s);
        let split: Vec<String> = s.split('\n').map(|l| l.to_string()).collect();
        assert_eq!(pieces(s), split, "{:?}", s);
    }
}

#[test]
fn prefixes_and_substrings() {
    let text = chars_of("llama_model ms / tok");
    assert!(starts_with_chars(&text, &chars_of("llama_")));
    assert!(starts_with_chars(&text, &chars_of("")));
    assert!(!starts_with_chars(&text, &chars_of("lama")));
    assert!(!starts_with_chars(&chars_of("ll"), &chars_of("llama_")));
    assert!(contains_chars(&text, &chars_of("ms / ")));
    assert!(contains_chars(&text, &chars_of("tok")));
    assert!(contains_chars(&text, &chars_of("")));
    assert!(contains_chars(&chars_of(""), &chars_of("")));
    assert!(!contains_chars(&text, &chars_of("tok/s")));
    assert!(!contains_chars(&chars_of("ab"), &chars_of("abc")));
}

use test_runner::text::{
    chars_of, find_first_word, find_from, find_last, is_whitespace, push_decimal, same_chars,
    same_text, string_of, strip_prefix, trim, trim_end, trim_end_of, trim_start,
};

#[test]
fn whitespace_is_that_of_unicode() {
    for code in 0..=0x10ffffu32 {
        if let Some(c) = char::from_u32(code) {
            assert_eq!(is_whitespace(c), c.is_whitespace(), "{code:x}");
        }
    }
}

#[test]
fn strings_and_characters_convert() {
    for text in ["", "a", "größe", "日本語 \u{1f600}"] {
        let chars = chars_of(text);
        assert_eq!(chars, text.chars().collect::<Vec<char>>());
        assert_eq!(string_of(&chars), text);
    }
}

#[test]
fn texts_are_compared_in_full() {
    assert!(same_text("", ""));
    assert!(same_text("größe", "größe"));
    assert!(!same_text("a", "ab"));
    assert!(!same_text("ab", "a"));
    assert!(!same_text("ab", "ac"));
    assert!(same_chars(&['a', 'b'], &['a', 'b']));
    assert!(!same_chars(&['a', 'b'], &['a', 'c']));
    assert!(!same_chars(&['a'], &[]));
}

#[test]
fn trimming_agrees_with_strings() {
    for text in ["", " ", "a", " a", "a ", " \t a b \u{2003}", "\u{85}x\u{a0}", "\u{200b}x"] {
        let chars = chars_of(text);
        assert_eq!(string_of(trim(&chars)), text.trim());
        assert_eq!(string_of(trim_start(&chars)), text.trim_start());
        assert_eq!(string_of(trim_end(&chars)), text.trim_end());
        assert_eq!(
            find_first_word(&chars).map(string_of),
            text.split_whitespace().next().map(|word| word.to_string())
        );
    }
    for text in ["", ",", "ok", "ok,", "ok,,", ",ok,x,,"] {
        assert_eq!(string_of(trim_end_of(&chars_of(text), ',')), text.trim_end_matches(','));
    }
}

#[test]
fn searching_agrees_with_strings() {
    for text in ["", ":", "::", ":::", "a::b::c", "a:b", "::a", "a::", "a::::b"] {
        let chars = chars_of(text);
        let pattern = [':', ':'];
        assert_eq!(find_from(&chars, &pattern, 0), text.find("::"));
        assert_eq!(find_last(&chars, &pattern), text.rfind("::"));
        assert_eq!(
            strip_prefix(&chars, &pattern).map(string_of),
            text.strip_prefix("::").map(|rest| rest.to_string())
        );
    }
    assert_eq!(find_from(&['a', 'b', 'a'], &['a'], 1), Some(2));
    assert_eq!(find_from(&['a'], &['a'], 5), None);
    assert_eq!(find_from(&[], &[], 0), Some(0));
    assert_eq!(find_last(&['a'], &[]), Some(1));
}

#[test]
fn numbers_are_written_in_decimal() {
    for n in [0, 7, 9, 10, 11, 99, 100, 1234567890, usize::MAX] {
        let mut text = "n = ".to_string();
        push_decimal(&mut text, n);
        assert_eq!(text, format!("n = {n}"));
    }
}

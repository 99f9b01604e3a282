use notes::text::{
    chars_of, equal, find, find_last, first_line, join_lines, replace, split_lines, string_of,
    strip_start, trim_bounds, whitespace,
};

fn texts(alphabet: &[char], longest: usize) -> Vec<String> {
    let mut all = vec![String::new()];
    let mut last = vec![String::new()];
    for _ in 0..longest {
        let mut next = Vec::new();
        for text in &last {
            for c in alphabet {
                let mut longer = text.clone();
                longer.push(*c);
                next.push(longer);
            }
        }
        all.extend(next.iter().cloned());
        last = next;
    }
    all
}

fn trimmed(text: &str) -> String {
    let chars = chars_of(text);
    let (from, to) = trim_bounds(&chars, 0, chars.len());
    string_of(&chars, from, to)
}

#[test]
fn chars_of_and_string_of_are_inverse() {
    let chars = chars_of("héllo wörld");
    assert_eq!(chars.len(), 11);
    assert_eq!(string_of(&chars, 0, chars.len()), "héllo wörld");
    assert_eq!(string_of(&chars, 1, 5), "éllo");
    assert_eq!(string_of(&chars, 3, 3), "");
}

#[test]
fn split_lines_splits_at_line_feeds() {
    assert_eq!(split_lines("a\nb\nc"), vec!["a", "b", "c"]);
    assert_eq!(split_lines("a\nb\nc\n"), vec!["a", "b", "c"]);
    assert_eq!(split_lines("a\n\nb\n\n"), vec!["a", "", "b", ""]);
    assert_eq!(split_lines("\n"), vec![""]);
    assert_eq!(split_lines(""), Vec::<String>::new());
    assert_eq!(split_lines("no line feed"), vec!["no line feed"]);
}

#[test]
fn split_lines_takes_a_carriage_return_before_a_line_feed() {
    assert_eq!(split_lines("a\r\nb\r\n"), vec!["a", "b"]);
    assert_eq!(split_lines("a\r\r\nb"), vec!["a\r", "b"]);
    assert_eq!(split_lines("a\rb\nc\r"), vec!["a\rb", "c\r"]);
    assert_eq!(split_lines("\r\n"), vec![""]);
}

#[test]
fn split_lines_agrees_with_std() {
    for text in ["", "\n", "a", "a\n", "a\r", "a\r\n", "\r", "\n\n", "a\nb\r\n\r\nc\r", "\r\n\r"] {
        let expected: Vec<String> = text.lines().map(String::from).collect();
        assert_eq!(split_lines(text), expected);
    }
}

#[test]
fn join_lines_ends_every_line() {
    let lines = vec![String::from("a"), String::new(), String::from("b")];
    assert_eq!(join_lines(&lines), "a\n\nb\n");
    assert_eq!(join_lines(&Vec::new()), "");
}

#[test]
fn joining_the_lines_of_a_normal_text_gives_it_back() {
    for text in ["", "\n", "a\n", "a\n\nb\n", "a\rb\n"] {
        assert_eq!(join_lines(&split_lines(text)), text);
    }
    assert_eq!(join_lines(&split_lines("a")), "a\n");
    assert_eq!(join_lines(&split_lines("a\r\n")), "a\n");
}

#[test]
fn first_line_is_the_first_of_the_lines() {
    assert_eq!(first_line("one\ntwo"), Some(String::from("one")));
    assert_eq!(first_line("one\r\ntwo"), Some(String::from("one")));
    assert_eq!(first_line("one\r"), Some(String::from("one\r")));
    assert_eq!(first_line("\nrest"), Some(String::new()));
    assert_eq!(first_line(""), None);
}

#[test]
fn strip_start_takes_the_prefix_off() {
    assert_eq!(strip_start("# Title", "# "), Some(String::from("Title")));
    assert_eq!(strip_start("#Title", "# "), None);
    assert_eq!(strip_start("# ", "# "), Some(String::new()));
    assert_eq!(strip_start("#", "# "), None);
    assert_eq!(strip_start("anything", ""), Some(String::from("anything")));
}

#[test]
fn equal_compares_characters() {
    assert!(equal("", ""));
    assert!(equal("abc", "abc"));
    assert!(!equal("abc", "abd"));
    assert!(!equal("abc", "ab"));
    assert!(!equal("ab", "abc"));
    assert!(!equal("", "a"));
}

#[test]
fn find_gives_the_first_and_find_last_the_end_of_the_last() {
    let chars = chars_of("a:b:c");
    assert_eq!(find(&chars, 0, 5, ':'), 1);
    assert_eq!(find(&chars, 2, 5, ':'), 3);
    assert_eq!(find(&chars, 4, 5, ':'), 5);
    assert_eq!(find(&chars, 0, 1, ':'), 1);
    assert_eq!(find_last(&chars, 0, 5, ':'), 4);
    assert_eq!(find_last(&chars, 0, 3, ':'), 2);
    assert_eq!(find_last(&chars, 0, 1, ':'), 0);
    assert_eq!(find_last(&chars, 4, 5, ':'), 4);
}

#[test]
fn whitespace_is_the_unicode_property() {
    for code in 0..=0x10FFFFu32 {
        if let Some(c) = char::from_u32(code) {
            assert_eq!(whitespace(c), c.is_whitespace(), "U+{:04X}", code);
        }
    }
}

#[test]
fn trim_takes_white_space_off_both_ends() {
    assert_eq!(trimmed("  a b \t\n"), "a b");
    assert_eq!(trimmed("\u{2003}x\u{85}"), "x");
    assert_eq!(trimmed("   "), "");
    assert_eq!(trimmed(""), "");
    assert_eq!(trimmed("x"), "x");
    for text in [" a ", "\u{a0}\u{1680}b\u{3000}", "\r\n", "a \u{200b} "] {
        assert_eq!(trimmed(text), text.trim());
    }
}

#[test]
fn replace_puts_the_new_text_at_every_occurrence() {
    assert_eq!(replace("a{x}b{x}c", "{x}", "--"), "a--b--c");
    assert_eq!(replace("{x}", "{x}", ""), "");
    assert_eq!(replace("nothing here", "{x}", "y"), "nothing here");
    assert_eq!(replace("", "{x}", "y"), "");
    assert_eq!(replace("{x", "{x}", "y"), "{x");
}

#[test]
fn replace_goes_from_left_to_right_without_overlap() {
    assert_eq!(replace("aaa", "aa", "b"), "ba");
    assert_eq!(replace("aaaa", "aa", "b"), "bb");
    assert_eq!(replace("abab", "ab", "ba"), "baba");
    assert_eq!(replace("{{x}}", "{x}", "{x}"), "{{x}}");
}

#[test]
fn replace_of_the_empty_text_goes_between_all_characters() {
    assert_eq!(replace("abc", "", "-"), "-a-b-c-");
    assert_eq!(replace("", "", "-"), "-");
}

#[test]
fn replace_agrees_with_std() {
    let cases = [
        ("hello world", "o", "0"),
        ("{title} | {notebook.title}", "{title}", "T"),
        ("ääää", "ää", "a"),
        ("abc", "abcd", "x"),
        ("xyz", "", "ab"),
    ];
    for (text, from, to) in cases {
        assert_eq!(replace(text, from, to), text.replace(from, to));
    }
}

#[test]
fn split_lines_agrees_with_std_on_all_short_texts() {
    for text in texts(&['a', '\n', '\r'], 7) {
        let expected: Vec<String> = text.lines().map(String::from).collect();
        assert_eq!(split_lines(&text), expected, "{:?}", text);
        assert_eq!(first_line(&text), expected.first().cloned(), "{:?}", text);
    }
}

#[test]
fn joining_gives_back_exactly_the_normal_texts() {
    for text in texts(&['a', '\n', '\r'], 7) {
        let normal = (text.is_empty() || text.ends_with('\n')) && !text.contains("\r\n");
        assert_eq!(join_lines(&split_lines(&text)) == text, normal, "{:?}", text);
    }
}

#[test]
fn replace_agrees_with_std_on_all_short_texts() {
    let patterns = texts(&['a', 'b'], 2);
    for text in texts(&['a', 'b'], 6) {
        for from in &patterns {
            for to in ["", "b", "ab"] {
                assert_eq!(replace(&text, from, to), text.replace(from.as_str(), to));
            }
        }
    }
}

#[test]
fn trim_agrees_with_std_on_all_short_texts() {
    for text in texts(&['a', ' ', '\n', '\u{a0}'], 5) {
        assert_eq!(trimmed(&text), text.trim(), "{:?}", text);
    }
}

use notes::front_matter::{split_line, split_yaml_pairs, strip_yaml};
use notes::text::is_delimiter;

fn strings(lines: &[&str]) -> Vec<String> {
    lines.iter().map(|line| line.to_string()).collect()
}

#[test]
fn strip_yaml_takes_the_header_off() {
    let mut input = String::from("---\nkey: value1\nkey2: value2\n---\nTest\n");
    let output = strip_yaml(&mut input);
    assert_eq!(output, vec!["key: value1", "key2: value2"]);
    assert_eq!(&input, "Test\n");
}

#[test]
fn strip_yaml_keeps_the_interior_lines_and_rejoins_the_rest() {
    let mut input = String::from("---\na: 1\n\nnot a pair\n---\nfirst\n\nthird");
    let header = strip_yaml(&mut input);
    assert_eq!(header, vec!["a: 1", "", "not a pair"]);
    assert_eq!(input, "first\n\nthird\n");
}

#[test]
fn strip_yaml_stops_at_the_first_closing_delimiter() {
    let mut input = String::from("---\na: 1\n---\nbody\n---\nmore\n");
    let header = strip_yaml(&mut input);
    assert_eq!(header, vec!["a: 1"]);
    assert_eq!(input, "body\n---\nmore\n");
}

#[test]
fn strip_yaml_without_opening_delimiter_leaves_the_text() {
    let mut input = String::from("# Title\n\nSome text\n");
    let header = strip_yaml(&mut input);
    assert!(header.is_empty());
    assert_eq!(input, "# Title\n\nSome text\n");
}

#[test]
fn strip_yaml_appends_the_missing_last_line_feed() {
    let mut input = String::from("one\ntwo");
    let header = strip_yaml(&mut input);
    assert!(header.is_empty());
    assert_eq!(input, "one\ntwo\n");
}

#[test]
fn strip_yaml_turns_crlf_into_lf() {
    let mut input = String::from("---\r\nkey: value\r\n---\r\nbody\r\n");
    let header = strip_yaml(&mut input);
    assert_eq!(header, vec!["key: value"]);
    assert_eq!(input, "body\n");
}

#[test]
fn strip_yaml_without_closing_delimiter_takes_everything() {
    let mut input = String::from("---\nkey: value\n# Title\ntext\n");
    let header = strip_yaml(&mut input);
    assert_eq!(header, vec!["key: value", "# Title", "text"]);
    assert_eq!(input, "");
}

#[test]
fn strip_yaml_delimiter_must_be_the_first_line() {
    let mut input = String::from("\n---\nkey: value\n---\n");
    let header = strip_yaml(&mut input);
    assert!(header.is_empty());
    assert_eq!(input, "\n---\nkey: value\n---\n");
}

#[test]
fn strip_yaml_delimiter_must_be_the_whole_line() {
    let mut input = String::from("--- \nkey: value\n---\n");
    let header = strip_yaml(&mut input);
    assert!(header.is_empty());
    assert_eq!(input, "--- \nkey: value\n---\n");
}

#[test]
fn strip_yaml_of_empty_text() {
    let mut input = String::new();
    let header = strip_yaml(&mut input);
    assert!(header.is_empty());
    assert_eq!(input, "");
}

#[test]
fn strip_yaml_of_a_lone_delimiter() {
    let mut input = String::from("---");
    let header = strip_yaml(&mut input);
    assert!(header.is_empty());
    assert_eq!(input, "");
}

#[test]
fn strip_yaml_of_an_empty_header() {
    let mut input = String::from("---\n---\nbody");
    let header = strip_yaml(&mut input);
    assert!(header.is_empty());
    assert_eq!(input, "body\n");
}

#[test]
fn is_delimiter_wants_exactly_three_dashes() {
    assert!(is_delimiter("---"));
    assert!(!is_delimiter("--"));
    assert!(!is_delimiter("----"));
    assert!(!is_delimiter(" ---"));
    assert!(!is_delimiter(""));
}

#[test]
fn split_yaml_pairs_reads_key_and_value() {
    let metadata = split_yaml_pairs(&strings(&["key: value1", "key2: value2"]));
    assert_eq!(metadata.len(), 2);
    assert_eq!(metadata.get("key").map(String::as_str), Some("value1"));
    assert_eq!(metadata.get("key2").map(String::as_str), Some("value2"));
    assert_eq!(metadata.get("value1"), None);
}

#[test]
fn split_yaml_pairs_skips_a_line_without_colon() {
    let metadata = split_yaml_pairs(&strings(&["not-a-pair"]));
    assert_eq!(metadata.len(), 0);
    assert!(!metadata.contains_key("not-a-pair"));
}

#[test]
fn split_yaml_pairs_later_line_wins() {
    let metadata = split_yaml_pairs(&strings(&["key: first", "other: x", "key: second"]));
    assert_eq!(metadata.len(), 2);
    assert_eq!(metadata.get("key").map(String::as_str), Some("second"));
    assert_eq!(metadata.key_at(0), "key");
    assert_eq!(metadata.key_at(1), "other");
}

#[test]
fn split_yaml_pairs_splits_at_the_first_colon_only() {
    let metadata = split_yaml_pairs(&strings(&["url: http://example.org/a:b"]));
    assert_eq!(metadata.get("url").map(String::as_str), Some("http://example.org/a:b"));
}

#[test]
fn split_yaml_pairs_keys_are_case_sensitive() {
    let metadata = split_yaml_pairs(&strings(&["Title: a", "title: b"]));
    assert_eq!(metadata.len(), 2);
    assert_eq!(metadata.get("Title").map(String::as_str), Some("a"));
    assert_eq!(metadata.get("title").map(String::as_str), Some("b"));
}

#[test]
fn split_line_trims_both_parts() {
    assert_eq!(
        split_line("  tags \t:\u{a0} #a #b \u{3000}"),
        Some((String::from("tags"), String::from("#a #b")))
    );
    assert_eq!(split_line(":"), Some((String::new(), String::new())));
    assert_eq!(split_line("key:"), Some((String::from("key"), String::new())));
    assert_eq!(split_line("no colon here"), None);
    assert_eq!(split_line(""), None);
}

#[test]
fn metadata_insert_and_remove() {
    let mut metadata = split_yaml_pairs(&strings(&["a: 1", "b: 2"]));
    assert_eq!(metadata.insert(String::from("a"), String::from("3")), Some(String::from("1")));
    assert_eq!(metadata.insert(String::from("c"), String::from("4")), None);
    assert_eq!(metadata.len(), 3);
    assert_eq!(metadata.remove("b"), Some(String::from("2")));
    assert_eq!(metadata.remove("b"), None);
    assert_eq!(metadata.len(), 2);
    assert_eq!(metadata.get("a").map(String::as_str), Some("3"));
    assert_eq!(metadata.get("c").map(String::as_str), Some("4"));
}

use docs_search::text::{ends_with, lines, starts_with};

fn std_lines(text: &str) -> Vec<String> {
    text.lines().map(|line| line.to_string()).collect()
}

#[test]
fn lines_of_plain_text() {
    assert_eq!(lines("one\ntwo\nthree"), vec!["one", "two", "three"]);
}

#[test]
fn last_line_feed_starts_no_line() {
    assert_eq!(lines("one\ntwo\n"), vec!["one", "two"]);
    assert_eq!(lines("\n"), vec![""]);
}

#[test]
fn empty_text_has_no_line() {
    assert!(lines("").is_empty());
}

#[test]
fn blank_lines_are_lines() {
    assert_eq!(lines("a\n\n\nb"), vec!["a", "", "", "b"]);
}

#[test]
fn carriage_return_before_line_feed_is_dropped() {
    assert_eq!(lines("a\r\nb\r\n"), vec!["a", "b"]);
    assert_eq!(lines("\r\n"), vec![""]);
}

#[test]
fn only_one_carriage_return_is_dropped() {
    assert_eq!(lines("a\r\r\nb"), vec!["a\r", "b"]);
}

#[test]
fn carriage_return_elsewhere_is_kept() {
    assert_eq!(lines("a\rb\nc\r"), vec!["a\rb", "c\r"]);
    assert_eq!(lines("\r"), vec!["\r"]);
}

#[test]
fn lines_agree_with_std() {
    let samples = [
        "",
        "\n",
        "\r",
        "\r\n",
        "\n\r",
        "a",
        "a\n",
        "a\r\n",
        "a\n\nb\n",
        "foo\nbar\n\r\nbaz\r",
        "\r\r\n\r",
        "x\r\ny\rz\r\n\r\n",
        "äö\r\nü → λ\n",
    ];
    for sample in samples {
        assert_eq!(lines(sample), std_lines(sample), "for {:?}", sample);
    }
}

#[test]
fn starts_with_a_marker() {
    assert!(starts_with("```rust", "```"));
    assert!(starts_with("```", "```"));
    assert!(!starts_with("``", "```"));
    assert!(!starts_with(" ```", "```"));
    assert!(starts_with("anything", ""));
    assert!(starts_with("", ""));
    assert!(!starts_with("", "#"));
    assert!(starts_with("äb", "ä"));
}

#[test]
fn ends_with_an_ending() {
    assert!(ends_with("docs/intro.mdx", ".mdx"));
    assert!(ends_with(".mdx", ".mdx"));
    assert!(!ends_with("mdx", ".mdx"));
    assert!(!ends_with("docs/intro.mdx.bak", ".mdx"));
    assert!(!ends_with("docs/intro.md", ".mdx"));
    assert!(ends_with("anything", ""));
    assert!(ends_with("", ""));
    assert!(ends_with("grüße", "üße"));
}

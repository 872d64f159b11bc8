use keel::text::lines;

#[test]
fn lines_keep_a_carriage_return_that_no_line_feed_follows() {
    assert_eq!(lines("a\r"), vec!["a\r".to_string()]);
    assert_eq!(lines("a\r\nb\r\n"), vec!["a".to_string(), "b".to_string()]);
    assert_eq!(lines("a\r\nb\r"), vec!["a".to_string(), "b\r".to_string()]);
    assert_eq!(lines("x\n\ny"), vec!["x".to_string(), "".to_string(), "y".to_string()]);
    assert!(lines("").is_empty());
    for s in ["a\r", "a\r\nb\r\n", "a\r\nb\r", "x\n\ny\n", "\r\n", "\r"] {
        let expected: Vec<String> = s.lines().map(|l| l.to_string()).collect();
        assert_eq!(lines(s), expected);
    }
}

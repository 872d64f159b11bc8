use keel::markdown::{render_document, render_inline, split_frontmatter_block, split_pipe_row};
use regex::Regex;

fn strip_ansi(value: &str) -> String {
    Regex::new(r"\x1b\[[0-9;]*[a-zA-Z]").unwrap().replace_all(value, "").into_owned()
}

#[test]
fn render_document_highlights_frontmatter_and_body() {
    let rendered = render_document("---\nid: FEAT0001\ntitle: Test Story\n---\n# Heading\n\nBody text.", 80);
    let plain = strip_ansi(&rendered);

    assert!(plain.contains("id: FEAT0001"));
    assert!(plain.contains("Heading"));
    assert!(plain.contains("Body text."));
    assert!(rendered.contains("\u{1b}["));
}

#[test]
fn render_document_formats_tables() {
    let rendered = render_document("| Name | Count |\n| --- | --- |\n| Alpha | 1 |\n| Beta | 22 |", 80);

    assert!(rendered.contains("Alpha"));
    assert!(rendered.contains("Beta"));
    assert!(rendered.contains("|"));
}

#[test]
fn render_document_formats_task_lists_and_code_fences() {
    let rendered = render_document("- [x] Done\n- [ ] Todo\n\n```rust\nfn main() {}\n```", 80);
    let plain = strip_ansi(&rendered);

    assert!(plain.contains('✓'));
    assert!(plain.contains('○'));
    assert!(plain.contains("fn main() {}"));
    assert!(!plain.contains("```"));
}

#[test]
fn render_document_formats_links() {
    let rendered = render_document("[README](README.md)", 80);
    assert!(rendered.contains("README (README.md)"));
}

#[test]
fn table_columns_are_padded_to_the_widest_cell() {
    let rendered = strip_ansi(&render_document("| Name | Count |\n| --- | --- |\n| Alpha | 1 |\n| Beta | 22 |", 80));
    let lines: Vec<&str> = rendered.lines().collect();
    assert_eq!(lines[0], "| Name  | Count |");
    assert_eq!(lines[1], "| ----- | ----- |");
    assert_eq!(lines[2], "| Alpha | 1     |");
    assert_eq!(lines[3], "| Beta  | 22    |");
}

#[test]
fn images_and_links_are_spelled_out() {
    assert_eq!(render_inline("see ![](a.png) and ![logo](b.svg)"), "see [image: a.png] and logo [image: b.svg]");
    assert_eq!(render_inline("[a]() [b](c) [](d)"), "[a]() b (c) [](d)");
}

#[test]
fn headings_quotes_lists_and_rules() {
    let plain = strip_ansi(&render_document("## Title ##\n>> quoted\n  3. third\n* item\n---", 10));
    let lines: Vec<&str> = plain.lines().collect();
    assert_eq!(lines[0], "Title");
    assert_eq!(lines[1], "│ │ quoted");
    assert_eq!(lines[2], "  3. third");
    assert_eq!(lines[3], "• item");
    assert_eq!(lines[4], "──────────");
}

#[test]
fn frontmatter_split_keeps_both_fence_lines() {
    let (fm, body) = split_frontmatter_block("---\nid: X\n---\nbody");
    assert_eq!(fm, Some("---\nid: X\n---\n".to_string()));
    assert_eq!(body, "body");
    let (fm, body) = split_frontmatter_block("---\nid: X\nno close");
    assert_eq!(fm, None);
    assert_eq!(body, "---\nid: X\nno close");
}

#[test]
fn pipe_rows_split_into_trimmed_cells() {
    assert_eq!(split_pipe_row(" | a |b| "), vec!["a".to_string(), "b".to_string()]);
}

use keel::show::{ShowBlock, ShowDocument, ShowKeyValues, ShowSection};

#[test]
fn show_key_values_aligns_labels() {
    let block = ShowKeyValues::new().with_min_label_width(8).row("ID:", "A1").row("Status:", "done");
    let mut lines = Vec::new();
    block.render_into(&mut lines);
    assert_eq!(lines[0], "ID:      A1");
    assert_eq!(lines[1], "Status:  done");
}

#[test]
fn show_document_renders_sections_and_spacers() {
    let mut doc = ShowDocument::new();
    doc.push_key_values(ShowKeyValues::new().row("Title:", "Sample"));
    doc.push_spacer();
    doc.push_rule(20);
    doc.push_spacer();
    let section = ShowSection::new("Details")
        .with_block(ShowBlock::Lines(vec!["  line one".to_string(), "  line two".to_string()]));
    doc.push_section(section);
    let rendered = doc.render();
    assert!(rendered.contains("Title: Sample"));
    assert!(rendered.contains("Details"));
    assert!(rendered.contains("  line one"));
    assert!(rendered.contains("  line two"));
    assert!(rendered.contains("\n\n"));
}

#[test]
fn show_key_values_optional_rows_only_render_when_present() {
    let block = ShowKeyValues::new()
        .with_min_label_width(8)
        .row_optional("Scope:", None::<String>)
        .row_optional("Type:", Some("feat".to_string()));
    let mut lines = Vec::new();
    block.render_into(&mut lines);
    assert_eq!(lines.len(), 1);
    assert_eq!(lines[0], "Type:    feat");
}

#[test]
fn show_section_push_labeled_bullets_renders_placeholder() {
    let mut section = ShowSection::new("Summary");
    section.push_labeled_bullets("Goals:", Vec::<String>::new(), Some("(not authored yet)"));
    let mut lines = Vec::new();
    section.render_into(&mut lines);
    assert!(lines[0].contains("Summary"));
    assert_eq!(lines[1], "  Goals: (not authored yet)");
}

#[test]
fn show_section_push_labeled_bullets_limited_truncates() {
    let mut section = ShowSection::new("Summary");
    section.push_labeled_bullets_limited(
        "Items:",
        vec!["A".to_string(), "B".to_string(), "C".to_string()],
        2,
        None,
    );
    let mut lines = Vec::new();
    section.render_into(&mut lines);
    assert_eq!(lines[1], "  Items:");
    assert_eq!(lines[2], "    - A");
    assert_eq!(lines[3], "    - B");
    assert_eq!(lines[4], "    - ... 1 more");
}

#[test]
fn show_section_push_labeled_text_block_places_value_under_label() {
    let mut section = ShowSection::new("Summary");
    section.push_labeled_text_block("Problem:", "Readable planning output");
    let mut lines = Vec::new();
    section.render_into(&mut lines);
    assert_eq!(lines[1], "  Problem:");
    assert_eq!(lines[2], "    Readable planning output");
}

#[test]
fn show_section_push_labeled_text_block_limited_adds_ellipsis_on_new_line() {
    let mut section = ShowSection::new("Summary");
    section.push_labeled_text_block_limited("Problem:", "One.\nStill one.\n\nTwo.\n\nThree.", 1);
    let mut lines = Vec::new();
    section.render_into(&mut lines);
    assert_eq!(lines[1], "  Problem:");
    assert_eq!(lines[2], "    One.");
    assert_eq!(lines[3], "    Still one.");
    assert_eq!(lines[4], "    ...");
}

#[test]
fn show_section_push_labeled_text_block_preserves_paragraph_breaks() {
    let mut section = ShowSection::new("Summary");
    section.push_labeled_text_block("Problem:", "First paragraph.\n\nSecond paragraph.");
    let mut lines = Vec::new();
    section.render_into(&mut lines);
    assert_eq!(lines[1], "  Problem:");
    assert_eq!(lines[2], "    First paragraph.");
    assert_eq!(lines[3], "");
    assert_eq!(lines[4], "    Second paragraph.");
}

#[test]
fn show_document_push_sections_spaced_inserts_single_blank_lines() {
    let mut doc = ShowDocument::new();
    doc.push_sections_spaced(vec![
        ShowSection::new("One").with_block(ShowBlock::Lines(vec!["  a".to_string()])),
        ShowSection::new("Two").with_block(ShowBlock::Lines(vec!["  b".to_string()])),
    ]);
    let rendered = doc.render();
    assert!(rendered.contains("\n  a\n\n"));
    assert!(rendered.contains("\n\n"));
    assert!(!rendered.contains("\n\n\n"));
}

#[test]
fn show_key_values_push_standard_timestamps_renders_present_values_only() {
    let mut block = ShowKeyValues::new().with_min_label_width(9);
    block.push_standard_timestamps(
        Some("2026-03-05T10:00:00".to_string()),
        None,
        Some("2026-03-05T12:00:00".to_string()),
        None,
    );
    let mut lines = Vec::new();
    block.render_into(&mut lines);
    assert_eq!(lines.len(), 2);
    assert!(lines[0].starts_with("Created:"));
    assert!(lines[1].starts_with("Updated:"));
}

#[test]
fn empty_document_renders_nothing() {
    assert_eq!(ShowDocument::new().render(), "");
    let mut doc = ShowDocument::new();
    doc.push_lines(vec!["x".to_string(), "".to_string()]);
    assert_eq!(doc.render(), "x\n");
}

use keel::frontmatter::{epic_from_fields, field, frontmatter_fields, parse_field_line, parse_u32, set_field,
    story_from_fields, voyage_from_fields};
use keel::model::{StoryState, StoryType, VoyageState};

const STORY: &str = "---\nid: FEAT0001\ntitle: \"Add login\"\ntype: bug\nstatus: in-progress\nscope: auth/01-login\nindex: 7\n---\n\n# Add login\n";

#[test]
fn frontmatter_fields_reads_key_value_lines() {
    let fields = frontmatter_fields(STORY);
    assert_eq!(fields.len(), 6);
    assert_eq!(fields[0], ("id".to_string(), "FEAT0001".to_string()));
    assert_eq!(fields[1], ("title".to_string(), "Add login".to_string()));
    assert_eq!(field(&fields, "status"), Some("in-progress".to_string()));
    assert_eq!(field(&fields, "missing"), None);
}

#[test]
fn document_without_frontmatter_has_no_fields() {
    assert!(frontmatter_fields("# Title\nstatus: done\n").is_empty());
    assert!(frontmatter_fields("---\nstatus: done\n").is_empty());
}

#[test]
fn parse_field_line_trims_and_unquotes() {
    assert_eq!(parse_field_line("  key :  \"v: x\" "), Some(("key".to_string(), "v: x".to_string())));
    assert_eq!(parse_field_line("no colon here"), None);
    assert_eq!(parse_field_line(": value"), None);
}

#[test]
fn set_field_replaces_an_existing_field() {
    let updated = set_field(STORY, "status", "done");
    assert!(updated.contains("status: done\n"));
    assert!(!updated.contains("in-progress"));
    assert!(updated.ends_with("# Add login\n"));
    assert_eq!(field(&frontmatter_fields(&updated), "status"), Some("done".to_string()));
}

#[test]
fn set_field_adds_a_missing_field_before_the_closing_line() {
    let updated = set_field("---\nid: X\n---\nbody", "started_at", "2026-01-01T10:00:00");
    assert_eq!(updated, "---\nid: X\nstarted_at: 2026-01-01T10:00:00\n---\nbody");
}

#[test]
fn set_field_leaves_a_document_without_frontmatter_alone() {
    assert_eq!(set_field("plain text\n", "status", "done"), "plain text\n");
}

#[test]
fn parse_u32_accepts_decimal_digits_only() {
    assert_eq!(parse_u32("42"), Some(42));
    assert_eq!(parse_u32("4294967295"), Some(4294967295));
    assert_eq!(parse_u32("4294967296"), None);
    assert_eq!(parse_u32(""), None);
    assert_eq!(parse_u32("4a"), None);
}

#[test]
fn story_from_fields_reads_a_story() {
    let fields = frontmatter_fields(STORY);
    let s = story_from_fields("FEAT0001", &fields).unwrap();
    assert_eq!(s.id, "FEAT0001");
    assert_eq!(s.title, "Add login");
    assert_eq!(s.stage, StoryState::InProgress);
    assert_eq!(s.story_type, StoryType::Bug);
    assert_eq!(s.scope.as_deref(), Some("auth/01-login"));
    assert_eq!(s.index, Some(7));
}

#[test]
fn story_from_fields_needs_a_known_status() {
    let fields = frontmatter_fields("---\nid: S1\nstatus: wandering\n---\n");
    assert_eq!(story_from_fields("S1", &fields).unwrap_err(), "Story S1 has no known status");
    let unknown_type = frontmatter_fields("---\nstatus: backlog\ntype: saga\n---\n");
    let s = story_from_fields("DIR1", &unknown_type).unwrap();
    assert_eq!(s.id, "DIR1");
    assert_eq!(s.story_type, StoryType::Feat);
}

#[test]
fn voyage_and_epic_from_fields() {
    let fields = frontmatter_fields("---\ntitle: First\nstatus: planned\nepic: e1\n---\n");
    let v = voyage_from_fields("01-first", "e1", &fields).unwrap();
    assert_eq!(v.id, "01-first");
    assert_eq!(v.status, VoyageState::Planned);
    assert_eq!(v.epic.as_deref(), Some("e1"));
    assert_eq!(v.epic_id, "e1");
    let bad = frontmatter_fields("---\nstatus: sailing\n---\n");
    assert_eq!(voyage_from_fields("v", "e", &bad).unwrap_err(), "Voyage v has no known status");
    let e = epic_from_fields("e1", &frontmatter_fields("---\ntitle: Epic One\nindex: 2\n---\n"));
    assert_eq!(e.id, "e1");
    assert_eq!(e.title, "Epic One");
    assert_eq!(e.index, Some(2));
}

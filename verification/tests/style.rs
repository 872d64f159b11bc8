use keel::ansi::visible_width;
use keel::model::StoryState;
use keel::style::{
    capacity_progress_bar, extract_requirement_ref, extract_verify_annotation, heavy_rule, progress_bar, rule,
    styled_ac, styled_epic_id, styled_evidence_entry, styled_inline_markdown, styled_scope, styled_stage,
    styled_story_id, styled_voyage_id, EvidenceEntry,
};

#[test]
fn extract_ref_parses_srs_format() {
    let (ref_part, rest) = extract_requirement_ref("[SRS-01/AC-01] Do the thing");
    assert_eq!(ref_part, Some("[SRS-01/AC-01]"));
    assert_eq!(rest, "Do the thing");
}

#[test]
fn extract_ref_returns_none_for_no_ref() {
    let (ref_part, rest) = extract_requirement_ref("Do the thing");
    assert!(ref_part.is_none());
    assert_eq!(rest, "Do the thing");
}

#[test]
fn extract_verify_parses_annotation() {
    let (desc, verify) = extract_verify_annotation("Do the thing <!-- verify: manual -->");
    assert_eq!(desc, "Do the thing");
    assert_eq!(verify, Some("manual"));
}

#[test]
fn extract_verify_returns_none_for_no_annotation() {
    let (desc, verify) = extract_verify_annotation("Do the thing");
    assert_eq!(desc, "Do the thing");
    assert!(verify.is_none());
}

#[test]
fn progress_bar_renders_complete() {
    let bar = progress_bar(5, 5, 10, None);
    assert!(bar.contains("5/5"));
}

#[test]
fn progress_bar_renders_partial() {
    let bar = progress_bar(3, 5, 10, None);
    assert!(bar.contains("3/5"));
}

#[test]
fn progress_bar_handles_zero_total() {
    assert_eq!(progress_bar(0, 0, 10, None), "");
}

#[test]
fn capacity_progress_bar_renders_segments() {
    let bar = capacity_progress_bar(2, 3, 10, 10, None);
    assert!(bar.contains('█'));
    assert!(bar.contains('▒'));
    assert!(bar.contains('░'));
}

#[test]
fn capacity_progress_bar_handles_zero_total() {
    let bar = capacity_progress_bar(0, 0, 0, 10, None);
    assert_eq!(bar, format!("[\x1b[2m{}\x1b[0m]", "░".repeat(10)));
}

#[test]
fn styled_ac_handles_checked() {
    let line = "- [x] [SRS-01/AC-01] Do the thing <!-- verify: manual -->";
    let result = styled_ac(line);
    assert!(result.contains('✓'));
    assert!(!result.contains("[x]"));
}

#[test]
fn styled_ac_handles_unchecked() {
    let line = "- [ ] Do the thing";
    let result = styled_ac(line);
    assert!(result.contains('○'));
}

#[test]
fn styled_ac_passes_through_non_ac_lines() {
    let line = "Some regular text";
    assert_eq!(styled_ac(line), "Some regular text");
}

fn entry(story_id: &str, criterion: &str, phase: &str) -> EvidenceEntry {
    EvidenceEntry {
        requirement_id: "SRS-01".into(),
        story_id: story_id.into(),
        story_title: "My Story".into(),
        criterion: criterion.into(),
        phase: phase.into(),
        proof: None,
    }
}

#[test]
fn styled_evidence_entry_start_has_cyan() {
    let result = styled_evidence_entry(&entry("ABC", "it works", "start"));
    assert!(result.contains(":start"));
    assert!(result.contains("ABC"));
    assert!(result.starts_with("\x1b[36m:start"));
}

#[test]
fn styled_evidence_entry_continues_is_dimmed() {
    let result = styled_evidence_entry(&entry("ABC", "more work", "continues"));
    assert!(result.contains(":continues"));
    assert!(result.starts_with("\x1b[2m:continues"));
    assert!(!result.contains("\x1b[36m"), "Should not use cyan for :continues");
}

#[test]
fn styled_evidence_entry_end_has_cyan() {
    let result = styled_evidence_entry(&entry("XYZ", "done", "end"));
    assert!(result.contains(":end"));
    assert!(result.starts_with("\x1b[36m:end"));
}

#[test]
fn rule_renders_correct_length() {
    let r = rule(10, None);
    assert_eq!(visible_width(&r), 10);
}

#[test]
fn heavy_rule_renders_correct_chars() {
    let r = heavy_rule(5, None);
    assert!(r.contains('═'));
    assert_eq!(visible_width(&r), 5);
}

#[test]
fn entity_id_styling_consistency() {
    let epic = styled_epic_id("EPIC-1");
    let voyage = styled_voyage_id("VOY-1");
    let story = styled_story_id("STORY-1");
    assert!(epic.contains("EPIC-1"));
    assert!(voyage.contains("VOY-1"));
    assert!(story.contains("STORY-1"));
    assert!(epic.contains("\x1b[1m"));
    assert!(voyage.contains("\x1b[1m"));
    assert!(story.contains("\x1b[1m"));
}

#[test]
fn styled_stage_colors() {
    assert!(styled_stage(&StoryState::InProgress).contains("\x1b[34m"));
    assert!(styled_stage(&StoryState::Done).contains("\x1b[32m"));
    assert!(styled_stage(&StoryState::Rejected).contains("\x1b[31m"));
}

#[test]
fn progress_bar_exact_cells() {
    assert_eq!(progress_bar(3, 5, 10, None), "\x1b[32m██████\x1b[39m\x1b[2m░░░░\x1b[0m 3/5");
}

#[test]
fn styled_scope_splits_epic_and_voyage() {
    assert_eq!(styled_scope(Some("e/v")), format!("{}/{}", styled_epic_id("e"), styled_voyage_id("v")));
    assert_eq!(styled_scope(None), "\x1b[2m-\x1b[0m");
}

#[test]
fn inline_markdown_colours_code_spans() {
    assert_eq!(styled_inline_markdown("run `keel` now"), "run \x1b[36mkeel\x1b[39m now");
    assert_eq!(styled_inline_markdown("plain"), "plain");
}

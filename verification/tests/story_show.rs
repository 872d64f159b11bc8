use keel::board::{Board, Epic, Voyage};
use keel::model::{StoryState, VoyageState};
use keel::planning_lineage::{
    format_scope_drift_row, format_scope_lineage_row, normalize_scope_description, ScopeDisposition, ScopeDriftRow,
    ScopeLineageIssue, ScopeLineageIssueKind, ScopeLineageRow,
};
use keel::requirements::{
    grouped_requirement_lines, requirement_lines, RequirementCompletion, RequirementKind, RequirementRow, StoryRef,
};
use keel::story::show::{
    count_story_acceptance_criteria, evidence_lines, extract_section, extract_story_body, parse_story_body_heading,
    story_body_lines, EvidenceItem, EvidenceReport, ProofMetadata,
};
use keel::style::styled_story_id;
use keel::voyage::new::{check_new_voyage, find_next_voyage_num};

#[test]
fn extract_body_works() {
    let content = "---\nid: test\n---\n\n# Body\n\nContent here.";
    let body = extract_story_body(content).unwrap();
    assert!(body.contains("# Body"));
    assert!(body.contains("Content here."));
}

#[test]
fn count_acs_counts_correctly() {
    let body = "## Acceptance Criteria\n\n- [x] Done\n- [ ] Not done\n- [x] Also done\n";
    let (checked, total) = count_story_acceptance_criteria(body);
    assert_eq!(checked, 2);
    assert_eq!(total, 3);
}

#[test]
fn test_extract_body() {
    let content = "---\nid: test\n---\nBody content";
    let section = extract_section(content, "## Missing");
    assert!(section.is_none());
}

#[test]
fn extract_section_stops_at_next_heading() {
    let content = "# Title\n\n## Goal\n\n Ship it. \nSoon.\n\n## Scope\nstuff\n";
    assert_eq!(extract_section(content, "## Goal").as_deref(), Some("Ship it. \nSoon."));
    assert_eq!(extract_section(content, "## Scope").as_deref(), Some("stuff"));
    assert_eq!(extract_story_body("---\nid: x\nno end"), None);
    assert_eq!(extract_story_body("plain").as_deref(), Some("plain"));
}

#[test]
fn headings_parse_levels_and_titles() {
    assert_eq!(parse_story_body_heading("## Goal "), Some((2, "Goal".to_string())));
    assert_eq!(parse_story_body_heading("####### Too deep"), None);
    assert_eq!(parse_story_body_heading("#NoSpace"), None);
    assert_eq!(parse_story_body_heading("# "), None);
}

#[test]
fn body_lines_render_criteria_headings_and_code() {
    let body = "# My Story\n\nIntro `x`\n## Notes\n\n- [ ] todo\n```zzz-unknown\nlet a = 1;\n```\n";
    let lines = story_body_lines(body, "my story", 4);
    assert_eq!(lines[0], "\x1b[2m────\x1b[0m");
    assert_eq!(lines[1], "Intro \x1b[36mx\x1b[39m");
    assert_eq!(lines[2], "\x1b[1mNotes\x1b[0m");
    assert!(lines[3].contains('○'));
    assert_eq!(lines[4], "\x1b[2mlet a = 1;\x1b[0m");
    assert_eq!(lines.len(), 5);
}

#[test]
fn body_lines_highlight_known_languages() {
    let lines = story_body_lines("```rust\nfn main() {}\n```", "t", 1);
    assert!(lines.len() >= 2);
    assert!(lines[1].contains("\x1b[38;2;"));
    assert!(lines.last().unwrap().ends_with("\x1b[0m"));
}

#[test]
fn evidence_lines_list_items_and_placeholders() {
    let empty = EvidenceReport {
        items: vec![],
        evidence_dir_missing: true,
        supplementary_artifacts: vec![],
        media_artifacts: vec![],
        missing_proofs: vec![],
    };
    let lines = evidence_lines("S1", &empty);
    assert_eq!(lines[0], "  \x1b[2m(no verify annotations found)\x1b[0m");
    assert_eq!(lines[1], "  \x1b[2m(EVIDENCE directory not found)\x1b[0m");
    assert_eq!(lines[2], "  Supplementary artifacts:");
    let report = EvidenceReport {
        items: vec![EvidenceItem {
            ac_label: None,
            criterion: "works".to_string(),
            mode: "manual".to_string(),
            command: None,
            requirement: Some("SRS-01".to_string()),
            proof_filename: None,
            requirements: vec!["SRS-01".to_string()],
            proof_metadata: ProofMetadata { recorded_at: None, mode: None, command: None },
            excerpt_lines: vec!["ok".to_string()],
            missing_proof: true,
        }],
        evidence_dir_missing: false,
        supplementary_artifacts: vec!["notes.md".to_string()],
        media_artifacts: vec!["demo.gif".to_string()],
        missing_proofs: vec!["a.log".to_string(), "b.log".to_string()],
    };
    let lines = evidence_lines("S1", &report);
    assert_eq!(lines[0], "  \x1b[36mAC-01\x1b[39m: works");
    assert_eq!(lines[1], "    Mode: manual");
    assert_eq!(lines[2], "    Requirement: SRS-01");
    assert_eq!(lines[3], "    Proof: (none linked)");
    assert_eq!(lines[4], "    Excerpt (1 lines):");
    assert_eq!(lines[5], "      ok");
    assert_eq!(lines[6], "    Warning: linked proof file is missing");
    assert_eq!(lines[8], "    - notes.md");
    assert_eq!(lines[11], "      Playback: ffplay -autoexit stories/S1/EVIDENCE/demo.gif");
    assert_eq!(lines[12], "  Missing proofs: a.log, b.log");
}

fn req(id: &str, kind: RequirementKind, completion: RequirementCompletion, linked: Vec<StoryRef>) -> RequirementRow {
    RequirementRow {
        id: id.to_string(),
        description: "Render grouped requirement output".to_string(),
        kind,
        linked_stories: linked,
        completion,
        verification: "automated (1)".to_string(),
    }
}

#[test]
fn grouped_requirements_render_functional_before_non_functional() {
    let mut nfr = req("SRS-NFR-01", RequirementKind::NonFunctional, RequirementCompletion::Queued, vec![]);
    nfr.description = "Meet latency budget".to_string();
    nfr.verification = "manual (1)".to_string();
    let rows = vec![
        nfr,
        req(
            "SRS-01",
            RequirementKind::Functional,
            RequirementCompletion::Done,
            vec![StoryRef { id: "S1".to_string(), stage: StoryState::Done, index: Some(1) }],
        ),
    ];
    let rendered = grouped_requirement_lines(&rows, "(none)").join("\n");
    let functional_idx = rendered.find("Functional Requirements").unwrap();
    let non_functional_idx = rendered.find("Non-Functional Requirements").unwrap();
    assert!(functional_idx < non_functional_idx);
}

#[test]
fn requirement_lines_render_inline_metadata_and_colored_story_ids() {
    let row = req(
        "SRS-01",
        RequirementKind::Functional,
        RequirementCompletion::Done,
        vec![StoryRef { id: "S1".to_string(), stage: StoryState::Done, index: Some(1) }],
    );
    let lines = requirement_lines(&row);
    assert_eq!(lines.len(), 2);
    assert!(lines[1].contains("Verification:"));
    assert!(lines[1].contains("| Linked Stories:"));
    assert!(lines[1].contains(&styled_story_id("S1")));
}

#[test]
fn requirement_matrix_placeholder_and_blank_line_between_groups() {
    assert_eq!(grouped_requirement_lines(&[], "(none)"), vec!["  \x1b[2m(none)\x1b[0m".to_string()]);
    let rows = vec![
        req("A", RequirementKind::Functional, RequirementCompletion::InProgress, vec![]),
        req("B", RequirementKind::NonFunctional, RequirementCompletion::Unmapped, vec![]),
    ];
    let lines = grouped_requirement_lines(&rows, "(none)");
    assert_eq!(lines[0], "\x1b[1mFunctional Requirements\x1b[0m");
    assert!(lines[1].starts_with("  \x1b[1m\x1b[33m[~]"));
    assert!(lines[2].ends_with("| Linked Stories: none"));
    assert_eq!(lines[3], "");
    assert_eq!(lines[4], "\x1b[1mNon-Functional Requirements\x1b[0m");
    assert_eq!(lines.len(), 7);
}

#[test]
fn scope_lineage_formatter_includes_parent_context_only_when_needed() {
    let row = ScopeLineageRow {
        scope_id: "SCOPE-01".to_string(),
        voyage_description: "Render lineage output.".to_string(),
        voyage_disposition: ScopeDisposition::In,
        epic_description: Some("Render lineage output.".to_string()),
        epic_disposition: Some(ScopeDisposition::In),
    };
    let rendered = format_scope_lineage_row(&row);
    assert!(rendered.contains("voyage in-scope; epic in-scope"));
    assert!(!rendered.contains("epic in-scope:"));
}

#[test]
fn scope_drift_formatter_includes_voyage_prefix_when_present() {
    let row = ScopeDriftRow {
        voyage_id: Some("v1".to_string()),
        issue: ScopeLineageIssue {
            artifact_path: "SRS.md".to_string(),
            scope_id: Some("SCOPE-02".to_string()),
            line: None,
            kind: ScopeLineageIssueKind::UnknownScopeRef,
        },
    };
    let rendered = format_scope_drift_row(&row);
    assert!(rendered.starts_with("`v1`:"));
    assert!(rendered.contains("unknown epic scope ID"));
}

#[test]
fn lineage_rows_show_differing_epic_text_and_unknown_epics() {
    let mut row = ScopeLineageRow {
        scope_id: "S".to_string(),
        voyage_description: "a  b".to_string(),
        voyage_disposition: ScopeDisposition::Out,
        epic_description: Some(" a b ".to_string()),
        epic_disposition: Some(ScopeDisposition::In),
    };
    assert_eq!(format_scope_lineage_row(&row), "`S`: a  b (voyage out-of-scope; epic in-scope)");
    row.epic_description = Some("other".to_string());
    assert_eq!(format_scope_lineage_row(&row), "`S`: a  b (voyage out-of-scope; epic in-scope: other)");
    row.epic_disposition = None;
    assert_eq!(format_scope_lineage_row(&row), "`S`: a  b (voyage out-of-scope; epic unknown)");
    assert_eq!(normalize_scope_description("  x \t y\n"), "x y");
    let legacy = ScopeDriftRow {
        voyage_id: None,
        issue: ScopeLineageIssue {
            artifact_path: "SRS.md".to_string(),
            scope_id: None,
            line: None,
            kind: ScopeLineageIssueKind::LegacyUntaggedScopePath,
        },
    };
    assert_eq!(format_scope_drift_row(&legacy), "legacy scope bullet: <unknown>");
}

#[test]
fn test_find_next_voyage_num() {
    let mut board = Board::new();
    board.epics.push(Epic { id: "test-epic".to_string(), title: "T".to_string(), index: None });
    for (id, index) in [("01-v1", 1u32), ("02-v2", 2u32)] {
        board.voyages.push(Voyage {
            id: id.to_string(),
            title: id.to_string(),
            status: VoyageState::Draft,
            epic: Some("test-epic".to_string()),
            epic_id: "test-epic".to_string(),
            index: Some(index),
        });
    }
    assert_eq!(find_next_voyage_num(&board, "test-epic"), 3);
    assert_eq!(find_next_voyage_num(&board, "other"), 1);
    assert_eq!(check_new_voyage(&board, "test-epic", " goal "), Ok(3));
    assert_eq!(check_new_voyage(&board, "test-epic", "  "), Err("goal is required (use --goal when creating voyage)".to_string()));
    assert_eq!(check_new_voyage(&board, "nope", "g"), Err("Epic not found: nope".to_string()));
}

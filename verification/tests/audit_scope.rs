use keel::board::{Board, Epic, Story, Voyage};
use keel::model::{StoryState, StoryType, VoyageState};
use keel::story::audit_scope::{audit_epic_lines, audit_voyage_lines};
use keel::story::show::{EvidenceItem, EvidenceReport, ProofMetadata};
use keel::style::EvidenceEntry;

fn strip(s: &str) -> String {
    let mut out = String::new();
    let mut chars = s.chars().peekable();
    while let Some(c) = chars.next() {
        if c == '\u{1b}' {
            for d in chars.by_ref() {
                if d.is_ascii_alphabetic() {
                    break;
                }
            }
        } else {
            out.push(c);
        }
    }
    out
}

fn story(id: &str, scope: &str, stage: StoryState, index: Option<u32>) -> Story {
    Story {
        id: id.to_string(),
        title: format!("Title {id}"),
        stage,
        story_type: StoryType::Feat,
        scope: Some(scope.to_string()),
        index,
        submitted_at: None,
        updated_at: None,
    }
}

fn voyage(id: &str, epic: &str, index: Option<u32>) -> Voyage {
    Voyage {
        id: id.to_string(),
        title: format!("Voyage {id}"),
        status: VoyageState::InProgress,
        epic: Some(epic.to_string()),
        epic_id: epic.to_string(),
        index,
    }
}

fn item(req: &str) -> EvidenceItem {
    EvidenceItem {
        ac_label: Some("AC-01".to_string()),
        criterion: "It works".to_string(),
        mode: "command".to_string(),
        command: None,
        requirement: Some(req.to_string()),
        proof_filename: None,
        requirements: vec![req.to_string()],
        proof_metadata: ProofMetadata { recorded_at: None, mode: None, command: None },
        excerpt_lines: vec![],
        missing_proof: false,
    }
}

fn report(items: Vec<EvidenceItem>) -> EvidenceReport {
    EvidenceReport {
        items,
        evidence_dir_missing: false,
        supplementary_artifacts: vec![],
        media_artifacts: vec![],
        missing_proofs: vec![],
    }
}

fn entry(req: &str, story: &str) -> EvidenceEntry {
    EvidenceEntry {
        requirement_id: req.to_string(),
        story_id: story.to_string(),
        story_title: format!("Title {story}"),
        criterion: "It works".to_string(),
        phase: "done".to_string(),
        proof: None,
    }
}

fn board() -> Board {
    let mut b = Board::new();
    b.epics.push(Epic { id: "e1".to_string(), title: "Epic One".to_string(), index: None });
    b.voyages.push(voyage("v2", "e1", Some(2)));
    b.voyages.push(voyage("v1", "e1", Some(1)));
    b.voyages.push(voyage("other", "e2", None));
    b.stories.push(story("S2", "e1/v1", StoryState::Backlog, Some(2)));
    b.stories.push(story("S1", "e1/v1", StoryState::Done, Some(1)));
    b.stories.push(story("S3", "e1/v2", StoryState::Done, None));
    b.stories.push(story("X1", "e2/other", StoryState::Done, None));
    b
}

fn reports() -> Vec<(String, EvidenceReport)> {
    vec![
        ("S1".to_string(), report(vec![item("SRS-02"), item("SRS-01")])),
        ("S2".to_string(), report(vec![])),
        ("S3".to_string(), report(vec![item("SRS-03")])),
        ("X1".to_string(), report(vec![])),
    ]
}

fn entries() -> Vec<EvidenceEntry> {
    vec![entry("SRS-02", "S1"), entry("SRS-01", "S1"), entry("SRS-02", "S2"), entry("SRS-03", "S3"), entry("SRS-09", "X1")]
}

#[test]
fn voyage_audit_lists_requirements_and_stories_in_order() {
    let b = board();
    let lines = audit_voyage_lines(&b, &b.voyages[1], &entries(), &reports(), &vec!["S1".to_string()], 0);
    let plain: Vec<String> = lines.iter().map(|l| strip(l)).collect();
    assert!(plain[0].starts_with("Voyage/v1 - Voyage v1 "));
    assert!(plain[0].contains("1/2"));
    assert_eq!(plain[1], "  Requirements: SRS-01, SRS-02");
    assert_eq!(plain[2], "");
    assert_eq!(plain[3], "  Bundle Audits:");
    assert_eq!(plain[4], "    ✓ Story/S1 - Title S1 (done)");
    let s2 = plain.iter().position(|l| l.contains("Story/S2")).unwrap();
    assert!(s2 > 4);
    assert!(plain.iter().any(|l| l == "      ✓ Reflection recorded"));
    assert!(plain.iter().any(|l| l == "      (no verify annotations found)"));
    assert!(!plain.iter().any(|l| l.contains("S3")));
}

#[test]
fn voyage_without_evidence_says_so() {
    let b = board();
    let lines = audit_voyage_lines(&b, &b.voyages[0], &vec![], &reports(), &vec![], 2);
    let plain: Vec<String> = lines.iter().map(|l| strip(l)).collect();
    assert!(plain[0].starts_with("  Voyage/v2 - Voyage v2 "));
    assert_eq!(plain[1], "    No requirements covered in voyage");
}

#[test]
fn epic_audit_shows_chains_and_voyages_by_index() {
    let b = board();
    let lines = audit_epic_lines(&b, &b.epics[0], &entries(), &reports(), &vec![]);
    let plain: Vec<String> = lines.iter().map(|l| strip(l)).collect();
    assert!(plain[0].starts_with("Epic/e1 - Epic One "));
    assert!(plain[0].contains("2/3"));
    assert_eq!(plain[1], "  Epic Evidence Chains:");
    assert!(plain.iter().any(|l| l == "    Requirement: SRS-01"));
    assert!(!plain.iter().any(|l| l.contains("SRS-09")));
    let v1 = plain.iter().position(|l| l.starts_with("  Voyage/v1")).unwrap();
    let v2 = plain.iter().position(|l| l.starts_with("  Voyage/v2")).unwrap();
    assert!(v1 < v2);
    assert!(!plain.iter().any(|l| l.contains("Voyage/other")));
}

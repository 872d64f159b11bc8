use keel::model::StoryState;
use keel::requirements::{RequirementCompletion, RequirementKind, RequirementRow, StoryRef};
use keel::show::ShowDocument;
use keel::voyage::show::{
    goal_scope_section, progress_section, requirement_matrix_lines, VoyageScope, VoyageShowProjection,
};

fn row(id: &str, description: &str, kind: RequirementKind, completion: RequirementCompletion) -> RequirementRow {
    RequirementRow {
        id: id.to_string(),
        description: description.to_string(),
        kind,
        linked_stories: vec![],
        completion,
        verification: "manual (1)".to_string(),
    }
}

#[test]
fn voyage_requirement_matrix_renders_functional_before_non_functional() {
    let mut functional = row("SRS-01", "Render grouped requirement output", RequirementKind::Functional, RequirementCompletion::Done);
    functional.linked_stories = vec![StoryRef { id: "S1".to_string(), stage: StoryState::Done, index: Some(1) }];
    functional.verification = "automated (1)".to_string();
    let report = VoyageShowProjection {
        goal: None,
        scope: VoyageScope::default(),
        requirements: vec![
            row("SRS-NFR-01", "Meet latency budget", RequirementKind::NonFunctional, RequirementCompletion::Queued),
            functional,
        ],
        done_stories: 1,
        total_stories: 1,
        done_functional_requirements: 1,
        total_functional_requirements: 1,
        done_non_functional_requirements: 0,
        total_non_functional_requirements: 1,
        done_requirements: 1,
        total_requirements: 1,
    };

    let mut document = ShowDocument::new();
    document.push_lines(requirement_matrix_lines(&report));
    let rendered = document.render();

    let functional_idx = rendered.find("Functional Requirements").unwrap();
    let non_functional_idx = rendered.find("Non-Functional Requirements").unwrap();

    assert!(functional_idx < non_functional_idx);
    assert!(rendered.contains("Verification:"));
    assert!(rendered.contains("Linked Stories:"));
}

#[test]
fn voyage_progress_uses_projection_functional_non_functional_counts() {
    let report = VoyageShowProjection {
        goal: None,
        scope: VoyageScope::default(),
        requirements: vec![
            row("SRS-01", "Functional done", RequirementKind::Functional, RequirementCompletion::Done),
            row("SRS-02", "Functional queued", RequirementKind::Functional, RequirementCompletion::Queued),
            row("SRS-NFR-01", "NFR queued", RequirementKind::NonFunctional, RequirementCompletion::Queued),
        ],
        done_stories: 0,
        total_stories: 0,
        done_functional_requirements: 1,
        total_functional_requirements: 2,
        done_non_functional_requirements: 0,
        total_non_functional_requirements: 1,
        done_requirements: 1,
        total_requirements: 2,
    };

    let section = progress_section(&report);
    let mut document = ShowDocument::new();
    document.push_section(section);
    let rendered = document.render();

    assert!(rendered.contains("Requirements: 1/2"));
    assert!(rendered.contains("NFRs:         0/1"));
}

#[test]
fn voyage_progress_without_stories_or_nfrs() {
    let report = VoyageShowProjection {
        goal: None,
        scope: VoyageScope::default(),
        requirements: vec![],
        done_stories: 0,
        total_stories: 0,
        done_functional_requirements: 0,
        total_functional_requirements: 0,
        done_non_functional_requirements: 0,
        total_non_functional_requirements: 0,
        done_requirements: 0,
        total_requirements: 0,
    };
    let mut document = ShowDocument::new();
    document.push_section(progress_section(&report));
    let rendered = document.render();
    assert!(rendered.contains("  Stories:      0/0"));
    assert!(rendered.contains("  Requirements: 0/0 (functional)"));
    assert!(!rendered.contains("NFRs"));
    let matrix = requirement_matrix_lines(&report);
    assert_eq!(matrix.len(), 1);
    assert!(matrix[0].contains("(no requirements found in SRS.md)"));
}

#[test]
fn voyage_summary_shows_goal_and_scope_lists() {
    let report = VoyageShowProjection {
        goal: Some("Ship planning-grade voyage summaries.".to_string()),
        scope: VoyageScope {
            in_scope: vec!["Render goal and scope summaries.".to_string(), "Render requirement progress.".to_string()],
            out_of_scope: vec![],
        },
        requirements: vec![],
        done_stories: 0,
        total_stories: 0,
        done_functional_requirements: 0,
        total_functional_requirements: 0,
        done_non_functional_requirements: 0,
        total_non_functional_requirements: 0,
        done_requirements: 0,
        total_requirements: 0,
    };
    let mut document = ShowDocument::new();
    document.push_section(goal_scope_section(&report));
    let rendered = document.render();
    assert!(rendered.contains("  Goal: Ship planning-grade voyage summaries."));
    assert!(rendered.contains("  In scope:\n    - Render goal and scope summaries.\n    - Render requirement progress."));
    assert!(rendered.contains("  Out of scope: \u{1b}[2m(scope not authored in SRS.md yet)\u{1b}[0m"));
}

use keel::board::{Board, Story, Voyage};
use keel::model::{StoryState, StoryType, VoyageState};
use keel::voyage::plan::{self, functional_requirement_ids, referenced_requirements};

fn voyage(id: &str, status: VoyageState) -> Voyage {
    Voyage {
        id: id.to_string(),
        title: id.to_string(),
        status,
        epic: Some("test-epic".to_string()),
        epic_id: "test-epic".to_string(),
        index: None,
    }
}

fn story(id: &str, scope: &str, stage: StoryState) -> Story {
    Story {
        id: id.to_string(),
        title: id.to_string(),
        stage,
        story_type: StoryType::Feat,
        scope: Some(scope.to_string()),
        index: None,
        submitted_at: None,
        updated_at: None,
    }
}

fn story_file(id: &str, body: &str) -> String {
    format!("---\nid: {}\ntitle: {}\n---\n{}", id, id, body)
}

const SRS: &str = "# SRS\n\n## Functional Requirements\nBEGIN FUNCTIONAL_REQUIREMENTS\n| SRS-01 | req1 | test |\n| SRS-02 | req2 | test |\nEND FUNCTIONAL_REQUIREMENTS";

#[test]
fn plan_voyage_errors_on_not_draft() {
    let mut board = Board::new();
    board.voyages.push(voyage("02-planned", VoyageState::Planned));
    board.stories.push(story("0001", "test-epic/02-planned", StoryState::Backlog));
    let contents = vec![story_file("0001", "")];
    let result = plan::run(&board, "02-planned", None, &contents, true);
    assert!(result.is_err());
    let err = result.unwrap_err();
    assert!(err.contains("must be draft"), "Error was: {}", err);
}

#[test]
fn plan_voyage_errors_on_no_stories() {
    let mut board = Board::new();
    board.voyages.push(voyage("03-empty-draft", VoyageState::Draft));
    let result = plan::run(&board, "03-empty-draft", None, &[], true);
    assert!(result.is_err());
    let err = result.unwrap_err();
    assert!(err.contains("no stories"), "Error was: {}", err);
}

#[test]
fn plan_voyage_review_checks_acceptance_criteria() {
    let mut board = Board::new();
    board.voyages.push(voyage("01-draft", VoyageState::Draft));
    board.stories.push(story("0002", "test-epic/01-draft", StoryState::Backlog));
    let contents = vec![story_file("0002", "# No AC here")];
    let result = plan::run(&board, "01-draft", None, &contents, false);
    assert!(result.is_err());
    let err = result.unwrap_err();
    assert!(err.contains("stories with issues"), "Error was: {}", err);
}

#[test]
fn plan_voyage_review_passes_with_acceptance_criteria() {
    let mut board = Board::new();
    board.voyages.push(voyage("01-draft", VoyageState::Draft));
    board.stories.push(story("0003", "test-epic/01-draft", StoryState::Backlog));
    let contents = vec![story_file("0003", "\n## Acceptance Criteria\n\n- [ ] test")];
    let result = plan::run(&board, "01-draft", None, &contents, false);
    assert!(result.is_ok(), "Expected success, got: {:?}", result);
}

#[test]
fn plan_voyage_blocks_uncovered_requirements() {
    let mut board = Board::new();
    board.voyages.push(voyage("01-draft", VoyageState::Draft));
    board.stories.push(story("0003", "test-epic/01-draft", StoryState::Backlog));
    let contents = vec![story_file("0003", "\n## Acceptance Criteria\n\n- [ ] [SRS-01/AC-01] test")];
    let result = plan::run(&board, "01-draft", Some(SRS), &contents, true);
    assert!(result.is_err());
    let err = result.unwrap_err();
    assert!(err.contains("requirements not covered"));
    assert!(err.contains("SRS-02"));
}

#[test]
fn plan_voyage_allows_covered_requirements() {
    let mut board = Board::new();
    board.voyages.push(voyage("01-draft", VoyageState::Draft));
    board.stories.push(story("0007", "test-epic/01-draft", StoryState::Backlog));
    board.stories.push(story("0008", "test-epic/01-draft", StoryState::Backlog));
    let contents = vec![
        story_file("0007", "\n## Acceptance Criteria\n\n- [ ] [SRS-01/AC-01] test"),
        story_file("0008", "\n## Acceptance Criteria\n\n- [ ] [SRS-02/AC-01] test"),
    ];
    let result = plan::run(&board, "01-draft", Some(SRS), &contents, true);
    assert!(result.is_ok());
}

#[test]
fn plan_voyage_thaws_only_iced_stories_of_the_voyage() {
    let mut board = Board::new();
    board.voyages.push(voyage("01-draft", VoyageState::Draft));
    board.stories.push(story("0005", "test-epic/01-draft", StoryState::Icebox));
    board.stories.push(story("0006", "test-epic/01-draft", StoryState::Backlog));
    board.stories.push(story("0009", "test-epic/02-other", StoryState::Icebox));
    let contents = vec![story_file("0005", ""), story_file("0006", ""), story_file("0009", "")];
    let outcome = plan::run(&board, "01-draft", None, &contents, true).unwrap();
    assert_eq!(outcome.stories, vec![0, 1]);
    assert_eq!(outcome.thawed, vec![0]);
}

#[test]
fn plan_voyage_reports_every_blocking_problem() {
    let mut board = Board::new();
    board.voyages.push(voyage("02-planned", VoyageState::Planned));
    let result = plan::run(&board, "02-planned", Some(SRS), &[], true);
    assert_eq!(
        result.unwrap_err(),
        "Cannot plan voyage 02-planned: voyage is planned (must be draft); voyage has no stories; \
         requirements not covered by any story: SRS-01, SRS-02"
    );
}

#[test]
fn plan_voyage_review_lists_each_story_without_criteria() {
    let mut board = Board::new();
    board.voyages.push(voyage("01-draft", VoyageState::Draft));
    board.stories.push(story("A1", "test-epic/01-draft", StoryState::Backlog));
    board.stories.push(story("A2", "test-epic/01-draft", StoryState::Backlog));
    let contents = vec![story_file("A1", "body"), story_file("A2", "## Acceptance Criteria\n- [ ] x")];
    assert_eq!(
        plan::run(&board, "01-draft", None, &contents, false).unwrap_err(),
        "Review found issues:\n  - A1 has no acceptance criteria\nReview failed: 1 stories with issues"
    );
}

#[test]
fn plan_voyage_errors_on_missing_voyage() {
    let board = Board::new();
    assert_eq!(plan::run(&board, "nope", None, &[], true).unwrap_err(), "Voyage not found: nope");
}

#[test]
fn srs_requirements_come_from_the_functional_block_only() {
    let srs = "<!-- BEGIN FUNCTIONAL_REQUIREMENTS -->\n| ID | Requirement |\n|----|----|\n| SRS-01 | a |\n<!-- END FUNCTIONAL_REQUIREMENTS -->\n<!-- BEGIN NON_FUNCTIONAL_REQUIREMENTS -->\n| SRS-NFR-01 | b |\n<!-- END NON_FUNCTIONAL_REQUIREMENTS -->\n| SRS-09 | outside |";
    assert_eq!(functional_requirement_ids(srs), vec!["SRS-01".to_string()]);
}

#[test]
fn criteria_reference_requirements_by_bracket_prefix() {
    let body = "- [x] [SRS-01/AC-01] done\n- [ ] plain\n  - [ ] [SRS-03/AC-02] nested\n* [SRS-04/AC-01] not a criterion";
    assert_eq!(referenced_requirements(body), vec!["SRS-01".to_string(), "SRS-03".to_string()]);
}

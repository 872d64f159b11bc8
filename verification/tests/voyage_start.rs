use keel::board::{Board, Story, Voyage};
use keel::model::{StoryState, StoryType, VoyageState};
use keel::voyage::start;

fn board_with_voyage(id: &str, status: VoyageState) -> Board {
    let mut board = Board::new();
    board.voyages.push(Voyage {
        id: id.to_string(),
        title: id.to_string(),
        status,
        epic: Some("test-epic".to_string()),
        epic_id: "test-epic".to_string(),
        index: None,
    });
    board
}

fn story(id: &str, scope: &str, stage: StoryState) -> Story {
    Story {
        id: id.to_string(),
        title: id.to_string(),
        stage,
        story_type: StoryType::Feat,
        scope: Some(scope.to_string()),
        index: None,
        submitted_at: None,
        updated_at: None,
    }
}

const VERSION: u64 = 42;

#[test]
fn start_voyage_errors_on_already_in_progress() {
    let board = board_with_voyage("02-progress", VoyageState::InProgress);
    let result = start::run(&board, "02-progress", None, VERSION);
    assert!(result.is_err());
    let err = result.unwrap_err();
    assert!(err.contains("Cannot start voyage"), "Error was: {}", err);
}

#[test]
fn start_voyage_errors_on_not_found() {
    let board = Board::new();
    let result = start::run(&board, "nonexistent", None, VERSION);
    assert!(result.is_err());
    assert!(result.unwrap_err().contains("not found"));
}

#[test]
fn start_voyage_fails_with_in_progress_story() {
    let mut board = board_with_voyage("01-test", VoyageState::Planned);
    board.stories.push(story("STORY01", "test-epic/01-test", StoryState::InProgress));
    let result = start::run(&board, "01-test", None, VERSION);
    assert!(result.is_err(), "Should fail with in-progress story");
    let err = result.unwrap_err();
    assert!(err.contains("in-progress"), "Error should mention in-progress state: {}", err);
}

#[test]
fn start_voyage_fails_with_needs_verification_story() {
    let mut board = board_with_voyage("01-test", VoyageState::Planned);
    board.stories.push(story("STORY01", "test-epic/01-test", StoryState::NeedsHumanVerification));
    let result = start::run(&board, "01-test", None, VERSION);
    assert!(result.is_err(), "Should fail with needs-verification story");
    let err = result.unwrap_err();
    assert!(err.contains("needs-human-verification"), "Error should mention needs-human-verification state: {}", err);
}

#[test]
fn start_voyage_succeeds_with_done_story() {
    let mut board = board_with_voyage("01-test", VoyageState::Planned);
    board.stories.push(story("STORY01", "test-epic/01-test", StoryState::Done));
    let result = start::run(&board, "01-test", None, VERSION);
    assert!(result.is_ok(), "Should succeed with done story already completed before voyage start: {:?}", result);
}

#[test]
fn start_voyage_succeeds_with_backlog_and_icebox_stories() {
    let mut board = board_with_voyage("01-test", VoyageState::Planned);
    board.stories.push(story("STORY01", "test-epic/01-test", StoryState::Backlog));
    board.stories.push(story("STORY02", "test-epic/01-test", StoryState::Icebox));
    let result = start::run(&board, "01-test", None, VERSION);
    assert!(result.is_ok(), "Should succeed with backlog and icebox stories: {:?}", result);
}

#[test]
fn start_voyage_error_lists_problematic_stories() {
    let mut board = board_with_voyage("01-test", VoyageState::Planned);
    board.stories.push(story("STORY01", "test-epic/01-test", StoryState::Backlog));
    board.stories.push(story("STORY02", "test-epic/01-test", StoryState::InProgress));
    board.stories.push(story("STORY03", "test-epic/01-test", StoryState::Done));
    let result = start::run(&board, "01-test", None, VERSION);
    assert!(result.is_err());
    let err = result.unwrap_err();
    assert!(err.contains("STORY02"), "Error should list STORY02: {}", err);
    assert!(!err.contains("STORY03"), "Error should not list STORY03 because done stories are allowed: {}", err);
    assert!(!err.contains("STORY01"), "Error should not list STORY01: {}", err);
}

#[test]
fn start_voyage_succeeds_with_no_stories() {
    let board = board_with_voyage("01-test", VoyageState::Planned);
    let result = start::run(&board, "01-test", None, VERSION);
    assert!(result.is_ok(), "Should succeed with no stories: {:?}", result);
}

#[test]
fn start_voyage_succeeds_with_matching_version() {
    let board = board_with_voyage("01-ver", VoyageState::Planned);
    let result = start::run(&board, "01-ver", Some(VERSION), VERSION);
    assert!(result.is_ok(), "Should succeed with matching version");
}

#[test]
fn start_voyage_fails_with_mismatched_version() {
    let board = board_with_voyage("01-ver2", VoyageState::Planned);
    let wrong_version = 12345u64;
    let result = start::run(&board, "01-ver2", Some(wrong_version), VERSION);
    assert!(result.is_err(), "Should fail with mismatched version");
    let err = result.unwrap_err();
    assert!(err.contains("version mismatch"), "Error should mention version mismatch: {}", err);
    assert!(err.contains("expected"), "Error should mention expected version: {}", err);
    assert!(err.contains("actual"), "Error should mention actual version: {}", err);
}

#[test]
fn start_voyage_bypasses_check_when_version_omitted() {
    let board = board_with_voyage("01-ver3", VoyageState::Planned);
    let result = start::run(&board, "01-ver3", None, VERSION);
    assert!(result.is_ok(), "Should succeed when version is omitted: {:?}", result);
}

#[test]
fn start_voyage_messages_are_exact() {
    let mut board = board_with_voyage("v", VoyageState::Done);
    assert_eq!(
        start::run(&board, "v", None, 7).unwrap_err(),
        "Cannot start voyage v: it is done (expected draft or planned)"
    );
    assert_eq!(
        start::run(&board, "v", Some(70), 7).unwrap_err(),
        "Board version mismatch: expected 70, actual 7"
    );
    board.voyages[0].status = VoyageState::Draft;
    board.stories.push(story("A", "test-epic/v", StoryState::InProgress));
    board.stories.push(story("B", "other-epic/v", StoryState::InProgress));
    board.stories.push(story("C", "test-epic/v", StoryState::NeedsHumanVerification));
    assert_eq!(
        start::run(&board, "v", None, 7).unwrap_err(),
        "Cannot start voyage v: stories still underway: A (in-progress), C (needs-human-verification)"
    );
}

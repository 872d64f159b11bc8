use keel::story::audit::{run, AuditTarget};
use keel::board::{Board, Epic, Story, Voyage};
use keel::model::{StoryState, StoryType, VoyageState};

fn epic(id: &str) -> Epic {
    Epic { id: id.to_string(), title: id.to_string(), index: None }
}

fn voyage(id: &str, epic_id: &str) -> Voyage {
    Voyage {
        id: id.to_string(),
        title: id.to_string(),
        status: VoyageState::Draft,
        epic: Some(epic_id.to_string()),
        epic_id: epic_id.to_string(),
        index: None,
    }
}

fn story(id: &str, scope: Option<&str>) -> Story {
    Story {
        id: id.to_string(),
        title: id.to_string(),
        stage: StoryState::Backlog,
        story_type: StoryType::Feat,
        scope: scope.map(|s| s.to_string()),
        index: None,
        submitted_at: None,
        updated_at: None,
    }
}

fn full_board() -> Board {
    let mut board = Board::new();
    board.epics.push(epic("epic1"));
    board.voyages.push(voyage("v1", "epic1"));
    board.stories.push(story("S1", Some("epic1/v1")));
    board
}

#[test]
fn test_audit_run_all() {
    let board = full_board();
    let result = run(&board, None);
    assert!(result.is_ok());
}

#[test]
fn test_audit_run_story() {
    let mut board = Board::new();
    board.stories.push(story("S1", None));
    let result = run(&board, Some("S1"));
    assert!(result.is_ok());
    assert!(matches!(result, Ok(AuditTarget::Story(0))));
}

#[test]
fn test_audit_run_voyage() {
    let board = full_board();
    let result = run(&board, Some("v1"));
    assert!(result.is_ok());
    assert!(matches!(result, Ok(AuditTarget::Voyage(0))));
}

#[test]
fn test_audit_run_epic() {
    let board = full_board();
    let result = run(&board, Some("epic1"));
    assert!(result.is_ok());
    assert!(matches!(result, Ok(AuditTarget::Epic(0))));
}

#[test]
fn test_audit_run_not_found() {
    let board = Board::new();
    let result = run(&board, Some("NONEXISTENT"));
    assert!(result.is_err());
    let err = result.unwrap_err();
    assert!(err.contains("Entity not found: NONEXISTENT"));
    assert!(err.contains("Recovery step:"));
    assert!(err.contains("keel story list"));
}

#[test]
fn audit_of_whole_board_orders_indexed_epics_first() {
    let mut board = Board::new();
    board.epics.push(epic("zeta"));
    board.epics.push(Epic { id: "beta".to_string(), title: "beta".to_string(), index: Some(2) });
    board.epics.push(epic("alpha"));
    board.epics.push(Epic { id: "gamma".to_string(), title: "gamma".to_string(), index: Some(1) });
    match run(&board, None) {
        Ok(AuditTarget::Board(order)) => assert_eq!(order, vec![3, 1, 2, 0]),
        _ => panic!("expected a board audit"),
    }
}

#[test]
fn audit_prefers_story_over_voyage_with_same_id() {
    let mut board = full_board();
    board.stories.push(story("v1", None));
    assert!(matches!(run(&board, Some("v1")), Ok(AuditTarget::Story(1))));
}

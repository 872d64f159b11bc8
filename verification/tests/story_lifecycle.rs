use keel::board::{Board, Epic, Story, Voyage};
use keel::model::{StoryState, StoryType, VoyageState};
use keel::story::accept::{self, has_manual_acceptance, parse_role};
use keel::story::guidance::StoryLifecycleAction;
use keel::story::lifecycle::{check_transition, is_relevant_knowledge};
use keel::story::{ice, link, reflect, reject, start};

fn story(id: &str, stage: StoryState) -> Story {
    Story {
        id: id.to_string(),
        title: id.to_string(),
        stage,
        story_type: StoryType::Feat,
        scope: None,
        index: None,
        submitted_at: None,
        updated_at: None,
    }
}

fn board_with(id: &str, stage: StoryState) -> Board {
    let mut board = Board::new();
    board.stories.push(story(id, stage));
    board
}

const VERSION: u64 = 7;

#[test]
fn ice_errors_on_already_in_icebox() {
    let board = board_with("0002", StoryState::Icebox);
    let result = ice::run(&board, "0002");
    assert!(result.is_err());
    assert!(result.unwrap_err().contains("Cannot ice"));
}

#[test]
fn ice_errors_on_done_story() {
    let board = board_with("0003", StoryState::Done);
    let result = ice::run(&board, "0003");
    assert!(result.is_err());
    assert!(result.unwrap_err().contains("Cannot ice"));
}

#[test]
fn ice_errors_on_not_found() {
    let board = Board::new();
    let result = ice::run(&board, "NONEXISTENT");
    assert!(result.is_err());
    assert!(result.unwrap_err().contains("not found"));
}

#[test]
fn ice_flat_errors_on_already_in_icebox() {
    let board = board_with("1vkqtsBBB", StoryState::Icebox);
    let result = ice::run(&board, "1vkqtsBBB");
    assert!(result.is_err());
    assert!(result.unwrap_err().contains("Cannot ice"));
}

#[test]
fn ice_moves_backlog_story_to_icebox() {
    let board = board_with("0001", StoryState::Backlog);
    assert_eq!(ice::run(&board, "0001"), Ok(0));
    assert_eq!(check_transition(&board, StoryLifecycleAction::Ice, "0001"), Ok((0, StoryState::Icebox)));
}

#[test]
fn reject_errors_on_already_rejected() {
    let board = board_with("0002", StoryState::Rejected);
    let result = reject::run(&board, "0002");
    assert!(result.is_err());
    let err = result.unwrap_err();
    assert!(err.contains("Cannot reject"));
    assert!(err.contains("Recovery step:"));
    assert!(err.contains("keel story show 0002"));
}

#[test]
fn reject_errors_on_done_story() {
    let board = board_with("0003", StoryState::Done);
    let result = reject::run(&board, "0003");
    assert!(result.is_err());
    assert!(result.unwrap_err().contains("Cannot reject"));
}

#[test]
fn reject_errors_on_not_found() {
    let board = Board::new();
    let result = reject::run(&board, "NONEXISTENT");
    assert!(result.is_err());
    assert!(result.unwrap_err().contains("not found"));
}

#[test]
fn reject_flat_errors_on_already_rejected() {
    let board = board_with("1vkqtsBBB", StoryState::Rejected);
    let result = reject::run(&board, "1vkqtsBBB");
    assert!(result.is_err());
    assert!(result.unwrap_err().contains("Cannot reject"));
}

#[test]
fn reject_moves_story_awaiting_verification() {
    let board = board_with("0001", StoryState::NeedsHumanVerification);
    assert_eq!(reject::run(&board, "0001"), Ok(0));
}

#[test]
fn start_errors_on_ready_for_acceptance() {
    let board = board_with("READY1", StoryState::NeedsHumanVerification);
    let result = start::run(&board, "READY1", None, VERSION);
    assert!(result.is_err());
    assert!(result.unwrap_err().contains("Cannot start"));
}

#[test]
fn start_errors_on_version_conflict() {
    let board = board_with("S1", StoryState::Backlog);
    let result = start::run(&board, "S1", Some(9999), VERSION);
    assert!(result.is_err());
    assert!(result.unwrap_err().contains("Board state has changed"));
}

#[test]
fn start_works_from_backlog_and_rejected() {
    let mut board = board_with("B1", StoryState::Backlog);
    board.stories.push(story("R1", StoryState::Rejected));
    assert_eq!(start::run(&board, "B1", Some(VERSION), VERSION), Ok(0));
    assert_eq!(start::run(&board, "R1", None, VERSION), Ok(1));
    assert_eq!(
        start::run(&Board::new(), "X", Some(1), VERSION),
        Err("Story not found: X".to_string())
    );
}

#[test]
fn reflect_rejects_backlog_story() {
    let board = board_with("SREF02", StoryState::Backlog);
    let err = reflect::run(&board, "SREF02", true).unwrap_err();
    assert!(err.contains("Cannot create REFLECT.md"));
    assert!(err.contains("backlog"));
}

#[test]
fn reflect_rules_for_active_stories() {
    let board = board_with("SREF03", StoryState::InProgress);
    assert!(reflect::run(&board, "SREF03", true).unwrap_err().contains("REFLECT.md already exists"));
    assert_eq!(reflect::run(&board, "SREF03", false), Ok(0));
}

fn story_text(body: &str) -> String {
    format!("---\nid: S\n---\n{}", body)
}

#[test]
fn accept_errors_on_manual_verification_without_manager_role() {
    let board = board_with("1vkqtsHH1", StoryState::NeedsHumanVerification);
    let content = story_text("## Acceptance Criteria\n\n- [x] Check this <!-- verify: manual -->");
    let result = accept::run(&board, "1vkqtsHH1", "engineer/software", &content);
    assert!(result.is_err());
    let err = result.unwrap_err();
    assert!(err.contains("manual acceptance criteria"), "Error should mention manual verification: {}", err);
    assert!(err.contains("Recovery step:"));
    assert!(err.contains("keel story accept 1vkqtsHH1 --role manager/product"));
}

#[test]
fn accept_with_manager_role_succeeds_for_manual_stories() {
    let board = board_with("1vkqtsHH2", StoryState::NeedsHumanVerification);
    let content = story_text("## Acceptance Criteria\n\n- [x] Check this <!-- verify: manual -->");
    let result = accept::run(&board, "1vkqtsHH2", "manager/product", &content);
    assert!(result.is_ok(), "Should succeed with manager role: {:?}", result);
}

#[test]
fn accept_without_manual_verification_succeeds_normally() {
    let board = board_with("1vkqtsHH3", StoryState::NeedsHumanVerification);
    let content = story_text("## Acceptance Criteria\n\n- [x] Check this <!-- verify: echo ok -->");
    let result = accept::run(&board, "1vkqtsHH3", "engineer/software", &content);
    assert!(result.is_ok(), "Should succeed for non-manual stories with any valid role: {:?}", result);
}

#[test]
fn accept_without_verify_annotations_succeeds_normally() {
    let board = board_with("1vkqtsHH4", StoryState::NeedsHumanVerification);
    let content = story_text("## Acceptance Criteria\n\n- [x] Simple criteria");
    let result = accept::run(&board, "1vkqtsHH4", "engineer/software", &content);
    assert!(result.is_ok(), "Should succeed for stories without verify annotations: {:?}", result);
}

#[test]
fn accept_refuses_bad_roles_and_wrong_stages() {
    let board = board_with("A1", StoryState::InProgress);
    assert_eq!(
        accept::run(&board, "A1", "engineer", ""),
        Err("Invalid role taxonomy `engineer`: expected <family>/<role>".to_string())
    );
    let err = accept::run(&board, "A1", "engineer/software", "").unwrap_err();
    assert!(err.starts_with("Cannot accept story A1: it is in-progress"));
    assert!(err.contains("keel story show A1"));
    assert_eq!(parse_role("manager/product"), Some("manager".to_string()));
    assert_eq!(parse_role("a/b/c"), None);
    assert!(has_manual_acceptance("- [ ] x <!-- verify: manual, SRS-02:start:end -->"));
    assert!(!has_manual_acceptance("note <!-- verify: manual -->"));
}

#[test]
fn is_relevant_knowledge_matches_by_scope() {
    assert!(is_relevant_knowledge(Some("board-cli/01-core"), Some("board-cli"), Some("board-cli/07-learning")));
    assert!(!is_relevant_knowledge(Some("board-cli/01-core"), Some("other-epic"), Some("other-epic/01-test")));
}

#[test]
fn link_errors_on_missing_story() {
    let board = Board::new();
    let result = link::run(&board, "NONEXISTENT", "01-first");
    assert!(result.is_err());
    assert!(result.unwrap_err().contains("Story not found"));
}

#[test]
fn link_errors_on_missing_voyage() {
    let board = board_with("FEAT0001", StoryState::Backlog);
    let result = link::run(&board, "FEAT0001", "nonexistent");
    assert!(result.is_err());
    assert!(result.unwrap_err().contains("Voyage not found"));
}

#[test]
fn link_sets_scope_once() {
    let mut board = board_with("FEAT0001", StoryState::Backlog);
    board.epics.push(Epic { id: "test-epic".to_string(), title: "E".to_string(), index: None });
    board.voyages.push(Voyage {
        id: "01-first".to_string(),
        title: "V".to_string(),
        status: VoyageState::Planned,
        epic: Some("test-epic".to_string()),
        epic_id: "test-epic".to_string(),
        index: None,
    });
    assert_eq!(link::run(&board, "FEAT0001", "01-first"), Ok((0, "test-epic/01-first".to_string())));
    board.stories[0].scope = Some("test-epic/01-first".to_string());
    assert_eq!(
        link::run(&board, "FEAT0001", "01-first"),
        Err("Story FEAT0001 is already linked to test-epic/01-first".to_string())
    );
}

#[test]
fn thaw_moves_story_to_backlog() {
    let board = board_with("0001", StoryState::Icebox);
    assert_eq!(keel::story::thaw::run(&board, "0001", "---\nstatus: icebox\n---\n"), Ok(0));
    assert_eq!(check_transition(&board, StoryLifecycleAction::Thaw, "0001"), Ok((0, StoryState::Backlog)));
}

#[test]
fn thaw_errors_on_not_in_icebox() {
    let board = board_with("0002", StoryState::Backlog);
    let result = keel::story::thaw::run(&board, "0002", "");
    assert!(result.is_err());
    let err = result.unwrap_err();
    assert!(err.contains("Cannot thaw"));
    assert!(err.contains("Recovery step:"));
    assert!(err.contains("keel story show 0002"));
}

#[test]
fn thaw_errors_on_not_found() {
    let result = keel::story::thaw::run(&Board::new(), "NONEXISTENT", "");
    assert!(result.is_err());
    assert!(result.unwrap_err().contains("not found"));
}

#[test]
fn thaw_blocks_scoped_story_missing_srs_traceability() {
    let mut board = board_with("TSCOPE01", StoryState::Icebox);
    board.stories[0].scope = Some("test-epic/01-draft".to_string());
    let content = "---\nstatus: icebox\n---\n\n## Acceptance Criteria\n\n- [ ] Missing traceability";
    let result = keel::story::thaw::run(&board, "TSCOPE01", content);
    assert!(result.is_err());
    let err = result.unwrap_err();
    assert!(err.contains("missing SRS refs"), "Error was: {}", err);
}

#[test]
fn thaw_allows_scoped_story_with_srs_traceability() {
    let mut board = board_with("TSCOPE02", StoryState::Icebox);
    board.stories[0].scope = Some("test-epic/01-draft".to_string());
    let content = "---\nstatus: icebox\n---\n\n## Acceptance Criteria\n\n- [ ] [SRS-01/AC-01] Valid traceability";
    assert_eq!(keel::story::thaw::run(&board, "TSCOPE02", content), Ok(0));
}

#[test]
fn append_rejection_creates_section_if_missing() {
    let content = keel::story::reject::append_rejection("# My Story\n", "2026-02-01", "Reason one");
    assert!(content.contains("## Rejections"));
    assert!(content.contains("Reason one"));
    assert_eq!(content, "# My Story\n\n## Rejections\n\n### 2026-02-01\nReason one\n");
}

#[test]
fn append_rejection_adds_to_existing_section() {
    let content = keel::story::reject::append_rejection(
        "# My Story\n\n## Rejections\n\n### 2026-01-01\nOld reason\n",
        "2026-02-01",
        "New reason",
    );
    assert!(content.contains("Old reason"));
    assert!(content.contains("New reason"));
    assert_eq!(content.matches("## Rejections").count(), 1);
}

#[test]
fn append_rejection_ends_an_unterminated_story_before_the_entry() {
    let content = keel::story::reject::append_rejection("# My Story", "2026-02-01", "Why");
    assert_eq!(content, "# My Story\n\n## Rejections\n\n### 2026-02-01\nWhy\n");
    let again = keel::story::reject::append_rejection(&content, "2026-02-02", "Again");
    assert_eq!(again, "# My Story\n\n## Rejections\n\n### 2026-02-01\nWhy\n\n### 2026-02-02\nAgain\n");
    assert_eq!(again.matches("## Rejections").count(), 1);
}

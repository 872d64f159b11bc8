use keel::board::{Board, Story};
use keel::model::{StoryState, StoryType};
use keel::verify::{run, run_legacy, VerifyTarget};

#[test]
fn verify_run_not_found_includes_recovery_guidance() {
    let board = Board::new();
    let err = run(&board, Some("MISSING"), false).unwrap_err();
    assert!(err.contains("Story not found: MISSING"));
    assert!(err.contains("Recovery step:"));
    assert!(err.contains("keel story list"));
}

#[test]
fn verify_root_fails_fast_with_run_guidance() {
    let err = run_legacy(Some("S1")).unwrap_err();
    assert!(err.contains("Legacy `keel verify` invocation is no longer supported."));
    assert!(err.contains("Recovery step:"));
    assert!(err.contains("keel verify run S1"));
}

#[test]
fn verify_legacy_without_id_points_at_run_all() {
    assert_eq!(
        run_legacy(None).unwrap_err(),
        "Legacy `keel verify` invocation is no longer supported.\nRecovery step:\n  keel verify run --all"
    );
}

#[test]
fn verify_run_targets() {
    let mut board = Board::new();
    board.stories.push(Story {
        id: "S1".to_string(),
        title: "S1".to_string(),
        stage: StoryState::InProgress,
        story_type: StoryType::Feat,
        scope: None,
        index: None,
        submitted_at: None,
        updated_at: None,
    });
    assert_eq!(run(&board, Some("S1"), false), Ok(VerifyTarget::Story(0)));
    assert_eq!(run(&board, Some("S1"), true), Ok(VerifyTarget::All));
    assert_eq!(run(&board, None, false), Ok(VerifyTarget::All));
}

use keel::board::{Adr, AdrStatus, Bearing, Board, Epic, Story, Voyage};
use keel::flow_state::calculate_flow_state;
use keel::model::{BearingStatus, StoryState, StoryType, VoyageState};

fn story(id: &str, stage: StoryState, submitted_at: Option<i64>) -> Story {
    Story {
        id: id.to_string(),
        title: id.to_string(),
        stage,
        story_type: StoryType::Feat,
        scope: None,
        index: None,
        submitted_at,
        updated_at: None,
    }
}

fn voyage(id: &str, status: VoyageState, epic: &str) -> Voyage {
    Voyage { id: id.to_string(), title: id.to_string(), status, epic: Some(epic.to_string()), epic_id: epic.to_string(), index: None }
}

fn bearing(id: &str, status: BearingStatus) -> Bearing {
    Bearing { id: id.to_string(), title: id.to_string(), status, has_survey: false, has_assessment: false }
}

fn adr(id: &str, status: AdrStatus) -> Adr {
    Adr { id: id.to_string(), title: id.to_string(), status, context: None, applies_to: vec![] }
}

const DAY: i64 = 86400;

#[test]
fn flow_state_counts_each_stage() {
    let now = 100 * DAY;
    let mut board = Board::new();
    board.stories.push(story("A", StoryState::Backlog, None));
    board.stories.push(story("B", StoryState::Backlog, None));
    board.stories.push(story("C", StoryState::InProgress, None));
    board.stories.push(story("D", StoryState::NeedsHumanVerification, Some(now - 3 * DAY - 5)));
    board.stories.push(story("E", StoryState::NeedsHumanVerification, Some(now - DAY)));
    board.stories.push(story("F", StoryState::Done, None));
    board.stories.push(story("G", StoryState::Icebox, None));
    board.voyages.push(voyage("v1", VoyageState::Draft, "e1"));
    board.voyages.push(voyage("v2", VoyageState::Planned, "e1"));
    board.voyages.push(voyage("v3", VoyageState::InProgress, "e1"));
    board.epics.push(Epic { id: "e1".to_string(), title: "E1".to_string(), index: None });
    board.epics.push(Epic { id: "e2".to_string(), title: "E2".to_string(), index: None });
    board.bearings.push(bearing("b1", BearingStatus::Exploring));
    board.bearings.push(bearing("b2", BearingStatus::Evaluating));
    board.bearings.push(bearing("b3", BearingStatus::Ready));
    board.bearings.push(bearing("b4", BearingStatus::Laid));
    board.bearings.push(bearing("b5", BearingStatus::Parked));
    board.bearings.push(bearing("b6", BearingStatus::Declined));
    board.adrs.push(adr("a1", AdrStatus::Proposed));
    board.adrs.push(adr("a2", AdrStatus::Accepted));
    board.adrs.push(adr("a3", AdrStatus::Accepted));

    let m = calculate_flow_state(&board, now);
    assert_eq!(m.execution.backlog_count, 2);
    assert_eq!(m.execution.in_progress_count, 1);
    assert_eq!(m.execution.active_voyages_count, 1);
    assert_eq!(m.verification.count, 2);
    assert_eq!(m.verification.max_age_days, 3);
    assert_eq!(m.done_count, 1);
    assert_eq!(m.planning.draft_count, 1);
    assert_eq!(m.planning.planned_count, 1);
    assert_eq!(m.planning.epics_needing_voyages, 1);
    assert_eq!(m.research.exploring_count, 1);
    assert_eq!(m.research.surveying_count, 1);
    assert_eq!(m.research.assessing_count, 1);
    assert_eq!(m.research.laid_count, 1);
    assert_eq!(m.research.parked_count, 1);
    assert_eq!(m.governance.proposed_count, 1);
    assert_eq!(m.governance.accepted_count, 2);
}

#[test]
fn flow_state_of_empty_board_is_all_zero() {
    let m = calculate_flow_state(&Board::new(), 0);
    assert_eq!(m.execution.backlog_count, 0);
    assert_eq!(m.verification.count, 0);
    assert_eq!(m.verification.max_age_days, 0);
    assert_eq!(m.planning.epics_needing_voyages, 0);
    assert_eq!(m.done_count, 0);
}

#[test]
fn future_submission_waits_no_days() {
    let mut board = Board::new();
    board.stories.push(story("A", StoryState::NeedsHumanVerification, Some(10 * DAY)));
    board.stories.push(story("B", StoryState::NeedsHumanVerification, None));
    let m = calculate_flow_state(&board, DAY);
    assert_eq!(m.verification.count, 2);
    assert_eq!(m.verification.max_age_days, 0);
}

use keel::board::{Bearing, Board, Epic, Story, Voyage};
use keel::model::{BearingStatus, StoryState, StoryType, VoyageState};
use keel::next_up::calculate_next_up;

fn make_story(id: &str, title: &str, stage: StoryState, index: Option<u32>) -> Story {
    Story {
        id: id.to_string(),
        title: title.to_string(),
        stage,
        story_type: StoryType::Feat,
        scope: None,
        index,
        submitted_at: None,
        updated_at: None,
    }
}

fn make_story_with_scope(id: &str, title: &str, stage: StoryState, index: Option<u32>, scope: &str) -> Story {
    let mut s = make_story(id, title, stage, index);
    s.scope = Some(scope.to_string());
    s
}

fn make_voyage(id: &str, title: &str, status: VoyageState) -> Voyage {
    Voyage {
        id: id.to_string(),
        title: title.to_string(),
        status,
        epic: None,
        epic_id: "test-epic".to_string(),
        index: None,
    }
}

fn make_voyage_with_epic(id: &str, title: &str, status: VoyageState, epic: &str) -> Voyage {
    Voyage {
        id: id.to_string(),
        title: title.to_string(),
        status,
        epic: Some(epic.to_string()),
        epic_id: epic.to_string(),
        index: None,
    }
}

fn make_bearing(id: &str, title: &str, has_survey: bool, has_assessment: bool) -> Bearing {
    Bearing {
        id: id.to_string(),
        title: title.to_string(),
        status: BearingStatus::Exploring,
        has_survey,
        has_assessment,
    }
}

fn make_bearing_with_status(id: &str, status: BearingStatus, has_survey: bool, has_assessment: bool) -> Bearing {
    Bearing { id: id.to_string(), title: id.to_string(), status, has_survey, has_assessment }
}

// 2026-02-04T10:00:00 and 2026-02-04T12:00:00, in seconds.
const TEN_AM: i64 = 1770199200;
const NOON: i64 = 1770206400;

#[test]
fn next_up_includes_story_to_accept() {
    let mut board = Board::new();
    board.stories.push(make_story("s1", "Test Story", StoryState::NeedsHumanVerification, Some(1)));
    let next_up = calculate_next_up(&board);
    assert!(next_up.human_items.iter().any(|i| i.category == "accept" && i.id == "s1"));
}

#[test]
fn next_up_includes_voyage_to_start() {
    let mut board = Board::new();
    board.voyages.push(make_voyage("v1", "Test Voyage", VoyageState::Planned));
    let next_up = calculate_next_up(&board);
    assert!(next_up.human_items.iter().any(|i| i.category == "start" && i.id == "v1"));
}

#[test]
fn next_up_includes_voyage_to_decompose() {
    let mut board = Board::new();
    board.voyages.push(make_voyage("v2", "Draft Voyage", VoyageState::Draft));
    let next_up = calculate_next_up(&board);
    assert!(next_up.human_items.iter().any(|i| i.category == "plan" && i.id == "v2"));
}

#[test]
fn next_up_includes_backlog_story() {
    let mut board = Board::new();
    board.stories.push(make_story("s2", "Backlog Story", StoryState::Backlog, Some(1)));
    let next_up = calculate_next_up(&board);
    assert!(next_up.agent_items.iter().any(|i| i.category == "backlog" && i.id == "s2"));
}

#[test]
fn next_up_includes_wip_stories() {
    let mut board = Board::new();
    board.stories.push(make_story("s3", "WIP Story 1", StoryState::InProgress, Some(1)));
    board.stories.push(make_story("s4", "WIP Story 2", StoryState::InProgress, Some(2)));
    let next_up = calculate_next_up(&board);
    let wip_items: Vec<_> = next_up.agent_items.iter().filter(|i| i.category == "wip").collect();
    assert_eq!(wip_items.len(), 2);
}

#[test]
fn human_items_ordered_by_priority() {
    let mut board = Board::new();
    board.stories.push(make_story("s1", "Accept", StoryState::NeedsHumanVerification, Some(1)));
    board.voyages.push(make_voyage("v1", "Start", VoyageState::Planned));
    board.voyages.push(make_voyage("v2", "Decompose", VoyageState::Draft));
    let next_up = calculate_next_up(&board);
    assert_eq!(next_up.human_items[0].category, "accept");
    assert_eq!(next_up.human_items[1].category, "start");
    assert_eq!(next_up.human_items[2].category, "plan");
}

#[test]
fn next_up_includes_bearing_needing_survey() {
    let mut board = Board::new();
    board.bearings.push(make_bearing("test-bearing", "Test Bearing", false, false));
    let next_up = calculate_next_up(&board);
    assert!(next_up.human_items.iter().any(|i| i.category == "survey" && i.id == "test-bearing"));
}

#[test]
fn next_up_includes_bearing_needing_assessment() {
    let mut board = Board::new();
    board.bearings.push(make_bearing("test-bearing", "Test Bearing", true, false));
    let next_up = calculate_next_up(&board);
    assert!(next_up.human_items.iter().any(|i| i.category == "assess" && i.id == "test-bearing"));
}

#[test]
fn next_up_selects_bearing_by_priority_not_alphabetically() {
    let mut board = Board::new();
    board.bearings.push(make_bearing_with_status("alpha", BearingStatus::Exploring, false, false));
    board.bearings.push(make_bearing_with_status("zulu", BearingStatus::Evaluating, true, false));
    let next_up = calculate_next_up(&board);
    let bearing_item = next_up
        .human_items
        .iter()
        .find(|i| i.id == "zulu" || i.id == "alpha")
        .expect("should have a bearing item");
    assert_eq!(bearing_item.id, "zulu", "Should select evaluating bearing over alphabetically-first exploring bearing");
}

#[test]
fn next_backlog_prefers_same_epic_as_wip() {
    let mut board = Board::new();
    board.stories.push(make_story_with_scope("wip1", "WIP in Keel", StoryState::InProgress, Some(1), "keel/voyage-1"));
    board.stories.push(make_story_with_scope("backlog1", "Backlog in Dojo", StoryState::Backlog, Some(1), "dojo/voyage-1"));
    board.stories.push(make_story_with_scope("backlog2", "Backlog in Keel", StoryState::Backlog, Some(2), "keel/voyage-2"));
    let next_up = calculate_next_up(&board);
    let backlog_item = next_up.agent_items.iter().find(|i| i.category == "backlog");
    assert!(backlog_item.is_some(), "Should have a backlog item");
    assert_eq!(backlog_item.unwrap().id, "backlog2", "Should prefer same-epic story");
}

#[test]
fn next_backlog_falls_back_when_no_same_epic_available() {
    let mut board = Board::new();
    board.stories.push(make_story_with_scope("wip1", "WIP in Keel", StoryState::InProgress, Some(1), "keel/voyage-1"));
    board.stories.push(make_story_with_scope("backlog1", "Backlog in Dojo", StoryState::Backlog, Some(1), "dojo/voyage-1"));
    let next_up = calculate_next_up(&board);
    let backlog_item = next_up.agent_items.iter().find(|i| i.category == "backlog");
    assert!(backlog_item.is_some(), "Should have a backlog item");
    assert_eq!(backlog_item.unwrap().id, "backlog1", "Should fall back to any backlog");
}

#[test]
fn decompose_prefers_epic_with_recent_activity() {
    let mut board = Board::new();
    let mut submitted = make_story_with_scope(
        "submitted1",
        "Submitted in RoleCli",
        StoryState::NeedsHumanVerification,
        Some(1),
        "role-based-cli/01-taxonomy-parser",
    );
    submitted.submitted_at = Some(TEN_AM);
    board.stories.push(submitted);
    board.voyages.push(make_voyage_with_epic("02-ios-mobile-app", "iOS Mobile App", VoyageState::Draft, "mobile"));
    board.voyages.push(make_voyage_with_epic(
        "02-story-role-requirements",
        "Story Role Requirements",
        VoyageState::Draft,
        "role-based-cli",
    ));
    let next_up = calculate_next_up(&board);
    let plan_item = next_up.human_items.iter().find(|i| i.category == "plan");
    assert!(plan_item.is_some(), "Should have a plan item");
    assert_eq!(plan_item.unwrap().id, "02-story-role-requirements", "Should prefer voyage in epic with recent activity");
}

#[test]
fn decompose_with_multiple_epics_same_date_prefers_one_with_more_stories() {
    let mut board = Board::new();
    for i in 1..=4u32 {
        let mut story = make_story_with_scope(
            &format!("s{}", i),
            &format!("Story {}", i),
            StoryState::NeedsHumanVerification,
            Some(i),
            "role-based-cli/01-taxonomy-parser",
        );
        story.submitted_at = Some(NOON);
        board.stories.push(story);
    }
    let mut story_evals = make_story_with_scope(
        "s5",
        "Story 5",
        StoryState::NeedsHumanVerification,
        Some(1),
        "evals/01-performance-evaluation",
    );
    story_evals.submitted_at = Some(NOON);
    board.stories.push(story_evals);
    board.voyages.push(make_voyage_with_epic(
        "02-story-role-requirements",
        "Story Role Requirements",
        VoyageState::Draft,
        "role-based-cli",
    ));
    board.voyages.push(make_voyage_with_epic("02-long-term-studies", "Long-term Studies", VoyageState::Draft, "evals"));
    let next_up = calculate_next_up(&board);
    let plan_item = next_up.human_items.iter().find(|i| i.category == "plan");
    assert!(plan_item.is_some(), "Should have a plan item");
    assert_eq!(
        plan_item.unwrap().id,
        "02-story-role-requirements",
        "Should prefer epic with more stories awaiting verification"
    );
}

#[test]
fn next_up_commands_name_the_item() {
    let mut board = Board::new();
    let mut s = make_story("abc1", "Accept me", StoryState::NeedsHumanVerification, None);
    s.submitted_at = Some(5);
    board.stories.push(s);
    board.stories.push(make_story("s-old", "Older", StoryState::NeedsHumanVerification, None));
    board.stories.push(make_story("zz9", "Backlog", StoryState::Backlog, None));
    board.epics.push(Epic { id: "lonely".to_string(), title: "Lonely".to_string(), index: None });
    board.bearings.push(make_bearing_with_status("ready-one", BearingStatus::Ready, true, true));
    let next_up = calculate_next_up(&board);
    // Never-submitted stories come before submitted ones.
    assert_eq!(next_up.human_items[0].id, "s-old");
    assert_eq!(next_up.human_items[0].command.as_deref(), Some("keel story accept S-OLD"));
    assert_eq!(next_up.human_items[1].category, "decompose");
    assert_eq!(next_up.human_items[1].command.as_deref(), Some("keel voyage new \"<name>\" --epic lonely"));
    assert_eq!(next_up.human_items[2].category, "lay");
    assert_eq!(next_up.human_items[2].command.as_deref(), Some("keel bearing lay ready-one"));
    assert_eq!(next_up.agent_items[0].command.as_deref(), Some("keel story start ZZ9"));
}

#[test]
fn wip_items_sorted_by_index_then_id() {
    let mut board = Board::new();
    board.stories.push(make_story("b", "B", StoryState::InProgress, Some(2)));
    board.stories.push(make_story("c", "C", StoryState::InProgress, None));
    board.stories.push(make_story("a", "A", StoryState::InProgress, Some(2)));
    let next_up = calculate_next_up(&board);
    let ids: Vec<&str> = next_up.agent_items.iter().map(|i| i.id.as_str()).collect();
    assert_eq!(ids, vec!["c", "a", "b"]);
    assert!(next_up.agent_items.iter().all(|i| i.command.is_none()));
}

#[test]
fn empty_board_has_nothing_next() {
    let board = Board::new();
    let next_up = calculate_next_up(&board);
    assert!(next_up.human_items.is_empty());
    assert!(next_up.agent_items.is_empty());
}

use keel::board::{Board, Epic, Story, Voyage};
use keel::flow_format::{
    classify_stories, render_dependency_chains, render_epic_capacities, ChargeState, DepStatus, EpicCapacity,
    EpicCapacityReport, QueueItemDisplay, StoryScopeSummary,
};
use keel::flow_health::QueueItem;
use keel::model::{StoryState, StoryType, VoyageState};
use keel::theme::Theme;

fn story(id: &str, title: &str, scope: Option<&str>) -> Story {
    Story {
        id: id.to_string(),
        title: title.to_string(),
        stage: StoryState::Backlog,
        story_type: StoryType::Feat,
        scope: scope.map(|s| s.to_string()),
        index: None,
        submitted_at: None,
        updated_at: None,
    }
}

#[test]
fn test_classify_stories() {
    let stories = vec![
        StoryScopeSummary { id: "S1", title: "Story 1", stage: StoryState::Done, index: Some(1), scope: Some("epic1") },
        StoryScopeSummary { id: "S2", title: "Story 2", stage: StoryState::InProgress, index: Some(2), scope: Some("epic1") },
        StoryScopeSummary { id: "S3", title: "Story 3", stage: StoryState::Backlog, index: Some(3), scope: Some("epic1") },
    ];
    let deps = vec![("S3".to_string(), vec!["S2".to_string()])];
    let verify_ids: Vec<String> = Vec::new();
    let board = Board::new();

    let results = classify_stories(&board, &stories, &deps, &verify_ids);
    assert_eq!(results.len(), 3);
    assert_eq!(results[0].2, DepStatus::Done);
    assert_eq!(results[1].2, DepStatus::InProgress);
    assert_eq!(results[2].2, DepStatus::Blocked);
    assert_eq!(results[2].3, vec!["S2".to_string()]);
}

#[test]
fn test_render_epic_capacities() {
    let capacities = vec![EpicCapacityReport {
        id: "epic1".to_string(),
        title: "Epic 1".to_string(),
        charge_state: ChargeState::Charged,
        capacity: EpicCapacity { ready: 1, in_flight: 1, blocked: 0, inactive: 0, done: 1 },
    }];
    let theme = Theme::default();
    let rendered = render_epic_capacities(&capacities, &theme);
    assert!(rendered.contains("epic1"));
    assert!(rendered.contains("█"));
    assert!(rendered.contains("▒"));
}

#[test]
fn test_render_dependency_chains() {
    let mut board = Board::new();
    board.stories.push(story("S1", "Story 1", None));
    let summaries = vec![("S1".to_string(), "Story 1".to_string(), DepStatus::Ready, vec![])];
    let next_up_ids = vec!["S1".to_string()];
    let theme = Theme::default();
    let rendered = render_dependency_chains(&board, &summaries, &next_up_ids, &theme);
    assert!(rendered.contains("→"));
    assert!(rendered.contains("S1"));
    assert!(rendered.contains("ready"));
}

#[test]
fn classify_orders_by_epic_voyage_and_story_index() {
    let mut board = Board::new();
    board.epics.push(Epic { id: "e1".to_string(), title: "E1".to_string(), index: Some(2) });
    board.epics.push(Epic { id: "e2".to_string(), title: "E2".to_string(), index: Some(1) });
    board.voyages.push(Voyage {
        id: "v1".to_string(),
        title: "V1".to_string(),
        status: VoyageState::Planned,
        epic: Some("e1".to_string()),
        epic_id: "e1".to_string(),
        index: Some(1),
    });
    board.stories.push(story("A", "A", Some("e1/v1")));
    board.stories.push(story("B", "B", Some("e2")));
    let stories = vec![
        StoryScopeSummary { id: "A", title: "A", stage: StoryState::Backlog, index: Some(1), scope: Some("e1/v1") },
        StoryScopeSummary { id: "B", title: "B", stage: StoryState::Icebox, index: Some(9), scope: Some("e2") },
        StoryScopeSummary { id: "C", title: "C", stage: StoryState::Backlog, index: None, scope: None },
    ];
    let deps = vec![("A".to_string(), vec!["C".to_string(), "B".to_string()])];
    let verify_ids = vec!["C".to_string()];
    let results = classify_stories(&board, &stories, &deps, &verify_ids);
    let ids: Vec<&str> = results.iter().map(|r| r.0.as_str()).collect();
    // C has no board story (epic index 0), B's epic has index 1, A's has 2.
    assert_eq!(ids, vec!["C", "B", "A"]);
    assert_eq!(results[0].2, DepStatus::VerifyBlocked);
    assert_eq!(results[1].2, DepStatus::Inactive);
    assert_eq!(results[2].2, DepStatus::Blocked);
    assert_eq!(results[2].3, vec!["C".to_string(), "B".to_string()]);
}

#[test]
fn capacity_table_is_sorted_and_aligned() {
    let cap = |id: &str, title: &str, state: ChargeState| EpicCapacityReport {
        id: id.to_string(),
        title: title.to_string(),
        charge_state: state,
        capacity: EpicCapacity { ready: 2, in_flight: 0, blocked: 1, inactive: 0, done: 12 },
    };
    let capacities = vec![cap("zeta", "Last", ChargeState::Overloaded), cap("alpha", "First", ChargeState::Blocked)];
    let rendered = render_epic_capacities(&capacities, &Theme::no_color());
    let lines: Vec<&str> = rendered.lines().collect();
    assert_eq!(lines.len(), 3);
    assert_eq!(lines[0], format!("     {:<17} CAPACITY", "EPIC"));
    assert!(lines[1].starts_with("  🔴 "));
    assert!(lines[1].contains("alpha"));
    assert!(lines[2].starts_with("  🔥 "));
    assert!(lines[1].ends_with("[D:12 R: 2 F: 0 B: 1 I: 0]"));
}

#[test]
fn queue_item_display_renders_gauges() {
    let human = QueueItemDisplay::from_item(QueueItem {
        label: "to accept".to_string(),
        count: 3,
        age_days: Some(4),
        secondary_count: None,
    });
    let plain = Theme::no_color();
    assert_eq!(human.render_to_string(0, &plain), "  to accept         3 (4d) ███░░░░░░░");
    let agent = QueueItemDisplay { label: "work".to_string(), count: 12, age_days: None, secondary_count: Some(3) };
    assert_eq!(agent.render_to_string(40, &plain), "  work             12 ███████▒▒▒        ");
}

#[test]
fn dependency_chains_group_by_scope() {
    let mut board = Board::new();
    board.stories.push(story("S1", "One", Some("e/v")));
    board.stories.push(story("S2", "Two", None));
    board.stories.push(story("S3", "Three", Some("e/v")));
    let summaries = vec![
        ("S1".to_string(), "One".to_string(), DepStatus::Blocked, vec!["S3".to_string()]),
        ("S2".to_string(), "Two".to_string(), DepStatus::Inactive, vec![]),
        ("S3".to_string(), "Three".to_string(), DepStatus::Done, vec![]),
    ];
    let plain = Theme::no_color();
    let rendered = render_dependency_chains(&board, &summaries, &[], &plain);
    let lines: Vec<&str> = rendered.lines().collect();
    // "e/v" sorts before "unscoped"; the done story is left out but still
    // closes its group, so S1 keeps the middle connector.
    assert!(lines[0].contains("e"));
    assert!(lines[1].starts_with("    ├── "));
    assert!(lines[1].contains("One (blocked by "));
    assert_eq!(lines[2], "");
    assert!(lines[4].starts_with("    └── "));
    assert!(lines[4].ends_with("Two (inactive)"));
}

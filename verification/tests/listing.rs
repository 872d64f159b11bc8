use keel::board::{Board, Epic, Story, Voyage};
use keel::listing::{list_stories, list_voyages, parse_stage, resolve_status_filter};
use keel::model::{StoryState, StoryType, VoyageState};

fn story(id: &str, stage: StoryState, scope: &str, index: Option<u32>) -> Story {
    Story {
        id: id.to_string(),
        title: id.to_string(),
        stage,
        story_type: StoryType::Feat,
        scope: Some(scope.to_string()),
        index,
        submitted_at: None,
        updated_at: None,
    }
}

fn epic(id: &str, index: Option<u32>) -> Epic {
    Epic { id: id.to_string(), title: id.to_string(), index }
}

fn voyage(id: &str, epic: &str, status: VoyageState, index: Option<u32>) -> Voyage {
    Voyage {
        id: id.to_string(),
        title: id.to_string(),
        status,
        epic: Some(epic.to_string()),
        epic_id: epic.to_string(),
        index,
    }
}

#[test]
fn test_list_stories_filtering() {
    let mut board = Board::new();
    board.stories.push(story("S1", StoryState::InProgress, "epic1", None));
    board.stories.push(story("S2", StoryState::Backlog, "epic2", None));

    let all = list_stories(&board, None, None);
    assert_eq!(all.len(), 2);

    let in_progress = list_stories(&board, Some("in-progress"), None);
    assert_eq!(in_progress.len(), 1);
    assert_eq!(in_progress[0].id, "S1");

    let by_epic = list_stories(&board, None, Some("epic2"));
    assert_eq!(by_epic.len(), 1);
    assert_eq!(by_epic[0].id, "S2");
}

#[test]
fn test_list_stories_sorting() {
    let mut board = Board::new();
    board.epics.push(epic("E1", Some(1)));
    board.epics.push(epic("E2", Some(2)));
    board.voyages.push(voyage("V1", "E1", VoyageState::Draft, Some(1)));
    board.voyages.push(voyage("V2", "E1", VoyageState::Draft, Some(2)));
    board.stories.push(story("S4", StoryState::Backlog, "E2/V1", Some(1)));
    board.stories.push(story("S3", StoryState::Backlog, "E1/V2", Some(1)));
    board.stories.push(story("S2", StoryState::Backlog, "E1/V1", Some(2)));
    board.stories.push(story("S1", StoryState::Backlog, "E1/V1", Some(1)));

    let stories = list_stories(&board, None, None);
    assert_eq!(stories[0].id, "S1");
    assert_eq!(stories[1].id, "S2");
    assert_eq!(stories[2].id, "S3");
    assert_eq!(stories[3].id, "S4");
}

#[test]
fn test_list_voyages_filtering() {
    let mut board = Board::new();
    board.epics.push(epic("epic1", None));
    board.epics.push(epic("epic2", None));
    board.voyages.push(voyage("01-v1", "epic1", VoyageState::Draft, None));
    board.voyages.push(voyage("01-v2", "epic2", VoyageState::Planned, None));

    let all = list_voyages(&board, None, &[]).unwrap();
    assert_eq!(all.len(), 2);

    let by_epic = list_voyages(&board, Some("epic1"), &[]).unwrap();
    assert_eq!(by_epic.len(), 1);
    assert_eq!(by_epic[0].id, "01-v1");

    let by_status = list_voyages(&board, None, &["planned".to_string()]).unwrap();
    assert_eq!(by_status.len(), 1);
    assert_eq!(by_status[0].id, "01-v2");
}

#[test]
fn test_list_voyages_default_excludes_done_but_plus_done_adds_it_back() {
    let mut board = Board::new();
    board.epics.push(epic("epic1", None));
    board.voyages.push(voyage("01-draft", "epic1", VoyageState::Draft, None));
    board.voyages.push(voyage("02-done", "epic1", VoyageState::Done, None));

    let default = list_voyages(&board, None, &[]).unwrap();
    assert_eq!(default.len(), 1);
    assert_eq!(default[0].id, "01-draft");

    let with_done = list_voyages(&board, None, &["+done".to_string()]).unwrap();
    assert_eq!(with_done.len(), 2);

    let done_only = list_voyages(&board, None, &["done".to_string()]).unwrap();
    assert_eq!(done_only.len(), 1);
    assert_eq!(done_only[0].id, "02-done");
}

#[test]
fn stage_names_ignore_case_and_unknown_filters_nothing() {
    assert_eq!(parse_stage("In-Progress"), Some(StoryState::InProgress));
    assert_eq!(parse_stage("ICEBOX"), Some(StoryState::Icebox));
    assert_eq!(parse_stage("later"), None);
    let mut board = Board::new();
    board.stories.push(story("S1", StoryState::Done, "e", None));
    assert_eq!(list_stories(&board, Some("later"), None).len(), 1);
}

#[test]
fn voyages_sort_by_epic_index_then_voyage_index() {
    let mut board = Board::new();
    board.epics.push(epic("b-epic", Some(1)));
    board.epics.push(epic("a-epic", None));
    board.voyages.push(voyage("z", "a-epic", VoyageState::Draft, Some(1)));
    board.voyages.push(voyage("y", "b-epic", VoyageState::Draft, None));
    board.voyages.push(voyage("x", "b-epic", VoyageState::Draft, Some(3)));
    board.voyages.push(voyage("w", "c-epic", VoyageState::Draft, None));
    let ids: Vec<&str> = list_voyages(&board, None, &[]).unwrap().iter().map(|v| v.id.as_str()).collect();
    // b-epic has an index; the others sort by epic id; indexed voyages first.
    assert_eq!(ids, vec!["x", "y", "z", "w"]);
}

#[test]
fn status_filter_resolution() {
    let defaults = ["draft", "planned"];
    let allowed = ["draft", "planned", "done"];
    assert_eq!(resolve_status_filter(&[], &defaults, &allowed).unwrap(), vec!["draft", "planned"]);
    assert_eq!(resolve_status_filter(&["+done".to_string()], &defaults, &allowed).unwrap(), vec!["draft", "planned", "done"]);
    assert_eq!(
        resolve_status_filter(&["done".to_string(), "+draft".to_string()], &defaults, &allowed).unwrap(),
        vec!["done", "draft"]
    );
    assert_eq!(
        resolve_status_filter(&["bogus".to_string()], &defaults, &allowed).unwrap_err(),
        "Unknown status 'bogus' (allowed: draft, planned, done)"
    );
}

#[test]
fn stage_filter_lowercases_as_unicode_does() {
    assert_eq!(keel::listing::parse_stage("BAC\u{212A}LOG"), Some(keel::model::StoryState::Backlog));
    assert_eq!(keel::listing::parse_stage("In-Progress"), Some(keel::model::StoryState::InProgress));
    assert_eq!(keel::listing::parse_stage("sideways"), None);
}

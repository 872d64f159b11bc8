use keel::board::{Adr, AdrStatus, Board, Story, Voyage};
use keel::model::{StoryState, StoryType, VoyageState};
use keel::story::new::{
    check_new_story, find_blocking_adrs, find_governing_adrs, find_next_index, icebox_guidance_commands,
    insert_frontmatter_field, new_story_scope, render_icebox_guidance, render_template, replace_str,
};

fn story(id: &str, scope: &str, index: u32) -> Story {
    Story {
        id: id.to_string(),
        title: id.to_string(),
        stage: StoryState::Backlog,
        story_type: StoryType::Feat,
        scope: Some(scope.to_string()),
        index: Some(index),
        submitted_at: None,
        updated_at: None,
    }
}

fn adr(id: &str, status: AdrStatus, context: &str) -> Adr {
    Adr {
        id: id.to_string(),
        title: format!("{id} title"),
        status,
        context: Some(context.to_string()),
        applies_to: vec![],
    }
}

#[test]
fn render_template_replaces_placeholders() {
    let template = "Story {{title}} created at {{created_at}}";
    let result = render_template(template, &[("title", "World"), ("created_at", "2026-03-02T00:00:00")]);
    assert_eq!(result, "Story World created at 2026-03-02T00:00:00");
}

#[test]
fn insert_frontmatter_field_inserts_after_marker() {
    let content = "---\nid: test\nstatus: in-progress\n---\n";
    let result = insert_frontmatter_field(content, "id: test", "title: New");
    assert_eq!(result, "---\nid: test\ntitle: New\nstatus: in-progress\n---\n");
}

#[test]
fn story_new_icebox_guidance() {
    let rendered = render_icebox_guidance("STORY123");
    assert!(rendered.contains("keel story thaw STORY123"));
    assert!(rendered.contains("keel story start STORY123"));
}

#[test]
fn test_find_next_index() {
    let mut board = Board::new();
    board.stories.push(story("S1", "epic1/v1", 1));
    board.stories.push(story("S2", "epic1/v1", 2));
    board.stories.push(story("S3", "epic2/v1", 5));
    assert_eq!(find_next_index(&board, "epic1/v1"), 3);
    assert_eq!(find_next_index(&board, "epic2/v1"), 6);
    assert_eq!(find_next_index(&board, "unknown"), 1);
}

#[test]
fn test_find_governing_adrs() {
    let mut board = Board::new();
    board.adrs.push(adr("ADR-1", AdrStatus::Accepted, "epic1"));
    board.adrs.push(adr("ADR-2", AdrStatus::Proposed, "epic1"));
    board.adrs.push(adr("ADR-3", AdrStatus::Accepted, "other"));
    let adrs = find_governing_adrs(&board, "epic1");
    assert_eq!(adrs.len(), 1);
    assert_eq!(adrs[0], "ADR-1");
}

#[test]
fn test_find_blocking_adrs() {
    let mut board = Board::new();
    board.adrs.push(adr("ADR-1", AdrStatus::Proposed, "epic1"));
    board.adrs.push(adr("ADR-2", AdrStatus::Accepted, "epic1"));
    let blocking = find_blocking_adrs(&board, "epic1");
    assert_eq!(blocking.len(), 1);
    assert_eq!(blocking[0].id, "ADR-1");
}

#[test]
fn governing_adrs_include_applies_to_and_sort_by_id() {
    let mut board = Board::new();
    board.adrs.push(adr("ADR-9", AdrStatus::Accepted, "epic1"));
    let mut shared = adr("ADR-2", AdrStatus::Accepted, "platform");
    shared.applies_to = vec!["epic1".to_string(), "epic2".to_string()];
    board.adrs.push(shared);
    assert_eq!(find_governing_adrs(&board, "epic1"), vec!["ADR-2".to_string(), "ADR-9".to_string()]);
    assert_eq!(find_governing_adrs(&board, "epic2"), vec!["ADR-2".to_string()]);
}

#[test]
fn replace_str_replaces_every_occurrence() {
    assert_eq!(replace_str("a-b-c", "-", "--"), "a--b--c");
    assert_eq!(replace_str("aaa", "aa", "b"), "ba");
    assert_eq!(replace_str("none", "x", "y"), "none");
    assert_eq!(render_template("{{a}}{{b}}{{a}}", &[("a", "1"), ("b", "{{a}}")]), "1{{a}}1");
}

#[test]
fn insert_frontmatter_field_without_marker_is_unchanged() {
    let content = "---\nid: other\n---\n";
    assert_eq!(insert_frontmatter_field(content, "id: test", "title: New"), content);
}

#[test]
fn new_story_scope_and_guidance_commands() {
    assert_eq!(new_story_scope(Some("e"), Some("v")).as_deref(), Some("e/v"));
    assert_eq!(new_story_scope(Some("e"), None).as_deref(), Some("e"));
    assert_eq!(new_story_scope(None, Some("v")), None);
    let [thaw, start] = icebox_guidance_commands("X1");
    assert_eq!(thaw, "keel story thaw X1");
    assert_eq!(start, "keel story start X1");
    assert_eq!(render_icebox_guidance("X1"), "\nNext steps:\n  keel story thaw X1\n  keel story start X1\n");
}

#[test]
fn check_new_story_reports_blocking_adr_and_voyage_mismatch() {
    let mut board = Board::new();
    board.voyages.push(Voyage {
        id: "v1".to_string(),
        title: "V1".to_string(),
        status: VoyageState::Planned,
        epic: Some("epic1".to_string()),
        epic_id: "epic1".to_string(),
        index: None,
    });
    assert!(check_new_story(&board, Some("epic1"), Some("v1")).is_ok());
    let err = check_new_story(&board, Some("epic2"), Some("v1")).unwrap_err();
    assert_eq!(err, "Cannot create scoped story: voyage 'v1' is in epic 'epic1', expected 'epic2'");
    assert!(check_new_story(&board, Some("epic1"), Some("nope")).unwrap_err().contains("nope"));
    board.adrs.push(adr("ADR-7", AdrStatus::Proposed, "epic1"));
    let err = check_new_story(&board, Some("epic1"), Some("v1")).unwrap_err();
    assert!(err.starts_with("Cannot create story in 'epic1' context"));
    assert!(err.contains("keel adr accept ADR-7"));
    assert!(check_new_story(&board, None, None).is_ok());
}

#[test]
fn assemble_story_frontmatter_inserts_scope_index_and_governance() {
    let template = "---\nid: S1\ntitle: T\ncreated_at: 2026-01-01T00:00:00\nupdated_at: 2026-01-01T00:00:00\nstatus: backlog\n---\n# T\n";
    let now = "2026-01-01T00:00:00";
    let full = keel::story::new::assemble_story_frontmatter(template, now, Some("e1/v1"), Some(3), &vec!["ADR-1".to_string(), "ADR-2".to_string()]);
    assert_eq!(
        full,
        "---\nid: S1\ntitle: T\ncreated_at: 2026-01-01T00:00:00\nupdated_at: 2026-01-01T00:00:00\nscope: e1/v1\nindex: 3\ngoverned-by: [ADR-1, ADR-2]\nstatus: backlog\n---\n# T\n"
    );
    let epic_only = keel::story::new::assemble_story_frontmatter(template, now, Some("e1"), None, &vec!["ADR-1".to_string()]);
    assert!(epic_only.contains("scope: e1\ngoverned-by: [ADR-1]\nstatus"));
    let plain = keel::story::new::assemble_story_frontmatter(template, now, None, None, &vec![]);
    assert_eq!(plain, template);
    let governed = keel::story::new::assemble_story_frontmatter(template, now, None, None, &vec!["ADR-9".to_string()]);
    assert!(governed.contains("updated_at: 2026-01-01T00:00:00\ngoverned-by: [ADR-9]\n"));
}

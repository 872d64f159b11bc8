use keel::box_component::BoxComponent;
use keel::layout::LayoutConfig;

#[test]
fn box_component_creates_with_fields() {
    let b = BoxComponent::new("Test", 40);
    assert_eq!(b.title, "Test");
    assert_eq!(b.width, 40);
}

#[test]
fn box_render_produces_correct_structure() {
    let mut b = BoxComponent::new("Test", 20);
    b.push_line("Hello".to_string());
    let lines = b.render();
    assert_eq!(lines.len(), 3);
    assert!(lines[0].contains("Test"));
    assert!(lines[1].contains("Hello"));
}

#[test]
fn layout_config_from_width() {
    let config = LayoutConfig::from_terminal_width(120);
    assert_eq!(config.stage_width, 20);
    assert_eq!(config.last_stage_width, 20);
    let config_small = LayoutConfig::from_terminal_width(30);
    assert_eq!(config_small.total_width, 60);
}

#[test]
fn render_stage_labels() {
    let config = LayoutConfig::from_terminal_width(120);
    let labels = config.render_stage_labels("<H>", "<A>", "<R>");
    assert!(labels.contains("Governance"));
    assert!(labels.contains("Research"));
    assert!(labels.contains("Planning"));
    assert!(labels.contains("Execution"));
    assert!(labels.contains("Verification"));
    assert!(labels.contains("Done"));
    assert!(labels.contains("<H>"));
    assert!(labels.contains("<A>"));
}

#[test]
fn render_flow_diagram() {
    let config = LayoutConfig::from_terminal_width(120);
    let flow = config.render_flow_diagram();
    assert_eq!(flow.matches('▶').count(), 5);
    assert!(flow.starts_with('─'));
}

#[test]
fn render_stage_counts() {
    let config = LayoutConfig::from_terminal_width(120);
    let human_counts = [1, 2, 3, 4, 5, 0, 7];
    let agent_counts = [10, 20];
    let counts = config.render_stage_counts(100, &human_counts, &agent_counts, 50);
    assert!(counts.contains("100"));
    assert!(counts.contains("6"));
    assert!(counts.contains("9"));
    assert!(counts.contains("30"));
    assert!(counts.contains("7"));
    assert!(counts.contains("50"));
}

#[test]
fn stage_counts_are_centred_exactly() {
    let config = LayoutConfig::from_terminal_width(60);
    let counts = config.render_stage_counts(1, &[0; 7], &[0, 0], 12);
    assert_eq!(counts.len(), 60);
    assert_eq!(&counts[0..10], "    1     ");
    assert_eq!(&counts[50..60], "    12    ");
}

#[test]
fn box_width_is_the_content_width() {
    let b = keel::box_component::BoxComponent::new("Lane", 40);
    assert_eq!(b.width(), 38);
    let rows = b.render_with_height(3);
    assert_eq!(keel::ansi::visible_width(&rows[1]), 40);
}

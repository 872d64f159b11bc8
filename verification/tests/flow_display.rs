use keel::board::{Board, Epic};
use keel::flow_display::{
    render_annotated_flow, render_lane_boxes, render_mission_summary, FlowAssessment, LaneFlowCard,
    LaneFlowProjection, LaneSourceCount, MissionProgress,
};
use keel::flow_format::{ChargeState, EpicCapacity, EpicCapacityReport};
use keel::flow_health::{
    ExecutionMetrics, FlowMetrics, GovernanceMetrics, PlanningMetrics, ResearchMetrics, VerificationMetrics,
};
use keel::theme::Theme;

fn make_test_metrics() -> FlowMetrics {
    FlowMetrics {
        execution: ExecutionMetrics { backlog_count: 5, in_progress_count: 2, active_voyages_count: 2 },
        planning: PlanningMetrics { draft_count: 1, planned_count: 2, epics_needing_voyages: 1 },
        research: ResearchMetrics {
            surveying_count: 1,
            assessing_count: 1,
            laid_count: 0,
            exploring_count: 1,
            parked_count: 0,
        },
        verification: VerificationMetrics { count: 1, max_age_days: 2 },
        governance: GovernanceMetrics { proposed_count: 1, accepted_count: 1 },
        done_count: 10,
    }
}

fn lane(name: &str, priority: u32, parallel: bool, manual_accept: bool) -> LaneFlowCard {
    LaneFlowCard {
        name: name.to_string(),
        priority,
        total_count: 0,
        parallel,
        manual_accept,
        source_counts: vec![],
    }
}

/// The lanes of the default workflow, with nothing waiting in them.
fn make_test_lane_flow() -> LaneFlowProjection {
    LaneFlowProjection {
        lanes: vec![lane("management", 100, false, true), lane("delivery", 50, true, false)],
    }
}

fn quiet_assessment() -> FlowAssessment {
    FlowAssessment { constraint_reason: "Flow is balanced".to_string(), suggested_actions: vec![] }
}

#[test]
fn render_lane_boxes_contains_management_header() {
    let lane_flow = make_test_lane_flow();
    let theme = Theme::colored();
    let rendered = render_lane_boxes(&lane_flow, 100, &theme);
    assert!(rendered.contains("management (0) [p100]"));
}

#[test]
fn render_lane_boxes_contains_delivery_header() {
    let lane_flow = make_test_lane_flow();
    let theme = Theme::colored();
    let rendered = render_lane_boxes(&lane_flow, 100, &theme);
    assert!(rendered.contains("delivery (0) [p50]"));
}

#[test]
fn test_render_annotated_flow() {
    let board = Board::new();
    let metrics = make_test_metrics();
    let lane_flow = make_test_lane_flow();
    let rendered =
        render_annotated_flow(&board, &metrics, &lane_flow, 100, true, &quiet_assessment(), &[], &[], &[]);
    assert!(rendered.contains("Governance"));
    assert!(rendered.contains("Research"));
    assert!(rendered.contains("Planning"));
    assert!(rendered.contains("Execution"));
    assert!(rendered.contains("Verification"));
    assert!(rendered.contains("management (0) [p100]"));
    assert!(rendered.contains("delivery (0) [p50]"));
    assert!(rendered.contains("No executable epic capacity"));
}

#[test]
fn lane_boxes_side_by_side_on_wide_terminals() {
    let rendered = render_lane_boxes(&make_test_lane_flow(), 100, &Theme::no_color());
    let first = rendered.lines().next().unwrap();
    assert!(first.contains("management (0) [p100]"));
    assert!(first.contains("delivery (0) [p50]"));
    assert!(!rendered.ends_with('\n'));
}

#[test]
fn lane_boxes_stacked_on_narrow_terminals() {
    let rendered = render_lane_boxes(&make_test_lane_flow(), 60, &Theme::no_color());
    let lines: Vec<&str> = rendered.lines().collect();
    assert!(lines[0].contains("management (0) [p100]"));
    assert!(!lines[0].contains("delivery"));
    assert!(rendered.contains("\n\n"));
    assert!(rendered.contains("mode: serial, manual-accept"));
    assert!(rendered.contains("mode: parallel, no-manual-accept"));
    assert!(rendered.contains("No items in lane"));
    assert_eq!(lines.last().unwrap().chars().count(), 60);
}

#[test]
fn lane_sources_are_listed_with_counts() {
    let mut card = lane("delivery", 50, true, false);
    card.total_count = 3;
    card.source_counts = vec![
        LaneSourceCount { source: "story.backlog".to_string(), count: 3 },
        LaneSourceCount { source: "voyage.planned".to_string(), count: 0 },
    ];
    let rendered = render_lane_boxes(&LaneFlowProjection { lanes: vec![card] }, 60, &Theme::no_color());
    assert!(rendered.contains("  story.backlog                  3"));
    assert!(!rendered.contains("voyage.planned"));
}

#[test]
fn no_lanes_render_nothing() {
    assert_eq!(render_lane_boxes(&LaneFlowProjection { lanes: vec![] }, 100, &Theme::no_color()), "");
}

#[test]
fn annotated_flow_without_color_shows_assessment_and_suggestion() {
    let mut board = Board::new();
    board.epics.push(Epic { id: "e1".to_string(), title: "Epic".to_string(), index: None });
    let assessment = FlowAssessment {
        constraint_reason: "Verification queue is growing".to_string(),
        suggested_actions: vec!["Accept stories".to_string(), "Other".to_string()],
    };
    let caps = vec![EpicCapacityReport {
        id: "e1".to_string(),
        title: "Epic".to_string(),
        charge_state: ChargeState::Charged,
        capacity: EpicCapacity { ready: 1, in_flight: 0, blocked: 0, inactive: 0, done: 0 },
    }];
    let rendered =
        render_annotated_flow(&board, &make_test_metrics(), &make_test_lane_flow(), 100, false, &assessment, &[], &caps, &[]);
    assert!(rendered.contains("  Flow Assessment: Verification queue is growing\n"));
    assert!(rendered.contains("  Suggested: Accept stories\n"));
    assert!(!rendered.contains("Other"));
    assert!(rendered.contains("  Strategic Capacity"));
    assert!(!rendered.contains("No executable epic capacity"));
    assert!(!rendered.contains("Bottleneck Dependencies"));
}

#[test]
fn mission_summary_lists_active_missions_by_id() {
    let mission = |id: &str, active: bool| MissionProgress {
        id: id.to_string(),
        title: format!("Mission {}", id),
        status: "active".to_string(),
        active,
        goals_met: 1,
        goals_total: 2,
        epics_done: 0,
        epics_total: 3,
        bearings_terminal: 1,
        bearings_total: 1,
    };
    let text = render_mission_summary(&[mission("M2", true), mission("M0", false), mission("M1", true)]);
    let m1 = text.find("Mission M1").unwrap();
    let m2 = text.find("Mission M2").unwrap();
    assert!(m1 < m2);
    assert!(!text.contains("Mission M0"));
    assert!(text.contains("    Goals: 1/2 board goals met\n"));
    assert!(text.contains("    Child entities: 0/3 epics done, 1/1 bearings terminal\n"));
}

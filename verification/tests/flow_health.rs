use keel::flow_health::{
    analyze_two_actor_health, classify_verification_queue, ExecutionMetrics, FlowMetrics, GovernanceMetrics,
    PipelineStage, PlanningMetrics, ResearchMetrics, VerificationMetrics, VerificationQueueCategory,
    FLOW_VERIFY_BLOCK_THRESHOLD, HUMAN_NEXT_VERIFY_BLOCK_THRESHOLD,
};

fn make_metrics() -> FlowMetrics {
    FlowMetrics {
        governance: GovernanceMetrics { proposed_count: 0, accepted_count: 2 },
        research: ResearchMetrics {
            exploring_count: 2,
            surveying_count: 1,
            assessing_count: 1,
            laid_count: 5,
            parked_count: 0,
        },
        planning: PlanningMetrics { epics_needing_voyages: 0, draft_count: 0, planned_count: 3 },
        execution: ExecutionMetrics { backlog_count: 5, in_progress_count: 2, active_voyages_count: 1 },
        verification: VerificationMetrics { count: 1, max_age_days: 3 },
        done_count: 10,
    }
}

#[test]
fn pipeline_stage_display() {
    assert_eq!(PipelineStage::Research.label(), "Research");
    assert_eq!(PipelineStage::Planning.label(), "Planning");
    assert_eq!(PipelineStage::Execution.label(), "Execution");
    assert_eq!(PipelineStage::Verification.label(), "Verification");
}

#[test]
fn two_actor_human_queue_contains_accept_items() {
    let metrics = make_metrics();
    let health = analyze_two_actor_health(&metrics);
    let accept_item = health.human_queue.items.iter().find(|i| i.label == "to accept");
    assert!(accept_item.is_some());
    assert_eq!(accept_item.unwrap().count, metrics.verification.count);
}

#[test]
fn two_actor_human_queue_contains_start_items() {
    let metrics = make_metrics();
    let health = analyze_two_actor_health(&metrics);
    let start_item = health.human_queue.items.iter().find(|i| i.label == "to start");
    assert!(start_item.is_some());
    assert_eq!(start_item.unwrap().count, metrics.planning.planned_count);
}

#[test]
fn two_actor_human_queue_contains_calibrate_items() {
    let metrics = make_metrics();
    let health = analyze_two_actor_health(&metrics);
    let calibrate_item = health.human_queue.items.iter().find(|i| i.label == "to calibrate");
    assert!(calibrate_item.is_some());
    let expected =
        metrics.research.exploring_count + metrics.research.surveying_count + metrics.research.assessing_count;
    assert_eq!(calibrate_item.unwrap().count, expected);
}

#[test]
fn two_actor_agent_queue_contains_ready_items() {
    let metrics = make_metrics();
    let health = analyze_two_actor_health(&metrics);
    let ready_item = health.agent_queue.items.iter().find(|i| i.label == "ready");
    assert!(ready_item.is_some());
    let expected = metrics.execution.backlog_count + metrics.execution.in_progress_count;
    assert_eq!(ready_item.unwrap().count, expected);
}

#[test]
fn two_actor_agent_starved_when_no_work() {
    let mut metrics = make_metrics();
    metrics.execution.backlog_count = 0;
    metrics.execution.in_progress_count = 0;
    metrics.verification.count = 0;
    let health = analyze_two_actor_health(&metrics);
    assert!(health.agent_queue.is_starved);
    assert!(health.agent_queue.starvation_message.is_some());
}

#[test]
fn two_actor_agent_not_starved_with_backlog() {
    let mut metrics = make_metrics();
    metrics.execution.backlog_count = 5;
    metrics.execution.in_progress_count = 0;
    let health = analyze_two_actor_health(&metrics);
    assert!(!health.agent_queue.is_starved);
    assert!(health.agent_queue.starvation_message.is_none());
}

#[test]
fn two_actor_agent_not_starved_with_wip() {
    let mut metrics = make_metrics();
    metrics.execution.backlog_count = 0;
    metrics.execution.in_progress_count = 2;
    let health = analyze_two_actor_health(&metrics);
    assert!(!health.agent_queue.is_starved);
}

#[test]
fn two_actor_action_summary_suggests_unblock_when_starved() {
    let mut metrics = make_metrics();
    metrics.execution.backlog_count = 0;
    metrics.execution.in_progress_count = 0;
    metrics.verification.count = 0;
    let health = analyze_two_actor_health(&metrics);
    assert!(health.action_summary.to_lowercase().contains("voyage"));
}

#[test]
fn two_actor_action_summary_suggests_accept_when_verify_attention() {
    let mut metrics = make_metrics();
    metrics.execution.backlog_count = 3;
    metrics.execution.in_progress_count = 1;
    metrics.verification.count = HUMAN_NEXT_VERIFY_BLOCK_THRESHOLD - 1;
    let health = analyze_two_actor_health(&metrics);
    assert!(health.action_summary.to_lowercase().contains("accept"));
}

#[test]
fn two_actor_action_summary_marks_blocked_at_human_threshold() {
    let mut metrics = make_metrics();
    metrics.execution.backlog_count = 3;
    metrics.execution.in_progress_count = 1;
    metrics.verification.count = HUMAN_NEXT_VERIFY_BLOCK_THRESHOLD;
    let health = analyze_two_actor_health(&metrics);
    let summary = health.action_summary.to_lowercase();
    assert!(summary.contains("blocked"));
    assert!(summary.contains("accept"));
}

#[test]
fn two_actor_action_summary_suggests_accept_when_verify_flow_blocked() {
    let mut metrics = make_metrics();
    metrics.execution.backlog_count = 3;
    metrics.execution.in_progress_count = 1;
    metrics.verification.count = FLOW_VERIFY_BLOCK_THRESHOLD + 1;
    let health = analyze_two_actor_health(&metrics);
    assert!(health.action_summary.to_lowercase().contains("blocked"));
    assert!(health.action_summary.to_lowercase().contains("accept"));
}

#[test]
fn two_actor_accept_item_shows_oldest_age() {
    let mut metrics = make_metrics();
    metrics.verification.max_age_days = 5;
    let health = analyze_two_actor_health(&metrics);
    let accept_item = health.human_queue.items.iter().find(|i| i.label == "to accept").unwrap();
    assert_eq!(accept_item.age_days, Some(5));
}

#[test]
fn verification_queue_categories_by_threshold() {
    assert_eq!(classify_verification_queue(0), VerificationQueueCategory::Empty);
    assert_eq!(classify_verification_queue(HUMAN_NEXT_VERIFY_BLOCK_THRESHOLD - 1), VerificationQueueCategory::Attention);
    assert_eq!(classify_verification_queue(HUMAN_NEXT_VERIFY_BLOCK_THRESHOLD), VerificationQueueCategory::HumanBlocked);
    assert_eq!(classify_verification_queue(FLOW_VERIFY_BLOCK_THRESHOLD), VerificationQueueCategory::HumanBlocked);
    assert_eq!(classify_verification_queue(FLOW_VERIFY_BLOCK_THRESHOLD + 1), VerificationQueueCategory::FlowBlocked);
}

#[test]
fn human_queue_lists_optional_items_only_when_present() {
    let mut metrics = make_metrics();
    metrics.governance.proposed_count = 2;
    metrics.planning.draft_count = 1;
    metrics.verification.max_age_days = 0;
    let health = analyze_two_actor_health(&metrics);
    let labels: Vec<&str> = health.human_queue.items.iter().map(|i| i.label.as_str()).collect();
    assert_eq!(labels, vec!["proposed ADRs", "to accept", "to start", "to decompose", "to calibrate"]);
    assert_eq!(health.human_queue.items[1].age_days, None);
}

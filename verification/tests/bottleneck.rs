use keel::bottleneck::generate_suggestions;
use keel::flow_health::{
    ExecutionMetrics, FlowMetrics, GovernanceMetrics, PipelineStage, PlanningMetrics, ResearchMetrics,
    VerificationMetrics,
};

fn make_metrics() -> FlowMetrics {
    FlowMetrics {
        governance: GovernanceMetrics { proposed_count: 0, accepted_count: 2 },
        research: ResearchMetrics {
            exploring_count: 2,
            surveying_count: 1,
            assessing_count: 1,
            laid_count: 5,
            parked_count: 0,
        },
        planning: PlanningMetrics { epics_needing_voyages: 0, draft_count: 0, planned_count: 3 },
        execution: ExecutionMetrics { backlog_count: 5, in_progress_count: 2, active_voyages_count: 1 },
        verification: VerificationMetrics { count: 1, max_age_days: 3 },
        done_count: 10,
    }
}

fn empty_metrics() -> FlowMetrics {
    FlowMetrics {
        governance: GovernanceMetrics { proposed_count: 0, accepted_count: 0 },
        research: ResearchMetrics { exploring_count: 0, surveying_count: 0, assessing_count: 0, laid_count: 0, parked_count: 0 },
        planning: PlanningMetrics { epics_needing_voyages: 0, draft_count: 0, planned_count: 0 },
        execution: ExecutionMetrics { backlog_count: 0, in_progress_count: 0, active_voyages_count: 0 },
        verification: VerificationMetrics { count: 0, max_age_days: 0 },
        done_count: 0,
    }
}

#[test]
fn suggestions_address_constraint() {
    let metrics = make_metrics();
    let s = generate_suggestions(PipelineStage::Verification, &vec![], &metrics);
    assert_eq!(s, vec!["Review and accept completed stories".to_string()]);
    let s = generate_suggestions(PipelineStage::Execution, &vec![], &metrics);
    assert_eq!(s, vec!["Focus on completing in-flight implementation".to_string()]);
    let s = generate_suggestions(PipelineStage::Research, &vec![], &metrics);
    assert_eq!(s, vec!["Focus on completing bearing assessments".to_string()]);
}

#[test]
fn empty_system_suggests_adding_bearings() {
    let metrics = empty_metrics();
    let s = generate_suggestions(PipelineStage::Research, &vec![PipelineStage::Research], &metrics);
    // The risk's own bearing suggestion is already covered.
    assert_eq!(s, vec!["Add new bearings to populate the research pipeline".to_string()]);
}

#[test]
fn planning_prefers_decomposing_epics() {
    let mut metrics = make_metrics();
    metrics.planning.epics_needing_voyages = 1;
    metrics.planning.draft_count = 2;
    let s = generate_suggestions(PipelineStage::Planning, &vec![], &metrics);
    assert_eq!(s, vec!["Decompose active epics into new voyages".to_string()]);
    metrics.planning.epics_needing_voyages = 0;
    let s = generate_suggestions(PipelineStage::Planning, &vec![], &metrics);
    assert_eq!(s, vec!["Review and approve draft voyages".to_string()]);
    metrics.planning.draft_count = 0;
    let s = generate_suggestions(PipelineStage::Planning, &vec![], &metrics);
    assert!(s.is_empty());
}

#[test]
fn risks_add_suggestions_not_yet_covered() {
    let metrics = make_metrics();
    let risks = vec![PipelineStage::Research, PipelineStage::Planning, PipelineStage::Execution, PipelineStage::Verification];
    let s = generate_suggestions(PipelineStage::Verification, &risks, &metrics);
    assert_eq!(
        s,
        vec![
            "Review and accept completed stories".to_string(),
            "Add new bearings to replenish research pipeline".to_string(),
            "Create voyages from laid bearings or epics".to_string(),
        ]
    );
    // The execution risk is covered by the acceptance suggestion's "stories".
    let s = generate_suggestions(PipelineStage::Execution, &vec![PipelineStage::Execution, PipelineStage::Research], &metrics);
    assert_eq!(
        s,
        vec![
            "Focus on completing in-flight implementation".to_string(),
            "Decompose planned voyages into stories".to_string(),
            "Add new bearings to replenish research pipeline".to_string(),
        ]
    );
}

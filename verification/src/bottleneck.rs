//! Suggested actions for the flow dashboard: one for the stage that
//! constrains the pipeline, then one for each stage at risk of running dry
//! that no earlier suggestion already covers.

use vstd::prelude::*;
use crate::text::{seq_contains, str_contains, owned};
use crate::table::strs_view;
use crate::flow_health::{FlowMetrics, PipelineStage, research_count_spec, ready_count_spec, metrics_fit};

verus! {

/// Some suggestion mentions `k`.
pub open spec fn any_contains(ss: Seq<Seq<char>>, k: Seq<char>) -> bool {
    exists|i: int| 0 <= i < ss.len() && seq_contains(#[trigger] ss[i], k)
}

/// There are draft voyages or epics still to decompose.
pub open spec fn has_planning_work(m: FlowMetrics) -> bool {
    m.planning.draft_count + m.planning.epics_needing_voyages > 0
}

/// The suggestion for the constraining stage, when it holds work.
pub open spec fn constraint_suggestion(c: PipelineStage, m: FlowMetrics) -> Seq<Seq<char>> {
    match c {
        PipelineStage::Research => if research_count_spec(m) > 0 {
            seq!["Focus on completing bearing assessments"@]
        } else {
            Seq::empty()
        },
        PipelineStage::Planning => if m.planning.epics_needing_voyages > 0 {
            seq!["Decompose active epics into new voyages"@]
        } else if has_planning_work(m) {
            seq!["Review and approve draft voyages"@]
        } else {
            Seq::empty()
        },
        PipelineStage::Execution => if ready_count_spec(m) > 0 {
            seq!["Focus on completing in-flight implementation"@]
        } else {
            Seq::empty()
        },
        PipelineStage::Verification => if m.verification.count > 0 {
            seq!["Review and accept completed stories"@]
        } else {
            Seq::empty()
        },
    }
}

/// The pipeline holds no work at all.
pub open spec fn pipeline_empty(m: FlowMetrics) -> bool {
    &&& research_count_spec(m) == 0
    &&& m.planning.draft_count == 0
    &&& m.planning.epics_needing_voyages == 0
    &&& ready_count_spec(m) == 0
    &&& m.verification.count == 0
}

/// The constraint's suggestion, or, when there is none and the pipeline
/// is empty, the suggestion to add work.
pub open spec fn base_suggestions(c: PipelineStage, m: FlowMetrics) -> Seq<Seq<char>> {
    let s = constraint_suggestion(c, m);
    if s.len() == 0 && pipeline_empty(m) {
        seq!["Add new bearings to populate the research pipeline"@]
    } else {
        s
    }
}

/// The suggestions after considering one stage at risk of starvation.
pub open spec fn risk_step(ss: Seq<Seq<char>>, stage: PipelineStage) -> Seq<Seq<char>> {
    match stage {
        PipelineStage::Research => if any_contains(ss, "bearing"@) {
            ss
        } else {
            ss.push("Add new bearings to replenish research pipeline"@)
        },
        PipelineStage::Planning => if any_contains(ss, "voyage"@) || any_contains(ss, "decompose"@) {
            ss
        } else {
            ss.push("Create voyages from laid bearings or epics"@)
        },
        PipelineStage::Execution => if any_contains(ss, "stories"@) {
            ss
        } else {
            ss.push("Decompose planned voyages into stories"@)
        },
        PipelineStage::Verification => ss,
    }
}

/// The suggestions after considering the risks in order.
pub open spec fn apply_risks(ss: Seq<Seq<char>>, risks: Seq<PipelineStage>) -> Seq<Seq<char>>
    decreases risks.len(),
{
    if risks.len() == 0 {
        ss
    } else {
        risk_step(apply_risks(ss, risks.drop_last()), risks.last())
    }
}

/// All suggested actions.
pub open spec fn suggestions_spec(c: PipelineStage, risks: Seq<PipelineStage>, m: FlowMetrics) -> Seq<Seq<char>> {
    apply_risks(base_suggestions(c, m), risks)
}

/// Whether some suggestion mentions `k`.
fn mentions(ss: &Vec<String>, k: &str) -> (b: bool)
    ensures
        b == any_contains(strs_view(ss@), k@),
{
    let mut i: usize = 0;
    while i < ss.len()
        invariant
            i <= ss.len(),
            forall|j: int| 0 <= j < i ==> !seq_contains(#[trigger] strs_view(ss@)[j], k@),
        decreases ss.len() - i,
    {
        if str_contains(ss[i].as_str(), k) {
            assert(seq_contains(strs_view(ss@)[i as int], k@));
            return true;
        }
        i = i + 1;
    }
    false
}

/// Suggested actions for the constraining stage `constraint` and the
/// stages at risk of starvation, in the order the risks were found.
pub fn generate_suggestions(constraint: PipelineStage, risks: &Vec<PipelineStage>, metrics: &FlowMetrics) -> (r: Vec<String>)
    requires
        metrics_fit(*metrics),
    ensures
        strs_view(r@) == suggestions_spec(constraint, risks@, *metrics),
{
    let research = metrics.research.exploring_count + metrics.research.surveying_count
        + metrics.research.assessing_count;
    let execution = metrics.execution.backlog_count + metrics.execution.in_progress_count;
    let mut suggestions: Vec<String> = Vec::new();
    match constraint {
        PipelineStage::Research => {
            if research > 0 {
                suggestions.push(owned("Focus on completing bearing assessments"));
            }
        },
        PipelineStage::Planning => {
            if metrics.planning.epics_needing_voyages > 0 {
                suggestions.push(owned("Decompose active epics into new voyages"));
            } else if metrics.planning.draft_count > 0 {
                suggestions.push(owned("Review and approve draft voyages"));
            }
        },
        PipelineStage::Execution => {
            if execution > 0 {
                suggestions.push(owned("Focus on completing in-flight implementation"));
            }
        },
        PipelineStage::Verification => {
            if metrics.verification.count > 0 {
                suggestions.push(owned("Review and accept completed stories"));
            }
        },
    }
    if suggestions.len() == 0 && research == 0 && metrics.planning.draft_count == 0
        && metrics.planning.epics_needing_voyages == 0 && execution == 0 && metrics.verification.count == 0
    {
        suggestions.push(owned("Add new bearings to populate the research pipeline"));
    }
    assert(strs_view(suggestions@) == base_suggestions(constraint, *metrics));
    let mut k: usize = 0;
    while k < risks.len()
        invariant
            k <= risks.len(),
            strs_view(suggestions@) == apply_risks(base_suggestions(constraint, *metrics), risks@.take(k as int)),
        decreases risks.len() - k,
    {
        assert(risks@.take(k + 1).drop_last() =~= risks@.take(k as int));
        let ghost before = strs_view(suggestions@);
        match risks[k] {
            PipelineStage::Research => {
                if !mentions(&suggestions, "bearing") {
                    suggestions.push(owned("Add new bearings to replenish research pipeline"));
                }
            },
            PipelineStage::Planning => {
                if !mentions(&suggestions, "voyage") && !mentions(&suggestions, "decompose") {
                    suggestions.push(owned("Create voyages from laid bearings or epics"));
                }
            },
            PipelineStage::Execution => {
                if !mentions(&suggestions, "stories") {
                    suggestions.push(owned("Decompose planned voyages into stories"));
                }
            },
            PipelineStage::Verification => {},
        }
        assert(strs_view(suggestions@) =~= risk_step(before, risks@[k as int]));
        k = k + 1;
    }
    assert(risks@.take(risks@.len() as int) =~= risks@);
    suggestions
}

} // verus!

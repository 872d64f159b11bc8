//! Flow metrics, the verification-queue policy, and the two-actor (human
//! and agent) health model of the flow dashboard.

use vstd::prelude::*;
use crate::text::owned;

verus! {

/// Governance counts.
#[derive(Clone, Copy, Debug)]
pub struct GovernanceMetrics {
    pub proposed_count: usize,
    pub accepted_count: usize,
}

/// Research (bearing) counts.
#[derive(Clone, Copy, Debug)]
pub struct ResearchMetrics {
    pub exploring_count: usize,
    pub surveying_count: usize,
    pub assessing_count: usize,
    pub laid_count: usize,
    pub parked_count: usize,
}

/// Planning counts.
#[derive(Clone, Copy, Debug)]
pub struct PlanningMetrics {
    pub epics_needing_voyages: usize,
    pub draft_count: usize,
    pub planned_count: usize,
}

/// Execution counts.
#[derive(Clone, Copy, Debug)]
pub struct ExecutionMetrics {
    pub backlog_count: usize,
    pub in_progress_count: usize,
    pub active_voyages_count: usize,
}

/// Verification queue counts (ages in whole days).
#[derive(Clone, Copy, Debug)]
pub struct VerificationMetrics {
    pub count: usize,
    pub max_age_days: usize,
}

/// Board-wide flow counts.
#[derive(Clone, Copy, Debug)]
pub struct FlowMetrics {
    pub governance: GovernanceMetrics,
    pub research: ResearchMetrics,
    pub planning: PlanningMetrics,
    pub execution: ExecutionMetrics,
    pub verification: VerificationMetrics,
    pub done_count: usize,
}

/// Stories awaiting acceptance at which the human queue counts as blocked.
pub const HUMAN_NEXT_VERIFY_BLOCK_THRESHOLD: usize = 5;

/// Stories awaiting acceptance above which the whole flow counts as blocked.
pub const FLOW_VERIFY_BLOCK_THRESHOLD: usize = 10;

/// How pressing the verification queue is.
#[derive(Clone, Copy, Debug, PartialEq, Eq, Structural)]
pub enum VerificationQueueCategory {
    Empty,
    Attention,
    HumanBlocked,
    FlowBlocked,
}

/// The category of a verification queue of `count` stories.
pub open spec fn verification_category_spec(count: nat) -> VerificationQueueCategory {
    if count == 0 {
        VerificationQueueCategory::Empty
    } else if count < HUMAN_NEXT_VERIFY_BLOCK_THRESHOLD {
        VerificationQueueCategory::Attention
    } else if count <= FLOW_VERIFY_BLOCK_THRESHOLD {
        VerificationQueueCategory::HumanBlocked
    } else {
        VerificationQueueCategory::FlowBlocked
    }
}

/// Classifies the verification queue.
pub fn classify_verification_queue(count: usize) -> (c: VerificationQueueCategory)
    ensures
        c == verification_category_spec(count as nat),
{
    if count == 0 {
        VerificationQueueCategory::Empty
    } else if count < HUMAN_NEXT_VERIFY_BLOCK_THRESHOLD {
        VerificationQueueCategory::Attention
    } else if count <= FLOW_VERIFY_BLOCK_THRESHOLD {
        VerificationQueueCategory::HumanBlocked
    } else {
        VerificationQueueCategory::FlowBlocked
    }
}

/// Stories ready for the agent: backlog plus in progress.
pub open spec fn ready_count_spec(m: FlowMetrics) -> int {
    m.execution.backlog_count + m.execution.in_progress_count
}

/// Bearings in research: exploring, surveying and assessing.
pub open spec fn research_count_spec(m: FlowMetrics) -> int {
    m.research.exploring_count + m.research.surveying_count + m.research.assessing_count
}

/// The counts of a board fit the sums the dashboard forms from them.
pub open spec fn metrics_fit(m: FlowMetrics) -> bool {
    &&& ready_count_spec(m) <= usize::MAX
    &&& research_count_spec(m) <= usize::MAX
    &&& m.planning.epics_needing_voyages + m.planning.draft_count <= usize::MAX
}

/// The agent has no work: nothing in backlog or in progress.
pub open spec fn agent_starved_spec(m: FlowMetrics) -> bool {
    ready_count_spec(m) == 0
}

/// Pipeline stages for constraint identification.
#[derive(Clone, Copy, Debug, PartialEq, Eq, Structural)]
pub enum PipelineStage {
    Research,
    Planning,
    Execution,
    Verification,
}

impl PipelineStage {
    /// The stage's display name.
    pub fn label(&self) -> (r: String)
        ensures
            r@ == match *self {
                PipelineStage::Research => "Research"@,
                PipelineStage::Planning => "Planning"@,
                PipelineStage::Execution => "Execution"@,
                PipelineStage::Verification => "Verification"@,
            },
    {
        match self {
            PipelineStage::Research => owned("Research"),
            PipelineStage::Planning => owned("Planning"),
            PipelineStage::Execution => owned("Execution"),
            PipelineStage::Verification => owned("Verification"),
        }
    }
}

/// Where work is piling up.
#[derive(Clone, Copy, Debug, PartialEq, Eq, Structural)]
pub enum BottleneckConstraint {
    Research,
    Planning,
    Execution,
    Verification,
}

/// One entry of an actor's queue.
#[derive(Debug)]
pub struct QueueItem {
    /// Display label (e.g. "to accept").
    pub label: String,
    /// Number of items.
    pub count: usize,
    /// Age in days of the oldest item.
    pub age_days: Option<usize>,
    /// Secondary count for a segmented gauge (work in progress).
    pub secondary_count: Option<usize>,
}

/// The work queue of one actor.
#[derive(Debug)]
pub struct ActorQueue {
    pub items: Vec<QueueItem>,
    /// Whether the actor has no work available.
    pub is_starved: bool,
    /// Why the actor is starved, if it is.
    pub starvation_message: Option<String>,
}

/// Flow health split by actor.
#[derive(Debug)]
pub struct TwoActorHealth {
    pub human_queue: ActorQueue,
    pub agent_queue: ActorQueue,
    /// Summary of the recommended action.
    pub action_summary: String,
}

/// A queue item's visible content.
pub open spec fn item_view(i: QueueItem) -> (Seq<char>, nat, Option<usize>, Option<usize>) {
    (i.label@, i.count as nat, i.age_days, i.secondary_count)
}

/// The human queue: proposed ADRs (when any), stories to accept (with the
/// oldest one's age when positive), voyages to start, epics and drafts to
/// decompose (when any), and bearings to calibrate.
pub open spec fn human_items_spec(m: FlowMetrics) -> Seq<(Seq<char>, nat, Option<usize>, Option<usize>)> {
    let adrs: Seq<(Seq<char>, nat, Option<usize>, Option<usize>)> = if m.governance.proposed_count > 0 {
        seq![("proposed ADRs"@, m.governance.proposed_count as nat, None, None)]
    } else {
        Seq::empty()
    };
    let accept = ("to accept"@, m.verification.count as nat,
        if m.verification.max_age_days > 0 { Some(m.verification.max_age_days) } else { None }, None);
    let start = ("to start"@, m.planning.planned_count as nat, None, None);
    let decompose_count = m.planning.epics_needing_voyages + m.planning.draft_count;
    let decompose: Seq<(Seq<char>, nat, Option<usize>, Option<usize>)> = if decompose_count > 0 {
        seq![("to decompose"@, decompose_count as nat, None, None)]
    } else {
        Seq::empty()
    };
    let calibrate = ("to calibrate"@, research_count_spec(m) as nat, None, None);
    adrs + seq![accept, start] + decompose + seq![calibrate]
}

/// The summary line for the two-actor view.
pub open spec fn action_summary_spec(m: FlowMetrics) -> Seq<char> {
    match verification_category_spec(m.verification.count as nat) {
        VerificationQueueCategory::FlowBlocked => "Verification queue is blocked; review and accept completed stories"@,
        VerificationQueueCategory::HumanBlocked => "Human queue is blocked; review and accept completed stories"@,
        VerificationQueueCategory::Attention => "Stories await human acceptance"@,
        VerificationQueueCategory::Empty => if agent_starved_spec(m) {
            "Start a voyage to unblock agent"@
        } else {
            "Flow is healthy"@
        },
    }
}

fn item(label: &str, count: usize, age_days: Option<usize>, secondary_count: Option<usize>) -> (i: QueueItem)
    ensures
        item_view(i) == (label@, count as nat, age_days, secondary_count),
{
    QueueItem { label: owned(label), count, age_days, secondary_count }
}

/// Builds the human actor's queue.
pub fn build_human_queue(metrics: &FlowMetrics) -> (q: ActorQueue)
    requires
        metrics_fit(*metrics),
    ensures
        q.items@.map_values(|i: QueueItem| item_view(i)) == human_items_spec(*metrics),
        !q.is_starved,
        q.starvation_message is None,
{
    let mut items: Vec<QueueItem> = Vec::new();
    if metrics.governance.proposed_count > 0 {
        items.push(item("proposed ADRs", metrics.governance.proposed_count, None, None));
    }
    let oldest = if metrics.verification.max_age_days > 0 { Some(metrics.verification.max_age_days) } else { None };
    items.push(item("to accept", metrics.verification.count, oldest, None));
    items.push(item("to start", metrics.planning.planned_count, None, None));
    let decompose_count = metrics.planning.epics_needing_voyages + metrics.planning.draft_count;
    if decompose_count > 0 {
        items.push(item("to decompose", decompose_count, None, None));
    }
    let calibrate_count = metrics.research.exploring_count + metrics.research.surveying_count
        + metrics.research.assessing_count;
    items.push(item("to calibrate", calibrate_count, None, None));
    assert(items@.map_values(|i: QueueItem| item_view(i)) =~= human_items_spec(*metrics));
    ActorQueue { items, is_starved: false, starvation_message: None }
}

/// Builds the agent's queue: one `ready` item (backlog plus in progress,
/// in progress as the secondary count), starved when it is empty.
pub fn build_agent_queue(metrics: &FlowMetrics) -> (q: ActorQueue)
    requires
        metrics_fit(*metrics),
    ensures
        q.items@.map_values(|i: QueueItem| item_view(i))
            == seq![("ready"@, ready_count_spec(*metrics) as nat, None::<usize>, Some(metrics.execution.in_progress_count))],
        q.is_starved == agent_starved_spec(*metrics),
        q.is_starved ==> q.starvation_message is Some && q.starvation_message->0@ == "Start a voyage to unblock."@,
        !q.is_starved ==> q.starvation_message is None,
{
    let ready = metrics.execution.backlog_count + metrics.execution.in_progress_count;
    let is_starved = ready == 0;
    let items = vec![item("ready", ready, None, Some(metrics.execution.in_progress_count))];
    assert(items@.map_values(|i: QueueItem| item_view(i))
        =~= seq![("ready"@, ready as nat, None::<usize>, Some(metrics.execution.in_progress_count))]);
    let starvation_message = if is_starved { Some(owned("Start a voyage to unblock.")) } else { None };
    ActorQueue { items, is_starved, starvation_message }
}

/// Summarises the recommended action from the verification queue and
/// whether the agent is starved.
pub fn summarize_action(verification_queue: VerificationQueueCategory, agent_starved: bool) -> (r: String)
    ensures
        r@ == match verification_queue {
            VerificationQueueCategory::FlowBlocked => "Verification queue is blocked; review and accept completed stories"@,
            VerificationQueueCategory::HumanBlocked => "Human queue is blocked; review and accept completed stories"@,
            VerificationQueueCategory::Attention => "Stories await human acceptance"@,
            VerificationQueueCategory::Empty => if agent_starved { "Start a voyage to unblock agent"@ } else { "Flow is healthy"@ },
        },
{
    match verification_queue {
        VerificationQueueCategory::FlowBlocked => owned("Verification queue is blocked; review and accept completed stories"),
        VerificationQueueCategory::HumanBlocked => owned("Human queue is blocked; review and accept completed stories"),
        VerificationQueueCategory::Attention => owned("Stories await human acceptance"),
        VerificationQueueCategory::Empty => {
            if agent_starved { owned("Start a voyage to unblock agent") } else { owned("Flow is healthy") }
        },
    }
}

/// Analyses flow health for the two-actor model.
pub fn analyze_two_actor_health(metrics: &FlowMetrics) -> (h: TwoActorHealth)
    requires
        metrics_fit(*metrics),
    ensures
        h.human_queue.items@.map_values(|i: QueueItem| item_view(i)) == human_items_spec(*metrics),
        !h.human_queue.is_starved,
        h.human_queue.starvation_message is None,
        h.agent_queue.items@.map_values(|i: QueueItem| item_view(i))
            == seq![("ready"@, ready_count_spec(*metrics) as nat, None::<usize>, Some(metrics.execution.in_progress_count))],
        h.agent_queue.is_starved == agent_starved_spec(*metrics),
        agent_starved_spec(*metrics) ==> h.agent_queue.starvation_message is Some
            && h.agent_queue.starvation_message->0@ == "Start a voyage to unblock."@,
        !agent_starved_spec(*metrics) ==> h.agent_queue.starvation_message is None,
        h.action_summary@ == action_summary_spec(*metrics),
{
    let human_queue = build_human_queue(metrics);
    let agent_queue = build_agent_queue(metrics);
    let category = classify_verification_queue(metrics.verification.count);
    let action_summary = summarize_action(category, agent_queue.is_starved);
    TwoActorHealth { human_queue, agent_queue, action_summary }
}

} // verus!

//! The board-wide flow state: how many entities stand in each stage of the
//! pipeline, and how long the oldest story has waited for acceptance.

use vstd::prelude::*;
use crate::model::{StoryState, VoyageState, BearingStatus};
use crate::board::{Board, Story, Voyage, Epic, Bearing, Adr, AdrStatus};
use crate::next_up::{epic_needs_voyages, epic_without_voyages};
use crate::flow_health::{FlowMetrics, GovernanceMetrics, ResearchMetrics, PlanningMetrics,
    ExecutionMetrics, VerificationMetrics};

verus! {

/// How many items of `s` satisfy `p`.
pub open spec fn count_where<T>(s: Seq<T>, p: spec_fn(T) -> bool) -> nat
    decreases s.len(),
{
    if s.len() == 0 {
        0
    } else {
        count_where(s.drop_last(), p) + if p(s.last()) { 1nat } else { 0nat }
    }
}

/// Seconds in a day.
pub const SECONDS_PER_DAY: i64 = 86400;

/// Whole days a story has waited for acceptance at time `now` (seconds):
/// zero unless it awaits verification with a known submission time in the past.
pub open spec fn waiting_days(s: Story, now: int) -> nat {
    if s.stage == StoryState::NeedsHumanVerification {
        match s.submitted_at {
            Some(t) => if now > t { ((now - t) / 86400) as nat } else { 0 },
            None => 0,
        }
    } else {
        0
    }
}

/// The longest wait among `s`.
pub open spec fn max_waiting(s: Seq<Story>, now: int) -> nat
    decreases s.len(),
{
    if s.len() == 0 {
        0
    } else {
        let rest = max_waiting(s.drop_last(), now);
        let w = waiting_days(s.last(), now);
        if w > rest { w } else { rest }
    }
}

pub open spec fn story_at(st: StoryState) -> spec_fn(Story) -> bool {
    |s: Story| s.stage == st
}

pub open spec fn voyage_at(st: VoyageState) -> spec_fn(Voyage) -> bool {
    |v: Voyage| v.status == st
}

pub open spec fn bearing_at(st: BearingStatus) -> spec_fn(Bearing) -> bool {
    |x: Bearing| x.status == st
}

pub open spec fn adr_at(st: AdrStatus) -> spec_fn(Adr) -> bool {
    |a: Adr| a.status == st
}

pub open spec fn voyageless(b: Board) -> spec_fn(Epic) -> bool {
    |e: Epic| epic_needs_voyages(b, e)
}

pub open spec fn stories_in(b: Board, st: StoryState) -> nat {
    count_where(b.stories@, story_at(st))
}

pub open spec fn voyages_in(b: Board, st: VoyageState) -> nat {
    count_where(b.voyages@, voyage_at(st))
}

pub open spec fn bearings_in(b: Board, st: BearingStatus) -> nat {
    count_where(b.bearings@, bearing_at(st))
}

pub open spec fn adrs_in(b: Board, st: AdrStatus) -> nat {
    count_where(b.adrs@, adr_at(st))
}

pub open spec fn epics_without_voyages(b: Board) -> nat {
    count_where(b.epics@, voyageless(b))
}

/// A count as a `usize`, saturating at its largest value.
pub open spec fn clamp_usize(n: nat) -> usize {
    if n <= usize::MAX { n as usize } else { usize::MAX }
}

/// The flow state of board `b` at time `now`: ADRs proposed and accepted;
/// bearings exploring (the survey stage), evaluating (assessment), ready,
/// laid and parked; epics that have no voyage; voyages drafted, planned and
/// underway; stories in backlog, in progress, awaiting verification and
/// done; and the longest wait for acceptance in whole days.
pub open spec fn flow_state_spec(b: Board, now: int) -> FlowMetrics {
    FlowMetrics {
        governance: GovernanceMetrics {
            proposed_count: adrs_in(b, AdrStatus::Proposed) as usize,
            accepted_count: adrs_in(b, AdrStatus::Accepted) as usize,
        },
        research: ResearchMetrics {
            exploring_count: bearings_in(b, BearingStatus::Exploring) as usize,
            surveying_count: bearings_in(b, BearingStatus::Evaluating) as usize,
            assessing_count: bearings_in(b, BearingStatus::Ready) as usize,
            laid_count: bearings_in(b, BearingStatus::Laid) as usize,
            parked_count: bearings_in(b, BearingStatus::Parked) as usize,
        },
        planning: PlanningMetrics {
            epics_needing_voyages: epics_without_voyages(b) as usize,
            draft_count: voyages_in(b, VoyageState::Draft) as usize,
            planned_count: voyages_in(b, VoyageState::Planned) as usize,
        },
        execution: ExecutionMetrics {
            backlog_count: stories_in(b, StoryState::Backlog) as usize,
            in_progress_count: stories_in(b, StoryState::InProgress) as usize,
            active_voyages_count: voyages_in(b, VoyageState::InProgress) as usize,
        },
        verification: VerificationMetrics {
            count: stories_in(b, StoryState::NeedsHumanVerification) as usize,
            max_age_days: clamp_usize(max_waiting(b.stories@, now)),
        },
        done_count: stories_in(b, StoryState::Done) as usize,
    }
}

proof fn lemma_count_le_len<T>(s: Seq<T>, p: spec_fn(T) -> bool)
    ensures
        count_where(s, p) <= s.len(),
    decreases s.len(),
{
    if s.len() > 0 {
        lemma_count_le_len(s.drop_last(), p);
    }
}

pub proof fn lemma_count_step<T>(s: Seq<T>, i: int, p: spec_fn(T) -> bool)
    requires
        0 <= i < s.len(),
    ensures
        count_where(s.take(i + 1), p) == count_where(s.take(i), p) + if p(s[i]) { 1nat } else { 0nat },
        count_where(s.take(i), p) <= i,
{
    assert(s.take(i + 1).drop_last() =~= s.take(i));
    lemma_count_le_len(s.take(i), p);
}

proof fn lemma_max_step(s: Seq<Story>, i: int, now: int)
    requires
        0 <= i < s.len(),
    ensures
        max_waiting(s.take(i + 1), now) == {
            let rest = max_waiting(s.take(i), now);
            let w = waiting_days(s[i], now);
            if w > rest { w } else { rest }
        },
{
    assert(s.take(i + 1).drop_last() =~= s.take(i));
}

/// Whole days between `t` and `now` when `now` is later, else zero,
/// saturating at `usize::MAX`.
fn days_waited(now: i64, t: i64) -> (d: usize)
    ensures
        d == clamp_usize(if now > t { ((now - t) / 86400) as nat } else { 0 }),
{
    if now > t {
        let diff: i128 = (now as i128) - (t as i128);
        let days: i128 = diff / 86400;
        if days <= usize::MAX as i128 {
            days as usize
        } else {
            usize::MAX
        }
    } else {
        0
    }
}

/// Story counts by stage and the longest wait for acceptance.
fn story_counts(stories: &Vec<Story>, now: i64) -> (r: (usize, usize, usize, usize, usize))
    ensures
        r.0 == count_where(stories@, story_at(StoryState::Backlog)),
        r.1 == count_where(stories@, story_at(StoryState::InProgress)),
        r.2 == count_where(stories@, story_at(StoryState::NeedsHumanVerification)),
        r.3 == count_where(stories@, story_at(StoryState::Done)),
        r.4 == clamp_usize(max_waiting(stories@, now as int)),
{
    let mut backlog: usize = 0;
    let mut progress: usize = 0;
    let mut waiting: usize = 0;
    let mut done: usize = 0;
    let mut oldest: usize = 0;
    let mut i: usize = 0;
    while i < stories.len()
        invariant
            i <= stories.len(),
            backlog == count_where(stories@.take(i as int), story_at(StoryState::Backlog)),
            progress == count_where(stories@.take(i as int), story_at(StoryState::InProgress)),
            waiting == count_where(stories@.take(i as int), story_at(StoryState::NeedsHumanVerification)),
            done == count_where(stories@.take(i as int), story_at(StoryState::Done)),
            oldest == clamp_usize(max_waiting(stories@.take(i as int), now as int)),
        decreases stories.len() - i,
    {
        let s = &stories[i];
        proof {
            lemma_count_step(stories@, i as int, story_at(StoryState::Backlog));
            lemma_count_step(stories@, i as int, story_at(StoryState::InProgress));
            lemma_count_step(stories@, i as int, story_at(StoryState::NeedsHumanVerification));
            lemma_count_step(stories@, i as int, story_at(StoryState::Done));
            lemma_max_step(stories@, i as int, now as int);
        }
        match s.stage {
            StoryState::Backlog => { backlog = backlog + 1; },
            StoryState::InProgress => { progress = progress + 1; },
            StoryState::NeedsHumanVerification => { waiting = waiting + 1; },
            StoryState::Done => { done = done + 1; },
            _ => {},
        }
        let w: usize = if matches!(s.stage, StoryState::NeedsHumanVerification) {
            match s.submitted_at {
                Some(t) => days_waited(now, t),
                None => 0,
            }
        } else {
            0
        };
        if w > oldest {
            oldest = w;
        }
        i = i + 1;
    }
    proof {
        assert(stories@.take(stories@.len() as int) =~= stories@);
    }
    (backlog, progress, waiting, done, oldest)
}

/// Voyage counts: drafted, planned, underway.
fn voyage_counts(voyages: &Vec<Voyage>) -> (r: (usize, usize, usize))
    ensures
        r.0 == count_where(voyages@, voyage_at(VoyageState::Draft)),
        r.1 == count_where(voyages@, voyage_at(VoyageState::Planned)),
        r.2 == count_where(voyages@, voyage_at(VoyageState::InProgress)),
{
    let mut draft: usize = 0;
    let mut planned: usize = 0;
    let mut active: usize = 0;
    let mut i: usize = 0;
    while i < voyages.len()
        invariant
            i <= voyages.len(),
            draft == count_where(voyages@.take(i as int), voyage_at(VoyageState::Draft)),
            planned == count_where(voyages@.take(i as int), voyage_at(VoyageState::Planned)),
            active == count_where(voyages@.take(i as int), voyage_at(VoyageState::InProgress)),
        decreases voyages.len() - i,
    {
        proof {
            lemma_count_step(voyages@, i as int, voyage_at(VoyageState::Draft));
            lemma_count_step(voyages@, i as int, voyage_at(VoyageState::Planned));
            lemma_count_step(voyages@, i as int, voyage_at(VoyageState::InProgress));
        }
        match voyages[i].status {
            VoyageState::Draft => { draft = draft + 1; },
            VoyageState::Planned => { planned = planned + 1; },
            VoyageState::InProgress => { active = active + 1; },
            VoyageState::Done => {},
        }
        i = i + 1;
    }
    proof {
        assert(voyages@.take(voyages@.len() as int) =~= voyages@);
    }
    (draft, planned, active)
}

/// Bearing counts: exploring, evaluating, ready, laid, parked.
fn bearing_counts(bearings: &Vec<Bearing>) -> (r: (usize, usize, usize, usize, usize))
    ensures
        r.0 == count_where(bearings@, bearing_at(BearingStatus::Exploring)),
        r.1 == count_where(bearings@, bearing_at(BearingStatus::Evaluating)),
        r.2 == count_where(bearings@, bearing_at(BearingStatus::Ready)),
        r.3 == count_where(bearings@, bearing_at(BearingStatus::Laid)),
        r.4 == count_where(bearings@, bearing_at(BearingStatus::Parked)),
{
    let mut exploring: usize = 0;
    let mut evaluating: usize = 0;
    let mut ready: usize = 0;
    let mut laid: usize = 0;
    let mut parked: usize = 0;
    let mut i: usize = 0;
    while i < bearings.len()
        invariant
            i <= bearings.len(),
            exploring == count_where(bearings@.take(i as int), bearing_at(BearingStatus::Exploring)),
            evaluating == count_where(bearings@.take(i as int), bearing_at(BearingStatus::Evaluating)),
            ready == count_where(bearings@.take(i as int), bearing_at(BearingStatus::Ready)),
            laid == count_where(bearings@.take(i as int), bearing_at(BearingStatus::Laid)),
            parked == count_where(bearings@.take(i as int), bearing_at(BearingStatus::Parked)),
        decreases bearings.len() - i,
    {
        proof {
            lemma_count_step(bearings@, i as int, bearing_at(BearingStatus::Exploring));
            lemma_count_step(bearings@, i as int, bearing_at(BearingStatus::Evaluating));
            lemma_count_step(bearings@, i as int, bearing_at(BearingStatus::Ready));
            lemma_count_step(bearings@, i as int, bearing_at(BearingStatus::Laid));
            lemma_count_step(bearings@, i as int, bearing_at(BearingStatus::Parked));
        }
        match bearings[i].status {
            BearingStatus::Exploring => { exploring = exploring + 1; },
            BearingStatus::Evaluating => { evaluating = evaluating + 1; },
            BearingStatus::Ready => { ready = ready + 1; },
            BearingStatus::Laid => { laid = laid + 1; },
            BearingStatus::Parked => { parked = parked + 1; },
            BearingStatus::Declined => {},
        }
        i = i + 1;
    }
    proof {
        assert(bearings@.take(bearings@.len() as int) =~= bearings@);
    }
    (exploring, evaluating, ready, laid, parked)
}

/// ADR counts: proposed, accepted.
fn adr_counts(adrs: &Vec<Adr>) -> (r: (usize, usize))
    ensures
        r.0 == count_where(adrs@, adr_at(AdrStatus::Proposed)),
        r.1 == count_where(adrs@, adr_at(AdrStatus::Accepted)),
{
    let mut proposed: usize = 0;
    let mut accepted: usize = 0;
    let mut i: usize = 0;
    while i < adrs.len()
        invariant
            i <= adrs.len(),
            proposed == count_where(adrs@.take(i as int), adr_at(AdrStatus::Proposed)),
            accepted == count_where(adrs@.take(i as int), adr_at(AdrStatus::Accepted)),
        decreases adrs.len() - i,
    {
        proof {
            lemma_count_step(adrs@, i as int, adr_at(AdrStatus::Proposed));
            lemma_count_step(adrs@, i as int, adr_at(AdrStatus::Accepted));
        }
        match adrs[i].status {
            AdrStatus::Proposed => { proposed = proposed + 1; },
            AdrStatus::Accepted => { accepted = accepted + 1; },
            _ => {},
        }
        i = i + 1;
    }
    proof {
        assert(adrs@.take(adrs@.len() as int) =~= adrs@);
    }
    (proposed, accepted)
}

/// Epics that no voyage names as its epic.
fn epics_needing_voyages(b: &Board) -> (r: usize)
    ensures
        r == epics_without_voyages(*b),
{
    let mut n: usize = 0;
    let mut i: usize = 0;
    while i < b.epics.len()
        invariant
            i <= b.epics.len(),
            n == count_where(b.epics@.take(i as int), voyageless(*b)),
        decreases b.epics.len() - i,
    {
        proof {
            lemma_count_step(b.epics@, i as int, voyageless(*b));
        }
        if epic_without_voyages(b, &b.epics[i]) {
            n = n + 1;
        }
        i = i + 1;
    }
    proof {
        assert(b.epics@.take(b.epics@.len() as int) =~= b.epics@);
    }
    n
}

/// The flow state of the board at time `now` (seconds on the clock of the
/// board's timestamps).
pub fn calculate_flow_state(board: &Board, now: i64) -> (m: FlowMetrics)
    ensures
        m == flow_state_spec(*board, now as int),
{
    let (backlog, progress, waiting, done, oldest) = story_counts(&board.stories, now);
    let (draft, planned, active) = voyage_counts(&board.voyages);
    let (exploring, evaluating, ready, laid, parked) = bearing_counts(&board.bearings);
    let (proposed, accepted) = adr_counts(&board.adrs);
    let needing = epics_needing_voyages(board);
    FlowMetrics {
        governance: GovernanceMetrics { proposed_count: proposed, accepted_count: accepted },
        research: ResearchMetrics {
            exploring_count: exploring,
            surveying_count: evaluating,
            assessing_count: ready,
            laid_count: laid,
            parked_count: parked,
        },
        planning: PlanningMetrics {
            epics_needing_voyages: needing,
            draft_count: draft,
            planned_count: planned,
        },
        execution: ExecutionMetrics {
            backlog_count: backlog,
            in_progress_count: progress,
            active_voyages_count: active,
        },
        verification: VerificationMetrics { count: waiting, max_age_days: oldest },
        done_count: done,
    }
}

} // verus!

//! The NEXT UP section of the flow dashboard: the items each queue (human
//! and agent) should take next, with epic momentum deciding between
//! otherwise equal candidates.

use vstd::prelude::*;
use crate::model::{StoryState, VoyageState, BearingStatus};
use crate::board::{Board, Story, Voyage, Epic, Bearing, opt_view, first_segment, scope_epic, epic_of_scope};
use crate::order::{SortKey, KeyView, keys_view, pick_first, select_first, sort_eligible, sorted_eligible};
use crate::text::{lex_le, lemma_lex_total, lemma_lex_antisym, lemma_lex_trans, str_le, str_eq, concat2,
    owned, to_uppercase, unicode_upper};

verus! {

// ---------------------------------------------------------------------
// Epic momentum
// ---------------------------------------------------------------------

/// The recent activity a story shows: the epic of its scope and the time
/// it was submitted (awaiting verification) or last updated (in progress).
pub open spec fn activity(s: Story) -> Option<(Seq<char>, int)> {
    match s.scope {
        Some(sc) => {
            if s.stage == StoryState::NeedsHumanVerification {
                match s.submitted_at {
                    Some(t) => Some((first_segment(sc@), t as int)),
                    None => None,
                }
            } else if s.stage == StoryState::InProgress {
                match s.updated_at {
                    Some(t) => Some((first_segment(sc@), t as int)),
                    None => None,
                }
            } else {
                None
            }
        },
        None => None,
    }
}

/// The time of a story's activity (0 when it shows none).
pub open spec fn act_time(s: Story) -> int {
    match activity(s) {
        Some(p) => p.1,
        None => 0,
    }
}

/// The epic of a story's activity (empty when it shows none).
pub open spec fn act_epic(s: Story) -> Seq<char> {
    match activity(s) {
        Some(p) => p.0,
        None => Seq::empty(),
    }
}

/// Story `i` shows activity at the latest time any story shows.
pub open spec fn latest_at(b: Board, i: int) -> bool {
    &&& 0 <= i < b.stories@.len()
    &&& activity(b.stories@[i]) is Some
    &&& forall|j: int| 0 <= j < b.stories@.len() && (#[trigger] activity(b.stories@[j])) is Some
        ==> act_time(b.stories@[j]) <= act_time(b.stories@[i])
}

/// Epic `e` has activity at the latest time.
pub open spec fn recent_epic(b: Board, e: Seq<char>) -> bool {
    exists|i: int| latest_at(b, i) && (#[trigger] act_epic(b.stories@[i])) == e
}

/// Epic `e` has a draft voyage.
pub open spec fn has_draft(b: Board, e: Seq<char>) -> bool {
    exists|k: int| 0 <= k < b.voyages@.len() && (#[trigger] b.voyages@[k]).status == VoyageState::Draft
        && b.voyages@[k].epic_id@ == e
}

/// Some most recently active epic has a draft voyage.
pub open spec fn draft_pressure(b: Board) -> bool {
    exists|e: Seq<char>| #[trigger] recent_epic(b, e) && has_draft(b, e)
}

/// The epics among which momentum decides: the most recently active ones,
/// narrowed to those with draft voyages when any of them has one.
pub open spec fn momentum_candidate(b: Board, e: Seq<char>) -> bool {
    recent_epic(b, e) && (has_draft(b, e) || !draft_pressure(b))
}

/// The number of stories of epic `e` awaiting verification.
pub open spec fn awaiting_count(stories: Seq<Story>, e: Seq<char>) -> nat
    decreases stories.len(),
{
    if stories.len() == 0 {
        0
    } else {
        awaiting_count(stories.drop_last(), e) + if stories.last().stage == StoryState::NeedsHumanVerification
            && scope_epic(opt_view(stories.last().scope)) == Some(e) {
            1nat
        } else {
            0nat
        }
    }
}

/// `e1` has at least the momentum of `e2`: more stories awaiting
/// verification, or as many and a name that sorts first.
pub open spec fn momentum_le(b: Board, e1: Seq<char>, e2: Seq<char>) -> bool {
    awaiting_count(b.stories@, e1) > awaiting_count(b.stories@, e2)
        || (awaiting_count(b.stories@, e1) == awaiting_count(b.stories@, e2) && lex_le(e1, e2))
}

/// `e` is the epic in focus: a candidate with the most momentum.
pub open spec fn focus_epic(b: Board, e: Seq<char>) -> bool {
    momentum_candidate(b, e) && forall|e2: Seq<char>| #[trigger] momentum_candidate(b, e2) ==> momentum_le(b, e, e2)
}

/// The single most recently active epic, if any story shows activity.
pub open spec fn active_epic(b: Board) -> Option<Seq<char>> {
    if exists|e: Seq<char>| focus_epic(b, e) {
        Some(choose|e: Seq<char>| focus_epic(b, e))
    } else {
        None
    }
}

/// At most one epic is in focus.
pub proof fn lemma_focus_unique(b: Board, e1: Seq<char>, e2: Seq<char>)
    requires
        focus_epic(b, e1),
        focus_epic(b, e2),
    ensures
        e1 == e2,
{
    assert(momentum_le(b, e1, e2));
    assert(momentum_le(b, e2, e1));
    lemma_lex_antisym(e1, e2);
}

/// Whenever some story shows activity, an epic is in focus.
pub proof fn lemma_active_epic_exists(b: Board, e: Seq<char>)
    requires
        focus_epic(b, e),
    ensures
        active_epic(b) == Some(e),
{
    let c = choose|x: Seq<char>| focus_epic(b, x);
    lemma_focus_unique(b, e, c);
}

/// The activity of one story.
fn activity_of(s: &Story) -> (r: Option<(String, i64)>)
    ensures
        match r {
            Some(p) => activity(*s) == Some((p.0@, p.1 as int)),
            None => activity(*s) is None,
        },
{
    let t = if matches!(s.stage, StoryState::NeedsHumanVerification) {
        s.submitted_at
    } else if matches!(s.stage, StoryState::InProgress) {
        s.updated_at
    } else {
        None
    };
    match t {
        Some(t) => match epic_of_scope(&s.scope) {
            Some(e) => Some((e, t)),
            None => None,
        },
        None => None,
    }
}

/// Whether epic `e` has a draft voyage.
fn epic_has_draft(b: &Board, e: &str) -> (r: bool)
    ensures
        r == has_draft(*b, e@),
{
    let mut k: usize = 0;
    while k < b.voyages.len()
        invariant
            k <= b.voyages.len(),
            forall|j: int| 0 <= j < k ==> !((#[trigger] b.voyages@[j]).status == VoyageState::Draft && b.voyages@[j].epic_id@ == e@),
        decreases b.voyages.len() - k,
    {
        if matches!(b.voyages[k].status, VoyageState::Draft) && str_eq(b.voyages[k].epic_id.as_str(), e) {
            return true;
        }
        k = k + 1;
    }
    false
}

proof fn lemma_awaiting_count_bound(stories: Seq<Story>, e: Seq<char>)
    ensures
        awaiting_count(stories, e) <= stories.len(),
    decreases stories.len(),
{
    if stories.len() > 0 {
        lemma_awaiting_count_bound(stories.drop_last(), e);
    }
}

/// The number of stories of epic `e` awaiting verification.
fn count_awaiting(b: &Board, e: &str) -> (r: usize)
    ensures
        r == awaiting_count(b.stories@, e@),
{
    let mut n: usize = 0;
    let mut k: usize = 0;
    while k < b.stories.len()
        invariant
            k <= b.stories.len(),
            n == awaiting_count(b.stories@.take(k as int), e@),
        decreases b.stories.len() - k,
    {
        assert(b.stories@.take(k + 1).drop_last() =~= b.stories@.take(k as int));
        proof {
            lemma_awaiting_count_bound(b.stories@.take(k as int), e@);
        }
        let s = &b.stories[k];
        if matches!(s.stage, StoryState::NeedsHumanVerification) {
            let se = epic_of_scope(&s.scope);
            match se {
                Some(x) => {
                    if str_eq(x.as_str(), e) {
                        n = n + 1;
                    }
                },
                None => {},
            }
        }
        k = k + 1;
    }
    assert(b.stories@.take(k as int) =~= b.stories@);
    n
}

/// The most recently active epic: among the epics whose stories show the
/// latest activity, those with draft voyages if any has one, and of these
/// the one with the most stories awaiting verification (then by name).
pub fn find_most_recent_epic(b: &Board) -> (r: Option<String>)
    ensures
        opt_view(r) == active_epic(*b),
{
    let n = b.stories.len();
    // The latest activity time and a story showing it.
    let mut latest: Option<(usize, i64)> = None;
    let mut k: usize = 0;
    while k < n
        invariant
            n == b.stories@.len(),
            k <= n,
            match latest {
                None => forall|j: int| 0 <= j < k ==> (#[trigger] activity(b.stories@[j])) is None,
                Some(p) => p.0 < k && activity(b.stories@[p.0 as int]) is Some
                    && act_time(b.stories@[p.0 as int]) == p.1
                    && forall|j: int| 0 <= j < k && (#[trigger] activity(b.stories@[j])) is Some
                        ==> act_time(b.stories@[j]) <= p.1,
            },
        decreases n - k,
    {
        match activity_of(&b.stories[k]) {
            Some(p) => {
                match latest {
                    None => {
                        latest = Some((k, p.1));
                    },
                    Some(q) => {
                        if p.1 > q.1 {
                            latest = Some((k, p.1));
                        }
                    },
                }
            },
            None => {},
        }
        k = k + 1;
    }
    let (i0, m) = match latest {
        None => {
            proof {
                if exists|e: Seq<char>| focus_epic(*b, e) {
                    let e = choose|e: Seq<char>| focus_epic(*b, e);
                    assert(recent_epic(*b, e));
                    let i = choose|i: int| latest_at(*b, i) && (#[trigger] act_epic(b.stories@[i])) == e;
                    assert(activity(b.stories@[i]) is Some);
                }
            }
            return None;
        },
        Some(p) => p,
    };
    assert(latest_at(*b, i0 as int));
    // A story shows the latest activity exactly when its time is `m`.
    assert forall|j: int| 0 <= j < n implies latest_at(*b, j) == (activity(b.stories@[j]) is Some
        && act_time(b.stories@[j]) == m) by {
        if latest_at(*b, j) {
            assert(act_time(b.stories@[i0 as int]) <= act_time(b.stories@[j]));
        }
    }
    // Whether some most recently active epic has a draft voyage.
    let mut pressure = false;
    let mut k: usize = 0;
    while k < n
        invariant
            n == b.stories@.len(),
            k <= n,
            forall|j: int| 0 <= j < n ==> latest_at(*b, j) == ((#[trigger] activity(b.stories@[j])) is Some
                && act_time(b.stories@[j]) == m),
            pressure ==> draft_pressure(*b),
            !pressure ==> forall|j: int| 0 <= j < k && #[trigger] latest_at(*b, j)
                ==> !has_draft(*b, act_epic(b.stories@[j])),
        decreases n - k,
    {
        match activity_of(&b.stories[k]) {
            Some(p) => {
                if p.1 == m && epic_has_draft(b, p.0.as_str()) {
                    assert(latest_at(*b, k as int));
                    assert(act_epic(b.stories@[k as int]) == p.0@);
                    assert(recent_epic(*b, p.0@));
                    pressure = true;
                }
            },
            None => {},
        }
        k = k + 1;
    }
    proof {
        if draft_pressure(*b) && !pressure {
            let e = choose|e: Seq<char>| #[trigger] recent_epic(*b, e) && has_draft(*b, e);
            let i = choose|i: int| latest_at(*b, i) && (#[trigger] act_epic(b.stories@[i])) == e;
            assert(latest_at(*b, i));
        }
    }
    // The candidate with the most momentum.
    let mut best: Option<(String, usize)> = None;
    let mut k: usize = 0;
    while k < n
        invariant
            n == b.stories@.len(),
            k <= n,
            i0 < n,
            latest_at(*b, i0 as int),
            forall|j: int| 0 <= j < n ==> latest_at(*b, j) == ((#[trigger] activity(b.stories@[j])) is Some
                && act_time(b.stories@[j]) == m),
            pressure == draft_pressure(*b),
            match best {
                None => forall|j: int| 0 <= j < k && #[trigger] latest_at(*b, j)
                    ==> !momentum_candidate(*b, act_epic(b.stories@[j])),
                Some(p) => momentum_candidate(*b, p.0@) && p.1 == awaiting_count(b.stories@, p.0@)
                    && forall|j: int| 0 <= j < k && #[trigger] latest_at(*b, j)
                        && momentum_candidate(*b, act_epic(b.stories@[j]))
                        ==> momentum_le(*b, p.0@, act_epic(b.stories@[j])),
            },
        decreases n - k,
    {
        match activity_of(&b.stories[k]) {
            Some(p) => {
                if p.1 == m {
                    let hd = epic_has_draft(b, p.0.as_str());
                    assert(latest_at(*b, k as int));
                    assert(act_epic(b.stories@[k as int]) == p.0@);
                    assert(recent_epic(*b, p.0@));
                    if hd || !pressure {
                        let c = count_awaiting(b, p.0.as_str());
                        let replace = match best {
                            None => true,
                            Some(ref q) => c > q.1 || (c == q.1 && str_le(p.0.as_str(), q.0.as_str())
                                && !str_eq(p.0.as_str(), q.0.as_str())),
                        };
                        proof {
                            match best {
                                Some(ref q) => {
                                    lemma_lex_total(p.0@, q.0@);
                                    if replace {
                                        assert forall|j: int| 0 <= j < k + 1 && #[trigger] latest_at(*b, j)
                                            && momentum_candidate(*b, act_epic(b.stories@[j]))
                                            implies momentum_le(*b, p.0@, act_epic(b.stories@[j])) by {
                                            if j < k {
                                                let ej = act_epic(b.stories@[j]);
                                                assert(momentum_le(*b, q.0@, ej));
                                                if c == q.1 && awaiting_count(b.stories@, q.0@) == awaiting_count(b.stories@, ej) {
                                                    lemma_lex_trans(p.0@, q.0@, ej);
                                                }
                                            } else {
                                                crate::text::lemma_lex_refl(p.0@);
                                            }
                                        }
                                    } else {
                                        assert(momentum_le(*b, q.0@, p.0@));
                                    }
                                },
                                None => {
                                    crate::text::lemma_lex_refl(p.0@);
                                },
                            }
                        }
                        if replace {
                            best = Some((p.0, c));
                        }
                    } else {
                        assert(!momentum_candidate(*b, p.0@));
                    }
                }
            },
            None => {},
        }
        k = k + 1;
    }
    match best {
        Some(p) => {
            proof {
                assert forall|e2: Seq<char>| #[trigger] momentum_candidate(*b, e2) implies momentum_le(*b, p.0@, e2) by {
                    let i = choose|i: int| latest_at(*b, i) && (#[trigger] act_epic(b.stories@[i])) == e2;
                    assert(latest_at(*b, i));
                }
                lemma_active_epic_exists(*b, p.0@);
            }
            Some(p.0)
        },
        None => {
            proof {
                let e0 = act_epic(b.stories@[i0 as int]);
                assert(recent_epic(*b, e0));
                if draft_pressure(*b) {
                    let e = choose|e: Seq<char>| #[trigger] recent_epic(*b, e) && has_draft(*b, e);
                    let i = choose|i: int| latest_at(*b, i) && (#[trigger] act_epic(b.stories@[i])) == e;
                    assert(latest_at(*b, i));
                    assert(momentum_candidate(*b, e));
                } else {
                    assert(momentum_candidate(*b, e0));
                }
            }
            None
        },
    }
}


// ---------------------------------------------------------------------
// Items
// ---------------------------------------------------------------------

/// An entry of the NEXT UP section.
#[derive(Clone, Debug)]
pub struct NextUpItem {
    /// Story, voyage, epic or bearing id.
    pub id: String,
    /// Display title.
    pub title: String,
    /// What to do with it: accept, start, decompose, plan, lay, survey,
    /// assess, review, backlog or wip.
    pub category: String,
    /// The command that does it, where there is one.
    pub command: Option<String>,
}

/// The NEXT UP section: what each queue should take next, in priority
/// order.
#[derive(Clone, Debug)]
pub struct NextUpSection {
    pub human_items: Vec<NextUpItem>,
    pub agent_items: Vec<NextUpItem>,
}

/// An item as plain values: id, title, category and command.
pub type ItemView = (Seq<char>, Seq<char>, Seq<char>, Option<Seq<char>>);

impl NextUpItem {
    pub open spec fn view(&self) -> ItemView {
        (self.id@, self.title@, self.category@, opt_view(self.command))
    }
}

/// The views of a list of items.
pub open spec fn items_view(v: Seq<NextUpItem>) -> Seq<ItemView> {
    v.map_values(|i: NextUpItem| i.view())
}

fn make_item(id: &String, title: &String, category: &str, command: Option<String>) -> (r: NextUpItem)
    ensures
        r.view() == (id@, title@, category@, opt_view(command)),
{
    NextUpItem { id: id.clone(), title: title.clone(), category: owned(category), command }
}

/// An index rank in which a missing index comes first.
pub open spec fn index_rank(i: Option<u32>) -> int {
    match i {
        Some(x) => x as int,
        None => -1,
    }
}

fn index_rank_of(i: Option<u32>) -> (r: i64)
    ensures
        r == index_rank(i),
{
    match i {
        Some(x) => x as i64,
        None => -1,
    }
}

// Human queue: acceptance.

pub open spec fn accept_key(s: Story) -> KeyView {
    match s.submitted_at {
        Some(t) => (1, Seq::empty(), t as int, 0, Seq::empty()),
        None => (0, Seq::empty(), 0, 0, Seq::empty()),
    }
}

pub open spec fn accept_keys(b: Board) -> Seq<KeyView> {
    b.stories@.map_values(|s: Story| accept_key(s))
}

pub open spec fn accept_oks(b: Board) -> Seq<bool> {
    b.stories@.map_values(|s: Story| s.stage == StoryState::NeedsHumanVerification)
}

pub open spec fn accept_item(s: Story) -> ItemView {
    (s.id@, s.title@, "accept"@, Some("keel story accept "@ + unicode_upper(s.id@)))
}

/// The story to accept next: the one awaiting verification longest
/// (never submitted first).
pub open spec fn accept_part(b: Board) -> Seq<ItemView> {
    match pick_first(accept_keys(b), accept_oks(b)) {
        Some(i) => seq![accept_item(b.stories@[i])],
        None => Seq::empty(),
    }
}

// Human queue: voyages to start or plan.

pub open spec fn voyage_key(b: Board, v: Voyage) -> KeyView {
    (if active_epic(b) == Some(v.epic_id@) { 0int } else { 1int }, Seq::empty(), 0, 0, v.id@)
}

pub open spec fn voyage_keys(b: Board) -> Seq<KeyView> {
    b.voyages@.map_values(|v: Voyage| voyage_key(b, v))
}

pub open spec fn voyage_oks(b: Board, st: VoyageState) -> Seq<bool> {
    b.voyages@.map_values(|v: Voyage| v.status == st)
}

pub open spec fn start_item(v: Voyage) -> ItemView {
    (v.id@, v.title@, "start"@, Some("keel voyage start "@ + v.id@))
}

pub open spec fn plan_item(v: Voyage) -> ItemView {
    (v.id@, v.title@, "plan"@, Some("keel voyage plan "@ + v.id@))
}

/// The planned voyage to start next: one of the active epic first, then by
/// id.
pub open spec fn start_part(b: Board) -> Seq<ItemView> {
    match pick_first(voyage_keys(b), voyage_oks(b, VoyageState::Planned)) {
        Some(i) => seq![start_item(b.voyages@[i])],
        None => Seq::empty(),
    }
}

// Human queue: decomposition.

pub open spec fn epic_needs_voyages(b: Board, e: Epic) -> bool {
    forall|k: int| 0 <= k < b.voyages@.len() ==> opt_view((#[trigger] b.voyages@[k]).epic) != Some(e.id@)
}

pub open spec fn epic_keys(b: Board) -> Seq<KeyView> {
    b.epics@.map_values(|e: Epic| (0int, Seq::<char>::empty(), 0int, 0int, e.id@))
}

pub open spec fn epic_oks(b: Board) -> Seq<bool> {
    b.epics@.map_values(|e: Epic| epic_needs_voyages(b, e))
}

pub open spec fn decompose_item(e: Epic) -> ItemView {
    (e.id@, e.title@, "decompose"@, Some("keel voyage new \"<name>\" --epic "@ + e.id@))
}

/// An epic without voyages (first by id), else the draft voyage to plan
/// next (one of the active epic first, then by id).
pub open spec fn decompose_part(b: Board) -> Seq<ItemView> {
    match pick_first(epic_keys(b), epic_oks(b)) {
        Some(i) => seq![decompose_item(b.epics@[i])],
        None => match pick_first(voyage_keys(b), voyage_oks(b, VoyageState::Draft)) {
            Some(i) => seq![plan_item(b.voyages@[i])],
            None => Seq::empty(),
        },
    }
}

// Human queue: research.

pub open spec fn bearing_open(x: Bearing) -> bool {
    x.status == BearingStatus::Exploring || x.status == BearingStatus::Evaluating
        || x.status == BearingStatus::Ready
}

/// Most actionable first (ready, evaluating, exploring), then the one with
/// more artifacts, then by id.
pub open spec fn bearing_key(x: Bearing) -> KeyView {
    (
        if x.status == BearingStatus::Ready { 0int } else if x.status == BearingStatus::Evaluating { 1int } else { 2int },
        Seq::empty(),
        2 - (if x.has_survey { 1int } else { 0int }) - (if x.has_assessment { 1int } else { 0int }),
        0,
        x.id@,
    )
}

pub open spec fn bearing_keys(b: Board) -> Seq<KeyView> {
    b.bearings@.map_values(|x: Bearing| bearing_key(x))
}

pub open spec fn bearing_oks(b: Board) -> Seq<bool> {
    b.bearings@.map_values(|x: Bearing| bearing_open(x))
}

/// What a bearing needs next.
pub open spec fn bearing_action(x: Bearing) -> Seq<char> {
    if x.status == BearingStatus::Ready {
        "lay"@
    } else if !x.has_survey {
        "survey"@
    } else if !x.has_assessment {
        "assess"@
    } else {
        "review"@
    }
}

pub open spec fn bearing_item(x: Bearing) -> ItemView {
    let cmd = if x.status == BearingStatus::Ready {
        "keel bearing lay "@
    } else if !x.has_survey {
        "keel bearing survey "@
    } else if !x.has_assessment {
        "keel bearing assess "@
    } else {
        "keel bearing show "@
    };
    (x.id@, x.title@, bearing_action(x), Some(cmd + x.id@))
}

pub open spec fn bearing_part(b: Board) -> Seq<ItemView> {
    match pick_first(bearing_keys(b), bearing_oks(b)) {
        Some(i) => seq![bearing_item(b.bearings@[i])],
        None => Seq::empty(),
    }
}

/// The human queue: accept, start, decompose or plan, research.
pub open spec fn human_next_up(b: Board) -> Seq<ItemView> {
    accept_part(b) + start_part(b) + decompose_part(b) + bearing_part(b)
}

// Agent queue.

/// Some story in progress belongs to epic `e`.
pub open spec fn wip_epic(b: Board, e: Seq<char>) -> bool {
    exists|j: int| 0 <= j < b.stories@.len() && (#[trigger] b.stories@[j]).stage == StoryState::InProgress
        && scope_epic(opt_view(b.stories@[j].scope)) == Some(e)
}

/// Stories of an epic with work in progress first, then by index, then by id.
pub open spec fn backlog_key(b: Board, s: Story) -> KeyView {
    (
        match scope_epic(opt_view(s.scope)) {
            Some(e) => if wip_epic(b, e) { 0int } else { 1int },
            None => 1int,
        },
        Seq::empty(),
        index_rank(s.index),
        0,
        s.id@,
    )
}

pub open spec fn backlog_keys(b: Board) -> Seq<KeyView> {
    b.stories@.map_values(|s: Story| backlog_key(b, s))
}

pub open spec fn stage_oks(b: Board, st: StoryState) -> Seq<bool> {
    b.stories@.map_values(|s: Story| s.stage == st)
}

pub open spec fn backlog_item(s: Story) -> ItemView {
    (s.id@, s.title@, "backlog"@, Some("keel story start "@ + unicode_upper(s.id@)))
}

pub open spec fn backlog_part(b: Board) -> Seq<ItemView> {
    match pick_first(backlog_keys(b), stage_oks(b, StoryState::Backlog)) {
        Some(i) => seq![backlog_item(b.stories@[i])],
        None => Seq::empty(),
    }
}

pub open spec fn wip_keys(b: Board) -> Seq<KeyView> {
    b.stories@.map_values(|s: Story| (0int, Seq::empty(), index_rank(s.index), 0int, s.id@))
}

pub open spec fn wip_item(s: Story) -> ItemView {
    (s.id@, s.title@, "wip"@, None)
}

/// The agent queue: the next backlog story, then every story in progress
/// by index and id, as listed in `order`.
pub open spec fn agent_next_up(b: Board, order: Seq<int>) -> Seq<ItemView> {
    backlog_part(b) + order.map_values(|i: int| wip_item(b.stories@[i]))
}

/// Whether any story in progress belongs to epic `e`.
fn has_wip_in_epic(b: &Board, e: &str) -> (r: bool)
    ensures
        r == wip_epic(*b, e@),
{
    let mut k: usize = 0;
    while k < b.stories.len()
        invariant
            k <= b.stories.len(),
            forall|j: int| 0 <= j < k ==> !((#[trigger] b.stories@[j]).stage == StoryState::InProgress
                && scope_epic(opt_view(b.stories@[j].scope)) == Some(e@)),
        decreases b.stories.len() - k,
    {
        if matches!(b.stories[k].stage, StoryState::InProgress) {
            match epic_of_scope(&b.stories[k].scope) {
                Some(x) => {
                    if str_eq(x.as_str(), e) {
                        return true;
                    }
                },
                None => {},
            }
        }
        k = k + 1;
    }
    false
}

/// Whether epic `e` has no voyage naming it.
pub(crate) fn epic_without_voyages(b: &Board, e: &Epic) -> (r: bool)
    ensures
        r == epic_needs_voyages(*b, *e),
{
    let mut k: usize = 0;
    while k < b.voyages.len()
        invariant
            k <= b.voyages.len(),
            forall|j: int| 0 <= j < k ==> opt_view((#[trigger] b.voyages@[j]).epic) != Some(e.id@),
        decreases b.voyages.len() - k,
    {
        match &b.voyages[k].epic {
            Some(x) => {
                if str_eq(x.as_str(), e.id.as_str()) {
                    return false;
                }
            },
            None => {},
        }
        k = k + 1;
    }
    true
}

fn story_selection(b: &Board, which: u8) -> (r: (Vec<SortKey>, Vec<bool>))
    requires
        which < 3,
    ensures
        r.0@.len() == b.stories@.len(),
        r.1@.len() == b.stories@.len(),
        which == 0 ==> keys_view(r.0@) == accept_keys(*b) && r.1@ == accept_oks(*b),
        which == 1 ==> keys_view(r.0@) == backlog_keys(*b) && r.1@ == stage_oks(*b, StoryState::Backlog),
        which == 2 ==> keys_view(r.0@) == wip_keys(*b) && r.1@ == stage_oks(*b, StoryState::InProgress),
{
    let mut keys: Vec<SortKey> = Vec::new();
    let mut oks: Vec<bool> = Vec::new();
    let mut k: usize = 0;
    while k < b.stories.len()
        invariant
            which < 3,
            k <= b.stories.len(),
            keys@.len() == k,
            oks@.len() == k,
            forall|i: int| 0 <= i < k ==> #[trigger] keys@[i].view() == (if which == 0 {
                accept_key(b.stories@[i])
            } else if which == 1 {
                backlog_key(*b, b.stories@[i])
            } else {
                (0int, Seq::empty(), index_rank(b.stories@[i].index), 0int, b.stories@[i].id@)
            }),
            forall|i: int| 0 <= i < k ==> #[trigger] oks@[i] == (if which == 0 {
                b.stories@[i].stage == StoryState::NeedsHumanVerification
            } else if which == 1 {
                b.stories@[i].stage == StoryState::Backlog
            } else {
                b.stories@[i].stage == StoryState::InProgress
            }),
        decreases b.stories.len() - k,
    {
        let s = &b.stories[k];
        if which == 0 {
            let key = match s.submitted_at {
                Some(t) => SortKey { a: 1, pre: String::new(), b: t, c: 0, name: String::new() },
                None => SortKey { a: 0, pre: String::new(), b: 0, c: 0, name: String::new() },
            };
            keys.push(key);
            oks.push(matches!(s.stage, StoryState::NeedsHumanVerification));
        } else if which == 1 {
            let same: i64 = match epic_of_scope(&s.scope) {
                Some(e) => if has_wip_in_epic(b, e.as_str()) { 0 } else { 1 },
                None => 1,
            };
            keys.push(SortKey { a: same, pre: String::new(), b: index_rank_of(s.index), c: 0, name: s.id.clone() });
            oks.push(matches!(s.stage, StoryState::Backlog));
        } else {
            keys.push(SortKey { a: 0, pre: String::new(), b: index_rank_of(s.index), c: 0, name: s.id.clone() });
            oks.push(matches!(s.stage, StoryState::InProgress));
        }
        k = k + 1;
    }
    proof {
        if which == 0 {
            assert(keys_view(keys@) =~= accept_keys(*b));
            assert(oks@ =~= accept_oks(*b));
        } else if which == 1 {
            assert(keys_view(keys@) =~= backlog_keys(*b));
            assert(oks@ =~= stage_oks(*b, StoryState::Backlog));
        } else {
            assert(keys_view(keys@) =~= wip_keys(*b));
            assert(oks@ =~= stage_oks(*b, StoryState::InProgress));
        }
    }
    (keys, oks)
}

fn voyage_selection(b: &Board, active: &Option<String>, st: VoyageState) -> (r: (Vec<SortKey>, Vec<bool>))
    requires
        opt_view(*active) == active_epic(*b),
    ensures
        r.0@.len() == b.voyages@.len(),
        r.1@.len() == b.voyages@.len(),
        keys_view(r.0@) == voyage_keys(*b),
        r.1@ == voyage_oks(*b, st),
{
    let mut keys: Vec<SortKey> = Vec::new();
    let mut oks: Vec<bool> = Vec::new();
    let mut k: usize = 0;
    while k < b.voyages.len()
        invariant
            opt_view(*active) == active_epic(*b),
            k <= b.voyages.len(),
            keys@.len() == k,
            oks@.len() == k,
            forall|i: int| 0 <= i < k ==> #[trigger] keys@[i].view() == voyage_key(*b, b.voyages@[i]),
            forall|i: int| 0 <= i < k ==> #[trigger] oks@[i] == (b.voyages@[i].status == st),
        decreases b.voyages.len() - k,
    {
        let v = &b.voyages[k];
        let a: i64 = match active {
            Some(e) => if str_eq(e.as_str(), v.epic_id.as_str()) { 0 } else { 1 },
            None => 1,
        };
        keys.push(SortKey { a, pre: String::new(), b: 0, c: 0, name: v.id.clone() });
        oks.push(v.status == st);
        k = k + 1;
    }
    assert(keys_view(keys@) =~= voyage_keys(*b));
    assert(oks@ =~= voyage_oks(*b, st));
    (keys, oks)
}

fn epic_selection(b: &Board) -> (r: (Vec<SortKey>, Vec<bool>))
    ensures
        r.0@.len() == b.epics@.len(),
        r.1@.len() == b.epics@.len(),
        keys_view(r.0@) == epic_keys(*b),
        r.1@ == epic_oks(*b),
{
    let mut keys: Vec<SortKey> = Vec::new();
    let mut oks: Vec<bool> = Vec::new();
    let mut k: usize = 0;
    while k < b.epics.len()
        invariant
            k <= b.epics.len(),
            keys@.len() == k,
            oks@.len() == k,
            forall|i: int| 0 <= i < k ==> #[trigger] keys@[i].view() == (0int, Seq::<char>::empty(), 0int, 0int, b.epics@[i].id@),
            forall|i: int| 0 <= i < k ==> #[trigger] oks@[i] == epic_needs_voyages(*b, b.epics@[i]),
        decreases b.epics.len() - k,
    {
        let e = &b.epics[k];
        keys.push(SortKey { a: 0, pre: String::new(), b: 0, c: 0, name: e.id.clone() });
        oks.push(epic_without_voyages(b, e));
        k = k + 1;
    }
    assert(keys_view(keys@) =~= epic_keys(*b));
    assert(oks@ =~= epic_oks(*b));
    (keys, oks)
}

fn bearing_selection(b: &Board) -> (r: (Vec<SortKey>, Vec<bool>))
    ensures
        r.0@.len() == b.bearings@.len(),
        r.1@.len() == b.bearings@.len(),
        keys_view(r.0@) == bearing_keys(*b),
        r.1@ == bearing_oks(*b),
{
    let mut keys: Vec<SortKey> = Vec::new();
    let mut oks: Vec<bool> = Vec::new();
    let mut k: usize = 0;
    while k < b.bearings.len()
        invariant
            k <= b.bearings.len(),
            keys@.len() == k,
            oks@.len() == k,
            forall|i: int| 0 <= i < k ==> #[trigger] keys@[i].view() == bearing_key(b.bearings@[i]),
            forall|i: int| 0 <= i < k ==> #[trigger] oks@[i] == bearing_open(b.bearings@[i]),
        decreases b.bearings.len() - k,
    {
        let x = &b.bearings[k];
        let rank: i64 = match x.status {
            BearingStatus::Ready => 0,
            BearingStatus::Evaluating => 1,
            _ => 2,
        };
        let artifacts: i64 = 2 - (if x.has_survey { 1i64 } else { 0 }) - (if x.has_assessment { 1i64 } else { 0 });
        keys.push(SortKey { a: rank, pre: String::new(), b: artifacts, c: 0, name: x.id.clone() });
        oks.push(matches!(x.status, BearingStatus::Exploring | BearingStatus::Evaluating | BearingStatus::Ready));
        k = k + 1;
    }
    assert(keys_view(keys@) =~= bearing_keys(*b));
    assert(oks@ =~= bearing_oks(*b));
    (keys, oks)
}

/// The human queue's next items: the story to accept, the voyage to
/// start, the epic to decompose or voyage to plan, and the bearing needing
/// attention, each where there is one.
pub fn build_human_next_up(b: &Board) -> (r: Vec<NextUpItem>)
    ensures
        items_view(r@) == human_next_up(*b),
{
    let active = find_most_recent_epic(b);
    let mut items: Vec<NextUpItem> = Vec::new();

    let (keys, oks) = story_selection(b, 0);
    match select_first(&keys, &oks) {
        Some(i) => {
            let s = &b.stories[i];
            let up = to_uppercase(s.id.as_str());
            let cmd = concat2("keel story accept ", up.as_str());
            items.push(make_item(&s.id, &s.title, "accept", Some(cmd)));
        },
        None => {},
    }
    assert(items_view(items@) =~= accept_part(*b));

    let (keys, oks) = voyage_selection(b, &active, VoyageState::Planned);
    let ghost before = items_view(items@);
    match select_first(&keys, &oks) {
        Some(i) => {
            let v = &b.voyages[i];
            let cmd = concat2("keel voyage start ", v.id.as_str());
            items.push(make_item(&v.id, &v.title, "start", Some(cmd)));
        },
        None => {},
    }
    assert(items_view(items@) =~= before + start_part(*b));

    let (ekeys, eoks) = epic_selection(b);
    let ghost before = items_view(items@);
    match select_first(&ekeys, &eoks) {
        Some(i) => {
            let e = &b.epics[i];
            let cmd = concat2("keel voyage new \"<name>\" --epic ", e.id.as_str());
            items.push(make_item(&e.id, &e.title, "decompose", Some(cmd)));
        },
        None => {
            let (keys, oks) = voyage_selection(b, &active, VoyageState::Draft);
            match select_first(&keys, &oks) {
                Some(i) => {
                    let v = &b.voyages[i];
                    let cmd = concat2("keel voyage plan ", v.id.as_str());
                    items.push(make_item(&v.id, &v.title, "plan", Some(cmd)));
                },
                None => {},
            }
        },
    }
    assert(items_view(items@) =~= before + decompose_part(*b));

    let (keys, oks) = bearing_selection(b);
    let ghost before = items_view(items@);
    match select_first(&keys, &oks) {
        Some(i) => {
            let x = &b.bearings[i];
            let (action, verb) = if matches!(x.status, BearingStatus::Ready) {
                ("lay", "keel bearing lay ")
            } else if !x.has_survey {
                ("survey", "keel bearing survey ")
            } else if !x.has_assessment {
                ("assess", "keel bearing assess ")
            } else {
                ("review", "keel bearing show ")
            };
            let cmd = concat2(verb, x.id.as_str());
            items.push(make_item(&x.id, &x.title, action, Some(cmd)));
        },
        None => {},
    }
    assert(items_view(items@) =~= before + bearing_part(*b));
    items
}

/// The agent queue's next items: the backlog story to start next, then
/// every story in progress.
pub fn build_agent_next_up(b: &Board) -> (r: Vec<NextUpItem>)
    ensures
        exists|order: Seq<int>| sorted_eligible(wip_keys(*b), stage_oks(*b, StoryState::InProgress), order)
            && items_view(r@) == agent_next_up(*b, order),
{
    let mut items: Vec<NextUpItem> = Vec::new();
    let (keys, oks) = story_selection(b, 1);
    match select_first(&keys, &oks) {
        Some(i) => {
            let s = &b.stories[i];
            let up = to_uppercase(s.id.as_str());
            let cmd = concat2("keel story start ", up.as_str());
            items.push(make_item(&s.id, &s.title, "backlog", Some(cmd)));
        },
        None => {},
    }
    assert(items_view(items@) =~= backlog_part(*b));
    let ghost before = items_view(items@);
    let (wkeys, woks) = story_selection(b, 2);
    let order = sort_eligible(&wkeys, &woks);
    let ghost ov = order@.map_values(|i: usize| i as int);
    let mut p: usize = 0;
    while p < order.len()
        invariant
            ov == order@.map_values(|i: usize| i as int),
            sorted_eligible(wip_keys(*b), stage_oks(*b, StoryState::InProgress), ov),
            wkeys@.len() == b.stories@.len(),
            p <= order.len(),
            items_view(items@) == before + ov.take(p as int).map_values(|i: int| wip_item(b.stories@[i])),
        decreases order.len() - p,
    {
        let i = order[p];
        assert(ov[p as int] == i as int);
        let s = &b.stories[i];
        let ghost old_items = items@;
        let it = make_item(&s.id, &s.title, "wip", None);
        assert(it.view() == wip_item(b.stories@[i as int]));
        items.push(it);
        assert(items_view(items@) =~= items_view(old_items).push(wip_item(b.stories@[i as int])));
        p = p + 1;
        assert(ov.take(p as int).map_values(|i: int| wip_item(b.stories@[i]))
            =~= ov.take(p - 1).map_values(|i: int| wip_item(b.stories@[i])).push(wip_item(b.stories@[i as int])));
        assert(items_view(items@) =~= before + ov.take(p as int).map_values(|i: int| wip_item(b.stories@[i])));
    }
    assert(ov.take(p as int) =~= ov);
    assert(items_view(items@) == agent_next_up(*b, ov));
    items
}

/// Both queues' next items.
pub fn calculate_next_up(b: &Board) -> (r: NextUpSection)
    ensures
        items_view(r.human_items@) == human_next_up(*b),
        exists|order: Seq<int>| sorted_eligible(wip_keys(*b), stage_oks(*b, StoryState::InProgress), order)
            && items_view(r.agent_items@) == agent_next_up(*b, order),
{
    let human_items = build_human_next_up(b);
    let agent_items = build_agent_next_up(b);
    NextUpSection { human_items, agent_items }
}

} // verus!

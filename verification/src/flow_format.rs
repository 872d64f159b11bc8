//! Terminal formatting of flow diagnostics: story dependency status,
//! epic capacity lines, dependency chains and queue gauges.

use vstd::prelude::*;
use crate::model::StoryState;
use crate::board::{Board, Story, opt_view, scope_epic, scope_voyage, story_ids, first_index_of,
    epic_index_of, voyage_index_of, epic_of_scope, voyage_of_scope};
use crate::order::{SortKey, KeyView, keys_view, sort_eligible, sorted_eligible};
use crate::text::{str_eq, owned, concat2, concat3, byte_len, str_byte_len, decimal, usize_to_string,
    pad_end, pad_end_spec, pad_start, pad_start_spec, repeat_seq, repeat_str, flatten, lemma_flatten_push,
    join_with};
use crate::ansi::{pad_to_width, visible_width_spec};
use crate::ansi::{Color, fg, bold, dimmed, fg_spec, bold_spec, dim_spec};
use crate::style::{styled_id, styled_story_id_spec, styled_scope, styled_scope_spec, capacity_progress_bar,
    capacity_bar_spec, capacity_bar_fits, styled_epic_id, styled_epic_id_spec};
use crate::theme::Theme;
use crate::flow_health::QueueItem;

verus! {

/// Where a story stands with respect to its dependencies.
#[derive(Clone, Copy, Debug, PartialEq, Eq, Structural)]
pub enum DepStatus {
    Ready,
    InProgress,
    Blocked,
    VerifyBlocked,
    Inactive,
    Done,
}

/// The stories of one voyage with their dependency status.
pub struct VoyageDepSummary {
    pub voyage_id: String,
    /// Id, title and status of each story.
    pub stories: Vec<(String, String, DepStatus)>,
}

/// A story in the scope being diagnosed.
#[derive(Clone, Debug)]
pub struct StoryScopeSummary<'a> {
    pub id: &'a str,
    pub title: &'a str,
    pub stage: StoryState,
    pub index: Option<u32>,
    pub scope: Option<&'a str>,
}

/// A classified story: id, title, status and the dependencies it waits on.
pub type StorySummary = (String, String, DepStatus, Vec<String>);

/// A classified story as plain values.
pub type SummaryView = (Seq<char>, Seq<char>, DepStatus, Seq<Seq<char>>);

pub open spec fn summary_view(s: StorySummary) -> SummaryView {
    (s.0@, s.1@, s.2, s.3@.map_values(|d: String| d@))
}

pub open spec fn summaries_view(v: Seq<StorySummary>) -> Seq<SummaryView> {
    v.map_values(|s: StorySummary| summary_view(s))
}

/// A dependency table as plain values: each story id with the ids it
/// depends on.
pub open spec fn deps_view(deps: Seq<(String, Vec<String>)>) -> Seq<(Seq<char>, Seq<Seq<char>>)> {
    deps.map_values(|e: (String, Vec<String>)| (e.0@, e.1@.map_values(|d: String| d@)))
}

/// The dependencies recorded for `id` (the first entry for it; none if it
/// has no entry).
pub open spec fn deps_of(deps: Seq<(Seq<char>, Seq<Seq<char>>)>, id: Seq<char>) -> Seq<Seq<char>> {
    match first_index_of(deps.map_values(|e: (Seq<char>, Seq<Seq<char>>)| e.0), id) {
        Some(i) => deps[i].1,
        None => Seq::empty(),
    }
}

/// Some story of the scope with this id is done.
pub open spec fn done_in_scope(ss: Seq<StoryScopeSummary>, id: Seq<char>) -> bool {
    exists|k: int| 0 <= k < ss.len() && (#[trigger] ss[k]).id@ == id && ss[k].stage == StoryState::Done
}

/// The dependencies of `id` that are not done in the scope, in order.
pub open spec fn unmet_deps(ss: Seq<StoryScopeSummary>, deps: Seq<(Seq<char>, Seq<Seq<char>>)>, id: Seq<char>) -> Seq<Seq<char>> {
    deps_of(deps, id).filter(|d: Seq<char>| !done_in_scope(ss, d))
}

/// The status of one story and the dependencies that block it.
pub open spec fn classify_one(
    ss: Seq<StoryScopeSummary>,
    deps: Seq<(Seq<char>, Seq<Seq<char>>)>,
    verify: Seq<Seq<char>>,
    s: StoryScopeSummary,
) -> (DepStatus, Seq<Seq<char>>) {
    if s.stage == StoryState::Done {
        (DepStatus::Done, Seq::empty())
    } else if s.stage == StoryState::InProgress {
        (DepStatus::InProgress, Seq::empty())
    } else if s.stage == StoryState::Icebox {
        (DepStatus::Inactive, Seq::empty())
    } else if verify.contains(s.id@) {
        (DepStatus::VerifyBlocked, Seq::empty())
    } else if unmet_deps(ss, deps, s.id@).len() > 0 {
        (DepStatus::Blocked, unmet_deps(ss, deps, s.id@))
    } else {
        (DepStatus::Ready, Seq::empty())
    }
}

/// The rank of a scope story: its board story's epic and voyage indexes,
/// its own index (missing ones count as 0), then its id.
pub open spec fn scope_rank(b: Board, s: StoryScopeSummary) -> KeyView {
    let sc = match first_index_of(story_ids(b), s.id@) {
        Some(i) => opt_view(b.stories@[i].scope),
        None => None,
    };
    (
        epic_index_of(b, scope_epic(sc)),
        Seq::empty(),
        voyage_index_of(b, scope_voyage(sc)),
        match s.index { Some(x) => x as int, None => 0 },
        s.id@,
    )
}

pub open spec fn scope_ranks(b: Board, ss: Seq<StoryScopeSummary>) -> Seq<KeyView> {
    ss.map_values(|s: StoryScopeSummary| scope_rank(b, s))
}

pub open spec fn all_true(n: nat) -> Seq<bool> {
    Seq::new(n, |i: int| true)
}

/// The classification of the scope story at position `i`.
pub open spec fn classified(
    ss: Seq<StoryScopeSummary>,
    deps: Seq<(Seq<char>, Seq<Seq<char>>)>,
    verify: Seq<Seq<char>>,
    i: int,
) -> SummaryView {
    let c = classify_one(ss, deps, verify, ss[i]);
    (ss[i].id@, ss[i].title@, c.0, c.1)
}

/// The string views of a list of strings.
pub open spec fn str_list(v: Seq<String>) -> Seq<Seq<char>> {
    v.map_values(|s: String| s@)
}

/// Whether some story of the scope with this id is done.
fn is_done_in_scope(ss: &[StoryScopeSummary], id: &str) -> (r: bool)
    ensures
        r == done_in_scope(ss@, id@),
{
    let mut k: usize = 0;
    while k < ss.len()
        invariant
            k <= ss.len(),
            forall|j: int| 0 <= j < k ==> !((#[trigger] ss@[j]).id@ == id@ && ss@[j].stage == StoryState::Done),
        decreases ss.len() - k,
    {
        if str_eq(ss[k].id, id) && matches!(ss[k].stage, StoryState::Done) {
            return true;
        }
        k = k + 1;
    }
    false
}

/// Whether `id` is among `ids`.
fn contains_id(ids: &[String], id: &str) -> (r: bool)
    ensures
        r == str_list(ids@).contains(id@),
{
    let mut k: usize = 0;
    while k < ids.len()
        invariant
            k <= ids.len(),
            forall|j: int| 0 <= j < k ==> (#[trigger] ids@[j])@ != id@,
        decreases ids.len() - k,
    {
        if str_eq(ids[k].as_str(), id) {
            assert(str_list(ids@)[k as int] == id@);
            return true;
        }
        k = k + 1;
    }
    proof {
        if str_list(ids@).contains(id@) {
            let w = choose|j: int| 0 <= j < str_list(ids@).len() && str_list(ids@)[j] == id@;
            assert(ids@[w]@ == id@);
        }
    }
    false
}

/// Whether `id` is among `ids`.
pub fn contains_id_pub(ids: &[String], id: &str) -> (r: bool)
    ensures
        r == str_list(ids@).contains(id@),
{
    contains_id(ids, id)
}

/// The dependencies recorded for `id`.
fn lookup_deps(deps: &[(String, Vec<String>)], id: &str) -> (r: Vec<String>)
    ensures
        str_list(r@) == deps_of(deps_view(deps@), id@),
{
    let ghost dv = deps_view(deps@);
    let ghost keys = dv.map_values(|e: (Seq<char>, Seq<Seq<char>>)| e.0);
    let mut k: usize = 0;
    while k < deps.len()
        invariant
            dv == deps_view(deps@),
            keys == dv.map_values(|e: (Seq<char>, Seq<Seq<char>>)| e.0),
            k <= deps.len(),
            forall|j: int| 0 <= j < k ==> (#[trigger] deps@[j]).0@ != id@,
        decreases deps.len() - k,
    {
        if str_eq(deps[k].0.as_str(), id) {
            proof {
                lemma_first_at(keys, id@, k as int);
            }
            let r = deps[k].1.clone();
            proof {
                assert(str_list(r@) =~= dv[k as int].1);
            }
            return r;
        }
        k = k + 1;
    }
    proof {
        lemma_first_absent(keys, id@);
    }
    Vec::new()
}

/// A position holding `id` with no earlier one is the first position.
pub proof fn lemma_first_at(ids: Seq<Seq<char>>, id: Seq<char>, k: int)
    requires
        0 <= k < ids.len(),
        ids[k] == id,
        forall|j: int| 0 <= j < k ==> ids[j] != id,
    ensures
        first_index_of(ids, id) == Some(k),
    decreases ids.len(),
{
    if ids.len() > k + 1 {
        lemma_first_at(ids.drop_last(), id, k);
    } else {
        lemma_first_absent(ids.drop_last(), id);
    }
}

/// An id that occurs nowhere has no first position.
pub proof fn lemma_first_absent(ids: Seq<Seq<char>>, id: Seq<char>)
    requires
        forall|j: int| 0 <= j < ids.len() ==> ids[j] != id,
    ensures
        first_index_of(ids, id) is None,
    decreases ids.len(),
{
    if ids.len() > 0 {
        lemma_first_absent(ids.drop_last(), id);
    }
}

/// The dependencies of `id` not done in the scope.
fn unmet_of(ss: &[StoryScopeSummary], deps: &[(String, Vec<String>)], id: &str) -> (r: Vec<String>)
    ensures
        str_list(r@) == unmet_deps(ss@, deps_view(deps@), id@),
{
    let all = lookup_deps(deps, id);
    let ghost av = str_list(all@);
    let ghost pred = |d: Seq<char>| !done_in_scope(ss@, d);
    let mut r: Vec<String> = Vec::new();
    let mut k: usize = 0;
    assert(av.take(0).filter(pred) =~= Seq::<Seq<char>>::empty()) by {
        reveal(Seq::filter);
    }
    while k < all.len()
        invariant
            av == str_list(all@),
            pred == (|d: Seq<char>| !done_in_scope(ss@, d)),
            k <= all.len(),
            str_list(r@) == av.take(k as int).filter(pred),
        decreases all.len() - k,
    {
        assert(av.take(k + 1).drop_last() =~= av.take(k as int));
        assert(av.take(k + 1).filter(pred) == if pred(av[k as int]) {
            av.take(k as int).filter(pred).push(av[k as int])
        } else {
            av.take(k as int).filter(pred)
        }) by {
            reveal(Seq::filter);
        }
        if !is_done_in_scope(ss, all[k].as_str()) {
            r.push(all[k].clone());
            assert(str_list(r@) =~= av.take(k as int).filter(pred).push(av[k as int]));
        }
        k = k + 1;
    }
    assert(av.take(k as int) =~= av);
    r
}

/// Each story has at most one dependency entry (the entries are a map
/// from story id to the ids it depends on).
pub open spec fn deps_keys_distinct(deps: Seq<(String, Vec<String>)>) -> bool {
    forall|i: int, j: int| 0 <= i < j < deps.len() ==> (#[trigger] deps[i]).0@ != (#[trigger] deps[j]).0@
}

/// Classifies the stories of a scope by dependency status, in listing
/// order (epic index, voyage index, story index, id). `deps` maps each
/// story id to the ids it depends on.
pub fn classify_stories(
    board: &Board,
    scope_stories: &[StoryScopeSummary],
    deps: &[(String, Vec<String>)],
    verify_ids: &[String],
) -> (r: Vec<StorySummary>)
    requires
        deps_keys_distinct(deps@),
    ensures
        exists|order: Seq<int>|
            sorted_eligible(scope_ranks(*board, scope_stories@), all_true(scope_stories@.len()), order)
            && summaries_view(r@) == order.map_values(|i: int|
                classified(scope_stories@, deps_view(deps@), str_list(verify_ids@), i)),
{
    let ghost ss = scope_stories@;
    let ghost dv = deps_view(deps@);
    let ghost vv = str_list(verify_ids@);
    let sids = story_id_list(board);
    let mut keys: Vec<SortKey> = Vec::new();
    let mut oks: Vec<bool> = Vec::new();
    let mut k: usize = 0;
    while k < scope_stories.len()
        invariant
            ss == scope_stories@,
            str_list(sids@) == story_ids(*board),
            sids@.len() == board.stories@.len(),
            k <= scope_stories.len(),
            keys@.len() == k,
            oks@.len() == k,
            forall|i: int| 0 <= i < k ==> #[trigger] keys@[i].view() == scope_rank(*board, ss[i]),
            forall|i: int| 0 <= i < k ==> #[trigger] oks@[i],
        decreases scope_stories.len() - k,
    {
        let s = &scope_stories[k];
        keys.push(scope_rank_key(board, &sids, s));
        oks.push(true);
        k = k + 1;
    }
    assert(keys_view(keys@) =~= scope_ranks(*board, ss));
    assert(oks@ =~= all_true(ss.len()));
    let order = sort_eligible(&keys, &oks);
    let ghost ov = order@.map_values(|i: usize| i as int);
    let mut results: Vec<StorySummary> = Vec::new();
    let mut p: usize = 0;
    while p < order.len()
        invariant
            ss == scope_stories@,
            dv == deps_view(deps@),
            vv == str_list(verify_ids@),
            ov == order@.map_values(|i: usize| i as int),
            sorted_eligible(scope_ranks(*board, ss), all_true(ss.len()), ov),
            keys@.len() == ss.len(),
            p <= order.len(),
            summaries_view(results@) == ov.take(p as int).map_values(|i: int| classified(ss, dv, vv, i)),
        decreases order.len() - p,
    {
        let i = order[p];
        assert(ov[p as int] == i as int);
        let s = &scope_stories[i];
        let (status, blockers) = if matches!(s.stage, StoryState::Done) {
            (DepStatus::Done, Vec::new())
        } else if matches!(s.stage, StoryState::InProgress) {
            (DepStatus::InProgress, Vec::new())
        } else if matches!(s.stage, StoryState::Icebox) {
            (DepStatus::Inactive, Vec::new())
        } else if contains_id(verify_ids, s.id) {
            (DepStatus::VerifyBlocked, Vec::new())
        } else {
            let unmet = unmet_of(scope_stories, deps, s.id);
            if unmet.len() > 0 {
                (DepStatus::Blocked, unmet)
            } else {
                (DepStatus::Ready, unmet)
            }
        };
        let ghost old_results = results@;
        let entry: StorySummary = (owned(s.id), owned(s.title), status, blockers);
        assert(summary_view(entry) =~= classified(ss, dv, vv, i as int));
        results.push(entry);
        p = p + 1;
        assert(summaries_view(results@) =~= summaries_view(old_results).push(classified(ss, dv, vv, i as int)));
        assert(ov.take(p as int).map_values(|i: int| classified(ss, dv, vv, i))
            =~= ov.take(p - 1).map_values(|i: int| classified(ss, dv, vv, i)).push(classified(ss, dv, vv, i as int)));
    }
    assert(ov.take(p as int) =~= ov);
    results
}

/// The story ids of the board as a list of strings.
fn story_id_list(b: &Board) -> (r: Vec<String>)
    ensures
        str_list(r@) == story_ids(*b),
        r@.len() == b.stories@.len(),
{
    let mut r: Vec<String> = Vec::new();
    let mut k: usize = 0;
    while k < b.stories.len()
        invariant
            k <= b.stories.len(),
            r@.len() == k,
            forall|i: int| 0 <= i < k ==> #[trigger] r@[i]@ == b.stories@[i].id@,
        decreases b.stories.len() - k,
    {
        r.push(b.stories[k].id.clone());
        k = k + 1;
    }
    assert(str_list(r@) =~= story_ids(*b));
    r
}

/// The rank key of one scope story.
fn scope_rank_key(b: &Board, sids: &Vec<String>, s: &StoryScopeSummary) -> (r: SortKey)
    requires
        str_list(sids@) == story_ids(*b),
        sids@.len() == b.stories@.len(),
    ensures
        r.view() == scope_rank(*b, *s),
{
    let scope: Option<String> = match find_first(sids, s.id) {
        Some(i) => b.stories[i].scope.clone(),
        None => None,
    };
    let e = epic_of_scope(&scope);
    let v = voyage_of_scope(&scope);
    let ei: i64 = match e {
        Some(x) => index_of_epic(b, x.as_str()),
        None => 0,
    };
    let vi: i64 = match v {
        Some(x) => index_of_voyage(b, x.as_str()),
        None => 0,
    };
    let si: i64 = match s.index {
        Some(x) => x as i64,
        None => 0,
    };
    SortKey { a: ei, pre: String::new(), b: vi, c: si, name: owned(s.id) }
}

/// The first position of `id` among `ids`.
fn find_first(ids: &Vec<String>, id: &str) -> (r: Option<usize>)
    ensures
        match r {
            Some(i) => Some(i as int),
            None => None::<int>,
        } == first_index_of(str_list(ids@), id@),
        r matches Some(i) ==> i < ids@.len(),
{
    let mut k: usize = 0;
    while k < ids.len()
        invariant
            k <= ids.len(),
            forall|j: int| 0 <= j < k ==> (#[trigger] ids@[j])@ != id@,
        decreases ids.len() - k,
    {
        if str_eq(ids[k].as_str(), id) {
            proof {
                lemma_first_at(str_list(ids@), id@, k as int);
            }
            return Some(k);
        }
        k = k + 1;
    }
    proof {
        lemma_first_absent(str_list(ids@), id@);
    }
    None
}

/// The index of the epic with this id (0 when missing).
fn index_of_epic(b: &Board, id: &str) -> (r: i64)
    ensures
        r == epic_index_of(*b, Some(id@)),
{
    let mut ids: Vec<String> = Vec::new();
    let mut k: usize = 0;
    while k < b.epics.len()
        invariant
            k <= b.epics.len(),
            ids@.len() == k,
            forall|i: int| 0 <= i < k ==> #[trigger] ids@[i]@ == b.epics@[i].id@,
        decreases b.epics.len() - k,
    {
        ids.push(b.epics[k].id.clone());
        k = k + 1;
    }
    assert(str_list(ids@) =~= crate::board::epic_ids(*b));
    match find_first(&ids, id) {
        Some(i) => match b.epics[i].index {
            Some(x) => x as i64,
            None => 0,
        },
        None => 0,
    }
}

/// The index of the voyage with this id (0 when missing).
fn index_of_voyage(b: &Board, id: &str) -> (r: i64)
    ensures
        r == voyage_index_of(*b, Some(id@)),
{
    let mut ids: Vec<String> = Vec::new();
    let mut k: usize = 0;
    while k < b.voyages.len()
        invariant
            k <= b.voyages.len(),
            ids@.len() == k,
            forall|i: int| 0 <= i < k ==> #[trigger] ids@[i]@ == b.voyages@[i].id@,
        decreases b.voyages.len() - k,
    {
        ids.push(b.voyages[k].id.clone());
        k = k + 1;
    }
    assert(str_list(ids@) =~= crate::board::voyage_ids(*b));
    match find_first(&ids, id) {
        Some(i) => match b.voyages[i].index {
            Some(x) => x as i64,
            None => 0,
        },
        None => 0,
    }
}


// ---------------------------------------------------------------------
// Epic capacity
// ---------------------------------------------------------------------

/// How charged an epic is with work.
#[derive(Clone, Copy, Debug, PartialEq, Eq, Structural)]
pub enum ChargeState {
    Blocked,
    Discharged,
    Trickle,
    Charged,
    Supercharged,
    Overloaded,
}

/// Story counts of an epic by flow state.
#[derive(Clone, Copy, Debug)]
pub struct EpicCapacity {
    pub ready: usize,
    pub in_flight: usize,
    pub blocked: usize,
    pub inactive: usize,
    pub done: usize,
}

/// The capacity of one epic.
#[derive(Clone, Debug)]
pub struct EpicCapacityReport {
    pub id: String,
    pub title: String,
    pub charge_state: ChargeState,
    pub capacity: EpicCapacity,
}

pub open spec fn charge_emoji(c: ChargeState) -> Seq<char> {
    match c {
        ChargeState::Blocked => "🔴"@,
        ChargeState::Discharged => "⚪"@,
        ChargeState::Trickle => "💡"@,
        ChargeState::Charged => "🔋"@,
        ChargeState::Supercharged => "⚡"@,
        ChargeState::Overloaded => "🔥"@,
    }
}

/// The byte width of an epic's label (`id title`).
pub open spec fn capacity_label_len(c: EpicCapacityReport) -> nat {
    byte_len(c.id@) + 1 + byte_len(c.title@)
}

/// The widest label, at least 15.
pub open spec fn max_label_len(caps: Seq<EpicCapacityReport>) -> nat
    decreases caps.len(),
{
    if caps.len() == 0 {
        15
    } else {
        let m = max_label_len(caps.drop_last());
        let l = capacity_label_len(caps.last());
        if l > m { l } else { m }
    }
}

/// Whether the counts of every epic can be added and drawn without
/// overflow.
pub open spec fn capacities_fit(caps: Seq<EpicCapacityReport>) -> bool {
    forall|i: int| 0 <= i < caps.len() ==> {
        let c = (#[trigger] caps[i]).capacity;
        &&& c.done + c.ready + c.in_flight + c.blocked + c.inactive <= usize::MAX
        &&& capacity_bar_fits(c.done as nat, c.in_flight as nat, 15)
        &&& capacity_label_len(caps[i]) + 2 <= usize::MAX
    }
}

pub open spec fn count_field(n: usize) -> Seq<char> {
    pad_start_spec(decimal(n as nat), 2)
}

/// One epic's capacity line.
pub open spec fn capacity_line(c: EpicCapacityReport, w: nat, t: Theme) -> Seq<char> {
    let cap = c.capacity;
    let total = (cap.done + cap.ready + cap.in_flight + cap.blocked + cap.inactive) as nat;
    let label = styled_epic_id_spec(c.id@) + " "@ + c.title@;
    let padded = if visible_width_spec(label) >= w { label } else { label + crate::text::spaces((w - visible_width_spec(label)) as nat) };
    "  "@ + charge_emoji(c.charge_state) + " "@ + padded + " "@
        + capacity_bar_spec(cap.done as nat, cap.in_flight as nat, total, 15, Some(t))
        + " [D:"@ + count_field(cap.done) + " R:"@ + count_field(cap.ready) + " F:"@
        + count_field(cap.in_flight) + " B:"@ + count_field(cap.blocked) + " I:"@
        + count_field(cap.inactive) + "]\n"@
}

pub open spec fn capacity_keys(caps: Seq<EpicCapacityReport>) -> Seq<KeyView> {
    caps.map_values(|c: EpicCapacityReport| (0int, Seq::<char>::empty(), 0int, 0int, c.id@))
}

/// The capacity table: a header, then one line per epic by id.
pub open spec fn capacity_table(caps: Seq<EpicCapacityReport>, order: Seq<int>, t: Theme) -> Seq<char> {
    let w = max_label_len(caps) + 2;
    "     "@ + pad_end_spec("EPIC"@, w) + " CAPACITY\n"@
        + flatten(order.map_values(|i: int| capacity_line(caps[i], w, t)))
}

fn render_capacity_line(c: &EpicCapacityReport, w: usize, theme: &Theme) -> (r: String)
    requires
        c.capacity.done + c.capacity.ready + c.capacity.in_flight + c.capacity.blocked + c.capacity.inactive <= usize::MAX,
        capacity_bar_fits(c.capacity.done as nat, c.capacity.in_flight as nat, 15),
    ensures
        r@ == capacity_line(*c, w as nat, *theme),
{
    let cap = c.capacity;
    let emoji = match c.charge_state {
        ChargeState::Blocked => "🔴",
        ChargeState::Discharged => "⚪",
        ChargeState::Trickle => "💡",
        ChargeState::Charged => "🔋",
        ChargeState::Supercharged => "⚡",
        ChargeState::Overloaded => "🔥",
    };
    let total = cap.done + cap.ready + cap.in_flight + cap.blocked + cap.inactive;
    let bar = capacity_progress_bar(cap.done, cap.in_flight, total, 15, Some(theme));
    let id_styled = styled_epic_id(c.id.as_str());
    let label = concat3(id_styled.as_str(), " ", c.title.as_str());
    let padded = pad_to_width(label.as_str(), w);
    let mut r = concat3("  ", emoji, " ");
    r.append(padded.as_str());
    r.append(" ");
    r.append(bar.as_str());
    r.append(" [D:");
    r.append(pad_start(usize_to_string(cap.done).as_str(), 2).as_str());
    r.append(" R:");
    r.append(pad_start(usize_to_string(cap.ready).as_str(), 2).as_str());
    r.append(" F:");
    r.append(pad_start(usize_to_string(cap.in_flight).as_str(), 2).as_str());
    r.append(" B:");
    r.append(pad_start(usize_to_string(cap.blocked).as_str(), 2).as_str());
    r.append(" I:");
    r.append(pad_start(usize_to_string(cap.inactive).as_str(), 2).as_str());
    r.append("]\n");
    r
}

/// Renders the epic capacity table, epics sorted by id.
pub fn render_epic_capacities(capacities: &[EpicCapacityReport], theme: &Theme) -> (r: String)
    requires
        capacities_fit(capacities@),
    ensures
        exists|order: Seq<int>| sorted_eligible(capacity_keys(capacities@), all_true(capacities@.len()), order)
            && r@ == capacity_table(capacities@, order, *theme),
{
    let ghost cs = capacities@;
    let mut keys: Vec<SortKey> = Vec::new();
    let mut oks: Vec<bool> = Vec::new();
    let mut max_width: usize = 15;
    let mut k: usize = 0;
    while k < capacities.len()
        invariant
            cs == capacities@,
            capacities_fit(cs),
            k <= cs.len(),
            keys@.len() == k,
            oks@.len() == k,
            forall|i: int| 0 <= i < k ==> #[trigger] keys@[i].view() == (0int, Seq::<char>::empty(), 0int, 0int, cs[i].id@),
            forall|i: int| 0 <= i < k ==> #[trigger] oks@[i],
            max_width == max_label_len(cs.take(k as int)),
            max_width + 2 <= usize::MAX,
        decreases cs.len() - k,
    {
        let c = &capacities[k];
        assert(cs.take(k + 1).drop_last() =~= cs.take(k as int));
        assert(capacities_fit(cs) ==> capacity_label_len(cs[k as int]) + 2 <= usize::MAX);
        let lw = str_byte_len(c.id.as_str()) + 1 + str_byte_len(c.title.as_str());
        if lw > max_width {
            max_width = lw;
        }
        keys.push(SortKey { a: 0, pre: String::new(), b: 0, c: 0, name: c.id.clone() });
        oks.push(true);
        k = k + 1;
    }
    assert(cs.take(k as int) =~= cs);
    assert(keys_view(keys@) =~= capacity_keys(cs));
    assert(oks@ =~= all_true(cs.len()));
    let w = max_width + 2;
    let order = sort_eligible(&keys, &oks);
    let ghost ov = order@.map_values(|i: usize| i as int);
    let ghost lines = ov.map_values(|i: int| capacity_line(cs[i], w as nat, *theme));
    let mut out = concat3("     ", pad_end("EPIC", w).as_str(), " CAPACITY\n");
    let ghost head = out@;
    let mut p: usize = 0;
    while p < order.len()
        invariant
            cs == capacities@,
            capacities_fit(cs),
            ov == order@.map_values(|i: usize| i as int),
            lines == ov.map_values(|i: int| capacity_line(cs[i], w as nat, *theme)),
            sorted_eligible(capacity_keys(cs), all_true(cs.len()), ov),
            keys@.len() == cs.len(),
            p <= order.len(),
            out@ == head + flatten(lines.take(p as int)),
        decreases order.len() - p,
    {
        let i = order[p];
        assert(ov[p as int] == i as int);
        let line = render_capacity_line(&capacities[i], w, theme);
        proof {
            assert(lines.take(p + 1) =~= lines.take(p as int).push(lines[p as int]));
            lemma_flatten_push(lines.take(p as int), lines[p as int]);
        }
        out.append(line.as_str());
        p = p + 1;
    }
    assert(lines.take(p as int) =~= lines);
    assert(out@ == capacity_table(cs, ov, *theme));
    out
}

// ---------------------------------------------------------------------
// Queue gauge
// ---------------------------------------------------------------------

/// One queue line of the flow dashboard.
pub struct QueueItemDisplay {
    pub label: String,
    pub count: usize,
    pub age_days: Option<usize>,
    pub secondary_count: Option<usize>,
}

/// The gauge of a queue: the label column, then a ten-cell volume bar
/// (one cell per item; for the agent queue, work in progress in `▒`),
/// padded to `width`.
pub open spec fn queue_line(q: QueueItemDisplay, width: nat, t: Theme) -> Seq<char> {
    let label_part = "  "@ + pad_end_spec(q.label@, 15) + " "@ + pad_start_spec(decimal(q.count as nat), 3) + " "@
        + match q.age_days {
            Some(a) => "("@ + decimal(a as nat) + "d) "@,
            None => Seq::empty(),
        };
    let filled: nat = if q.count < 10 { q.count as nat } else { 10 };
    let empty = (10 - filled) as nat;
    let bar = match q.secondary_count {
        Some(sec) => {
            let wip: nat = if sec < filled { sec as nat } else { filled };
            t.agent@ + repeat_seq("█"@, (filled - wip) as nat) + repeat_seq("▒"@, wip) + t.muted@
                + repeat_seq("░"@, empty)
        },
        None => t.human@ + repeat_seq("█"@, filled) + t.muted@ + repeat_seq("░"@, empty),
    };
    let res = label_part + bar + t.reset@;
    if visible_width_spec(res) >= width { res } else { res + crate::text::spaces((width - visible_width_spec(res)) as nat) }
}

impl QueueItemDisplay {
    /// The display form of a queue item.
    pub fn from_item(item: QueueItem) -> (r: QueueItemDisplay)
        ensures
            r.label@ == item.label@,
            r.count == item.count,
            r.age_days == item.age_days,
            r.secondary_count == item.secondary_count,
    {
        QueueItemDisplay {
            label: item.label,
            count: item.count,
            age_days: item.age_days,
            secondary_count: item.secondary_count,
        }
    }

    /// Renders the queue line, padded to `width`.
    pub fn render_to_string(&self, width: usize, theme: &Theme) -> (r: String)
        ensures
            r@ == queue_line(*self, width as nat, *theme),
    {
        let mut label_part = concat2("  ", pad_end(self.label.as_str(), 15).as_str());
        label_part.append(" ");
        label_part.append(pad_start(usize_to_string(self.count).as_str(), 3).as_str());
        label_part.append(" ");
        match self.age_days {
            Some(age) => {
                label_part.append("(");
                label_part.append(usize_to_string(age).as_str());
                label_part.append("d) ");
            },
            None => {},
        }
        let bar_width: usize = 10;
        let filled = if self.count < bar_width { self.count } else { bar_width };
        let empty = bar_width - filled;
        let bar = match self.secondary_count {
            Some(secondary) => {
                let in_progress = if secondary < filled { secondary } else { filled };
                let backlog = filled - in_progress;
                let mut b = owned(theme.agent);
                b.append(repeat_str("█", backlog).as_str());
                b.append(repeat_str("▒", in_progress).as_str());
                b.append(theme.muted);
                b.append(repeat_str("░", empty).as_str());
                assert(b@ =~= theme.agent@ + repeat_seq("█"@, backlog as nat) + repeat_seq("▒"@, in_progress as nat)
                    + theme.muted@ + repeat_seq("░"@, empty as nat));
                b
            },
            None => {
                let mut b = owned(theme.human);
                b.append(repeat_str("█", filled).as_str());
                b.append(theme.muted);
                b.append(repeat_str("░", empty).as_str());
                assert(b@ =~= theme.human@ + repeat_seq("█"@, filled as nat) + theme.muted@ + repeat_seq("░"@, empty as nat));
                b
            },
        };
        let ghost q = *self;
        let ghost lp = "  "@ + pad_end_spec(q.label@, 15) + " "@ + pad_start_spec(decimal(q.count as nat), 3) + " "@
            + match q.age_days {
                Some(a) => "("@ + decimal(a as nat) + "d) "@,
                None => Seq::empty(),
            };
        assert(label_part@ =~= lp);
        let res = concat3(label_part.as_str(), bar.as_str(), theme.reset);
        pad_to_width(res.as_str(), width)
    }
}


// ---------------------------------------------------------------------
// Dependency chains
// ---------------------------------------------------------------------

/// The scope under which a classified story is listed: its board story's
/// scope, or `unscoped`.
pub open spec fn summary_scope(b: Board, id: Seq<char>) -> Seq<char> {
    match first_index_of(story_ids(b), id) {
        Some(i) => match opt_view(b.stories@[i].scope) {
            Some(x) => x,
            None => "unscoped"@,
        },
        None => "unscoped"@,
    }
}

/// Every summary names a story of the board.
pub open spec fn summaries_on_board(b: Board, sv: Seq<SummaryView>) -> bool {
    forall|i: int| 0 <= i < sv.len() ==> story_ids(b).contains(#[trigger] sv[i].0)
}

/// The status column of a chain line.
pub open spec fn status_text(s: SummaryView, t: Theme) -> Seq<char> {
    match s.2 {
        DepStatus::Ready => t.agent@ + "ready"@ + t.reset@,
        DepStatus::InProgress => t.human@ + "in-progress"@ + t.reset@,
        DepStatus::Blocked => t.warning@ + "blocked by "@
            + join_with(s.3.map_values(|d: Seq<char>| styled_story_id_spec(d)), ", "@) + t.reset@,
        DepStatus::VerifyBlocked => t.warning@ + "verify-blocked"@ + t.reset@,
        DepStatus::Inactive => t.muted@ + "inactive"@ + t.reset@,
        DepStatus::Done => t.muted@ + "done"@ + t.reset@,
    }
}

/// One line of a chain (nothing for a done story).
pub open spec fn chain_line(s: SummaryView, last: bool, next: Seq<Seq<char>>, idw: nat, t: Theme) -> Seq<char> {
    if s.2 == DepStatus::Done {
        Seq::empty()
    } else {
        let prefix = if next.contains(s.0) { fg_spec(Color::Yellow, bold_spec("→ "@)) } else { "  "@ };
        let connector = if last { "└── "@ } else { "├── "@ };
        let id = styled_story_id_spec(s.0);
        let padded = if visible_width_spec(id) >= idw { id } else { id + crate::text::spaces((idw - visible_width_spec(id)) as nat) };
        prefix + "  "@ + connector + "  "@ + padded + " "@ + s.1 + " ("@ + status_text(s, t) + ")\n"@
    }
}

/// How many of the summaries are listed under `scope`.
pub open spec fn scope_count(b: Board, sv: Seq<SummaryView>, scope: Seq<char>) -> nat
    decreases sv.len(),
{
    if sv.len() == 0 {
        0
    } else {
        scope_count(b, sv.drop_last(), scope) + if summary_scope(b, sv.last().0) == scope { 1nat } else { 0nat }
    }
}

/// The chain lines of `scope`, in summary order; `total` is the size of
/// the whole group, so that its last member gets the closing connector.
pub open spec fn scope_lines(b: Board, sv: Seq<SummaryView>, scope: Seq<char>, total: nat,
    next: Seq<Seq<char>>, idw: nat, t: Theme) -> Seq<char>
    decreases sv.len(),
{
    if sv.len() == 0 {
        Seq::empty()
    } else {
        let before = scope_lines(b, sv.drop_last(), scope, total, next, idw, t);
        if summary_scope(b, sv.last().0) == scope {
            before + chain_line(sv.last(), scope_count(b, sv.drop_last(), scope) + 1 == total, next, idw, t)
        } else {
            before
        }
    }
}

/// The block of one scope: its header, its lines, a blank line.
pub open spec fn scope_block(b: Board, sv: Seq<SummaryView>, scope: Seq<char>, next: Seq<Seq<char>>, idw: nat, t: Theme) -> Seq<char> {
    let header = if scope != "unscoped"@ {
        "    "@ + styled_scope_spec(Some(scope)) + "\n"@
    } else {
        "    "@ + dim_spec("unscoped"@) + "\n"@
    };
    header + scope_lines(b, sv, scope, scope_count(b, sv, scope), next, idw, t) + "\n"@
}

/// The widest id, at least 10.
pub open spec fn max_id_len(sv: Seq<SummaryView>) -> nat
    decreases sv.len(),
{
    if sv.len() == 0 {
        10
    } else {
        let m = max_id_len(sv.drop_last());
        let l = byte_len(sv.last().0);
        if l > m { l } else { m }
    }
}

/// Sort keys of the scopes, one per summary.
pub open spec fn scope_keys(b: Board, sv: Seq<SummaryView>) -> Seq<KeyView> {
    sv.map_values(|s: SummaryView| (0int, Seq::<char>::empty(), 0int, 0int, summary_scope(b, s.0)))
}

/// A summary is the first of its scope.
pub open spec fn first_of_scope(b: Board, sv: Seq<SummaryView>) -> Seq<bool> {
    Seq::new(sv.len(), |i: int| forall|j: int| 0 <= j < i ==> summary_scope(b, #[trigger] sv[j].0) != summary_scope(b, sv[i].0))
}

/// The dependency chains: one block per scope, scopes sorted.
pub open spec fn chains_text(b: Board, sv: Seq<SummaryView>, order: Seq<int>, next: Seq<Seq<char>>, t: Theme) -> Seq<char> {
    flatten(order.map_values(|i: int| scope_block(b, sv, summary_scope(b, sv[i].0), next, max_id_len(sv) + 2, t)))
}

fn status_column(s: &StorySummary, theme: &Theme) -> (r: String)
    ensures
        r@ == status_text(summary_view(*s), *theme),
{
    match s.2 {
        DepStatus::Ready => concat3(theme.agent, "ready", theme.reset),
        DepStatus::InProgress => concat3(theme.human, "in-progress", theme.reset),
        DepStatus::Blocked => {
            let ghost parts = s.3@.map_values(|d: String| d@).map_values(|d: Seq<char>| styled_story_id_spec(d));
            let mut joined = String::new();
            let mut k: usize = 0;
            while k < s.3.len()
                invariant
                    parts == s.3@.map_values(|d: String| d@).map_values(|d: Seq<char>| styled_story_id_spec(d)),
                    k <= s.3.len(),
                    joined@ == join_with(parts.take(k as int), ", "@),
                decreases s.3.len() - k,
            {
                let sid = styled_id(s.3[k].as_str());
                assert(parts.take(k + 1).drop_last() =~= parts.take(k as int));
                if k > 0 {
                    joined.append(", ");
                }
                joined.append(sid.as_str());
                k = k + 1;
                assert(joined@ =~= join_with(parts.take(k as int), ", "@));
            }
            assert(parts.take(k as int) =~= parts);
            let mut r = concat2(theme.warning, "blocked by ");
            r.append(joined.as_str());
            r.append(theme.reset);
            r
        },
        DepStatus::VerifyBlocked => concat3(theme.warning, "verify-blocked", theme.reset),
        DepStatus::Inactive => concat3(theme.muted, "inactive", theme.reset),
        DepStatus::Done => concat3(theme.muted, "done", theme.reset),
    }
}

fn render_chain_line(s: &StorySummary, last: bool, next_up_ids: &[String], idw: usize, theme: &Theme) -> (r: String)
    ensures
        r@ == chain_line(summary_view(*s), last, str_list(next_up_ids@), idw as nat, *theme),
{
    if s.2 == DepStatus::Done {
        return String::new();
    }
    let prefix = if contains_id(next_up_ids, s.0.as_str()) {
        let bolded = bold("→ ");
        fg(bolded.as_str(), Color::Yellow)
    } else {
        owned("  ")
    };
    let connector = if last { "└── " } else { "├── " };
    let id_styled = styled_id(s.0.as_str());
    let id_padded = pad_to_width(id_styled.as_str(), idw);
    let status = status_column(s, theme);
    let mut r = concat3(prefix.as_str(), "  ", connector);
    r.append("  ");
    r.append(id_padded.as_str());
    r.append(" ");
    r.append(s.1.as_str());
    r.append(" (");
    r.append(status.as_str());
    r.append(")\n");
    r
}

/// Renders the stories' dependency chains grouped by scope (scopes
/// sorted, stories in the order given, done stories left out), marking the
/// stories that are next up.
pub fn render_dependency_chains(
    board: &Board,
    summaries: &[StorySummary],
    next_up_ids: &[String],
    theme: &Theme,
) -> (r: String)
    requires
        summaries_on_board(*board, summaries_view(summaries@)),
        forall|i: int| 0 <= i < summaries@.len() ==> byte_len((#[trigger] summaries@[i]).0@) + 2 <= usize::MAX,
    ensures
        exists|order: Seq<int>| sorted_eligible(scope_keys(*board, summaries_view(summaries@)),
            first_of_scope(*board, summaries_view(summaries@)), order)
            && r@ == chains_text(*board, summaries_view(summaries@), order, str_list(next_up_ids@), *theme),
{
    let ghost sv = summaries_view(summaries@);
    let ghost nv = str_list(next_up_ids@);
    let n = summaries.len();
    let sids = story_id_list(board);
    // The scope of each summary.
    let mut scopes: Vec<String> = Vec::new();
    let mut k: usize = 0;
    while k < n
        invariant
            sv == summaries_view(summaries@),
            n == summaries@.len(),
            str_list(sids@) == story_ids(*board),
            sids@.len() == board.stories@.len(),
            summaries_on_board(*board, sv),
            k <= n,
            scopes@.len() == k,
            forall|i: int| 0 <= i < k ==> #[trigger] scopes@[i]@ == summary_scope(*board, sv[i].0),
        decreases n - k,
    {
        let sc = match find_first(&sids, summaries[k].0.as_str()) {
            Some(i) => match &board.stories[i].scope {
                Some(x) => x.clone(),
                None => owned("unscoped"),
            },
            None => owned("unscoped"),
        };
        scopes.push(sc);
        k = k + 1;
    }
    // The first summary of each scope, keyed by scope.
    let mut keys: Vec<SortKey> = Vec::new();
    let mut oks: Vec<bool> = Vec::new();
    let mut max_id_width: usize = 10;
    let mut k: usize = 0;
    while k < n
        invariant
            sv == summaries_view(summaries@),
            n == summaries@.len(),
            scopes@.len() == n,
            forall|i: int| 0 <= i < n ==> #[trigger] scopes@[i]@ == summary_scope(*board, sv[i].0),
            k <= n,
            keys@.len() == k,
            oks@.len() == k,
            forall|i: int| 0 <= i < k ==> #[trigger] keys@[i].view() == (0int, Seq::<char>::empty(), 0int, 0int, summary_scope(*board, sv[i].0)),
            forall|i: int| 0 <= i < k ==> #[trigger] oks@[i] == first_of_scope(*board, sv)[i],
            max_id_width == max_id_len(sv.take(k as int)),
            max_id_width + 2 <= usize::MAX,
            forall|i: int| 0 <= i < summaries@.len() ==> byte_len((#[trigger] summaries@[i]).0@) + 2 <= usize::MAX,
        decreases n - k,
    {
        let mut first = true;
        let mut j: usize = 0;
        while j < k
            invariant
                sv == summaries_view(summaries@),
                scopes@.len() == n,
                forall|i: int| 0 <= i < n ==> #[trigger] scopes@[i]@ == summary_scope(*board, sv[i].0),
                k < n,
                j <= k,
                first == forall|i: int| 0 <= i < j ==> summary_scope(*board, #[trigger] sv[i].0) != summary_scope(*board, sv[k as int].0),
            decreases k - j,
        {
            if str_eq(scopes[j].as_str(), scopes[k].as_str()) {
                first = false;
            }
            j = j + 1;
        }
        assert(sv.take(k + 1).drop_last() =~= sv.take(k as int));
        assert(sv.take(k + 1).last() == sv[k as int]);
        assert(sv[k as int].0 == summaries@[k as int].0@);
        let l = str_byte_len(summaries[k].0.as_str());
        if l > max_id_width {
            max_id_width = l;
        }
        keys.push(SortKey { a: 0, pre: String::new(), b: 0, c: 0, name: scopes[k].clone() });
        oks.push(first);
        k = k + 1;
    }
    assert(sv.take(n as int) =~= sv);
    assert(keys_view(keys@) =~= scope_keys(*board, sv));
    assert(oks@ =~= first_of_scope(*board, sv));
    let idw = max_id_width + 2;
    let order = sort_eligible(&keys, &oks);
    let ghost ov = order@.map_values(|i: usize| i as int);
    let ghost blocks = ov.map_values(|i: int| scope_block(*board, sv, summary_scope(*board, sv[i].0), nv, max_id_len(sv) + 2, *theme));
    let mut out = String::new();
    let mut p: usize = 0;
    while p < order.len()
        invariant
            sv == summaries_view(summaries@),
            nv == str_list(next_up_ids@),
            n == summaries@.len(),
            scopes@.len() == n,
            forall|i: int| 0 <= i < n ==> #[trigger] scopes@[i]@ == summary_scope(*board, sv[i].0),
            ov == order@.map_values(|i: usize| i as int),
            sorted_eligible(scope_keys(*board, sv), first_of_scope(*board, sv), ov),
            keys@.len() == n,
            blocks == ov.map_values(|i: int| scope_block(*board, sv, summary_scope(*board, sv[i].0), nv, max_id_len(sv) + 2, *theme)),
            idw == max_id_len(sv) + 2,
            p <= order.len(),
            out@ == flatten(blocks.take(p as int)),
        decreases order.len() - p,
    {
        let i = order[p];
        assert(ov[p as int] == i as int);
        let block = render_scope_block(board, summaries, &scopes, scopes[i].as_str(), next_up_ids, idw, theme);
        proof {
            assert(blocks.take(p + 1) =~= blocks.take(p as int).push(blocks[p as int]));
            lemma_flatten_push(blocks.take(p as int), blocks[p as int]);
        }
        out.append(block.as_str());
        p = p + 1;
    }
    assert(blocks.take(p as int) =~= blocks);
    assert(out@ == chains_text(*board, sv, ov, nv, *theme));
    out
}

fn render_scope_block(
    board: &Board,
    summaries: &[StorySummary],
    scopes: &Vec<String>,
    scope: &str,
    next_up_ids: &[String],
    idw: usize,
    theme: &Theme,
) -> (r: String)
    requires
        scopes@.len() == summaries@.len(),
        forall|i: int| 0 <= i < summaries@.len() ==> #[trigger] scopes@[i]@ == summary_scope(*board, summaries_view(summaries@)[i].0),
    ensures
        r@ == scope_block(*board, summaries_view(summaries@), scope@, str_list(next_up_ids@), idw as nat, *theme),
{
    let ghost sv = summaries_view(summaries@);
    let ghost nv = str_list(next_up_ids@);
    let n = summaries.len();
    let mut out = if !str_eq(scope, "unscoped") {
        proof { reveal_strlit("unscoped"); }
        let styled = styled_scope(Some(scope));
        concat3("    ", styled.as_str(), "\n")
    } else {
        let d = dimmed("unscoped");
        concat3("    ", d.as_str(), "\n")
    };
    let ghost head = out@;
    // The size of the group.
    let mut total: usize = 0;
    let mut k: usize = 0;
    while k < n
        invariant
            sv == summaries_view(summaries@),
            n == summaries@.len(),
            scopes@.len() == n,
            forall|i: int| 0 <= i < n ==> #[trigger] scopes@[i]@ == summary_scope(*board, sv[i].0),
            k <= n,
            total == scope_count(*board, sv.take(k as int), scope@),
            total <= k,
        decreases n - k,
    {
        assert(sv.take(k + 1).drop_last() =~= sv.take(k as int));
        if str_eq(scopes[k].as_str(), scope) {
            total = total + 1;
        }
        k = k + 1;
    }
    assert(sv.take(n as int) =~= sv);
    let mut seen: usize = 0;
    let mut k: usize = 0;
    while k < n
        invariant
            sv == summaries_view(summaries@),
            nv == str_list(next_up_ids@),
            n == summaries@.len(),
            scopes@.len() == n,
            forall|i: int| 0 <= i < n ==> #[trigger] scopes@[i]@ == summary_scope(*board, sv[i].0),
            total == scope_count(*board, sv, scope@),
            k <= n,
            seen == scope_count(*board, sv.take(k as int), scope@),
            seen <= k,
            out@ == head + scope_lines(*board, sv.take(k as int), scope@, total as nat, nv, idw as nat, *theme),
        decreases n - k,
    {
        assert(sv.take(k + 1).drop_last() =~= sv.take(k as int));
        assert(sv.take(k + 1).last() == sv[k as int]);
        if str_eq(scopes[k].as_str(), scope) {
            let line = render_chain_line(&summaries[k], seen + 1 == total, next_up_ids, idw, theme);
            out.append(line.as_str());
            seen = seen + 1;
        }
        k = k + 1;
    }
    assert(sv.take(n as int) =~= sv);
    out.append("\n");
    out
}

} // verus!

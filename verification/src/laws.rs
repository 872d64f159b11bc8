//! Properties that hold across calls and inputs of the library.

use vstd::prelude::*;
use crate::order::{KeyView, key_lt, pos_before, sorted_eligible, lemma_key_lt_trans};
use crate::flow_health::{VerificationQueueCategory, verification_category_spec, FlowMetrics, human_items_spec};
use crate::flow_format::{StoryScopeSummary, DepStatus, classified, deps_of, unmet_deps, done_in_scope, lemma_first_at,
    lemma_first_absent};
use crate::story::guidance::next_command_spec;
use crate::story::lifecycle::allowed_from;
use crate::listing::{resolve_spec, replaces_defaults};
use crate::voyage::start::{voyage_start_spec, in_voyage, blocks_start};
use crate::board::{Board, Story, voyage_ids, story_ids, first_index_of};
use crate::model::{VoyageState, StoryState};
use crate::next_up::{focus_epic, active_epic, human_next_up, agent_next_up, wip_epic, accept_keys, accept_oks,
    backlog_keys, stage_oks};
use crate::order::{pick_first, first_best, lemma_pick_first_found};
use crate::board::{scope_epic, opt_view};
use crate::text::{unicode_upper, lex_le, lemma_lex_total};
use crate::story::show::ac_counts;
use crate::story::lifecycle::{transition_spec, gated};
use crate::story::accept::{accept_spec, has_manual_criteria, role_family};
use crate::story::guidance::StoryLifecycleAction;
use crate::knowledge_graph::{KnowledgeGraphZoom, zoom_rank};
use crate::knowledge_view::{KnowledgeGraphProjection, shown};
use crate::topology_view::{TopologyNode, FocusDirection, focus_candidates, position_in, cycled_focus};
use crate::voyage::plan::{plan_spec, uncovered, voyage_refs, member_positions, functional_requirements,
    plan_problems};

verus! {

// ---------------------------------------------------------------------
// Ordering
// ---------------------------------------------------------------------

proof fn lemma_key_lt_irrefl(x: KeyView)
    ensures
        !key_lt(x, x),
{
}

proof fn lemma_pos_before_asym(ks: Seq<KeyView>, a: int, b: int)
    requires
        pos_before(ks, a, b),
    ensures
        !pos_before(ks, b, a),
        a != b,
{
    if key_lt(ks[a], ks[b]) && key_lt(ks[b], ks[a]) {
        lemma_key_lt_trans(ks[a], ks[b], ks[a]);
    }
}

proof fn lemma_sorted_unique(ks: Seq<KeyView>, o1: Seq<int>, o2: Seq<int>)
    requires
        forall|p: int, q: int| 0 <= p < q < o1.len() ==> pos_before(ks, #[trigger] o1[p], #[trigger] o1[q]),
        forall|p: int, q: int| 0 <= p < q < o2.len() ==> pos_before(ks, #[trigger] o2[p], #[trigger] o2[q]),
        forall|x: int| o1.contains(x) <==> o2.contains(x),
    ensures
        o1 == o2,
    decreases o1.len(),
{
    if o1.len() == 0 {
        if o2.len() > 0 {
            assert(o2.contains(o2[0]));
        }
        assert(o1 =~= o2);
    } else {
        assert(o1.contains(o1[0]));
        let q = choose|q: int| 0 <= q < o2.len() && o2[q] == o1[0];
        assert(o2.contains(o2[0]));
        let r = choose|r: int| 0 <= r < o1.len() && o1[r] == o2[0];
        if q > 0 {
            assert(pos_before(ks, o2[0], o2[q]));
            if r > 0 {
                assert(pos_before(ks, o1[0], o1[r]));
                lemma_pos_before_asym(ks, o1[0], o2[0]);
            } else {
                lemma_pos_before_asym(ks, o2[0], o2[q]);
            }
        }
        assert(o1[0] == o2[0]);
        let t1 = o1.drop_first();
        let t2 = o2.drop_first();
        assert forall|x: int| t1.contains(x) implies t2.contains(x) by {
            let i = choose|i: int| 0 <= i < t1.len() && t1[i] == x;
            assert(pos_before(ks, o1[0], o1[i + 1]));
            lemma_pos_before_asym(ks, o1[0], o1[i + 1]);
            assert(o2.contains(x));
            let j = choose|j: int| 0 <= j < o2.len() && o2[j] == x;
            assert(j != 0);
            assert(t2[j - 1] == x);
        }
        assert forall|x: int| t2.contains(x) implies t1.contains(x) by {
            let i = choose|i: int| 0 <= i < t2.len() && t2[i] == x;
            assert(pos_before(ks, o2[0], o2[i + 1]));
            lemma_pos_before_asym(ks, o2[0], o2[i + 1]);
            assert(o1.contains(x));
            let j = choose|j: int| 0 <= j < o1.len() && o1[j] == x;
            assert(j != 0);
            assert(t1[j - 1] == x);
        }
        assert forall|p: int, q: int| 0 <= p < q < t1.len() implies pos_before(ks, #[trigger] t1[p], #[trigger] t1[q]) by {
            assert(pos_before(ks, o1[p + 1], o1[q + 1]));
        }
        assert forall|p: int, q: int| 0 <= p < q < t2.len() implies pos_before(ks, #[trigger] t2[p], #[trigger] t2[q]) by {
            assert(pos_before(ks, o2[p + 1], o2[q + 1]));
        }
        lemma_sorted_unique(ks, t1, t2);
        assert(o1 =~= seq![o1[0]] + t1);
        assert(o2 =~= seq![o2[0]] + t2);
    }
}

/// Every listing order is determined by the keys and the filter: two
/// orders that both list exactly the eligible entries in key order (ties
/// in board order) are the same order. So listings, next-up queues and
/// rendered tables do not depend on anything but the board.
pub proof fn law_listing_order_is_unique(ks: Seq<KeyView>, ok: Seq<bool>, o1: Seq<int>, o2: Seq<int>)
    requires
        sorted_eligible(ks, ok, o1),
        sorted_eligible(ks, ok, o2),
    ensures
        o1 == o2,
{
    assert forall|x: int| o1.contains(x) <==> o2.contains(x) by {
        if o1.contains(x) {
            let p = choose|p: int| 0 <= p < o1.len() && o1[p] == x;
            assert(ok[o1[p]]);
        }
        if o2.contains(x) {
            let p = choose|p: int| 0 <= p < o2.len() && o2[p] == x;
            assert(ok[o2[p]]);
        }
    }
    lemma_sorted_unique(ks, o1, o2);
}

/// The listing order of eligible entries, as a single value.
pub open spec fn sorted_order(ks: Seq<KeyView>, ok: Seq<bool>) -> Seq<int> {
    choose|o: Seq<int>| sorted_eligible(ks, ok, o)
}

/// Any listing of the eligible entries in key order is the listing order.
pub proof fn law_sorted_order(ks: Seq<KeyView>, ok: Seq<bool>, o: Seq<int>)
    requires
        sorted_eligible(ks, ok, o),
    ensures
        sorted_order(ks, ok) == o,
{
    let c = choose|x: Seq<int>| sorted_eligible(ks, ok, x);
    law_listing_order_is_unique(ks, ok, o, c);
}

/// A listing names each eligible entry exactly once.
pub proof fn law_listing_names_each_entry_once(ks: Seq<KeyView>, ok: Seq<bool>, o: Seq<int>, p: int, q: int)
    requires
        sorted_eligible(ks, ok, o),
        0 <= p < o.len(),
        0 <= q < o.len(),
        o[p] == o[q],
    ensures
        p == q,
{
    if p < q {
        lemma_pos_before_asym(ks, o[p], o[q]);
    } else if q < p {
        lemma_pos_before_asym(ks, o[q], o[p]);
    }
}

// ---------------------------------------------------------------------
// Flow health
// ---------------------------------------------------------------------

/// How severe a verification-queue category is.
pub open spec fn severity(c: VerificationQueueCategory) -> int {
    match c {
        VerificationQueueCategory::Empty => 0,
        VerificationQueueCategory::Attention => 1,
        VerificationQueueCategory::HumanBlocked => 2,
        VerificationQueueCategory::FlowBlocked => 3,
    }
}

/// More stories awaiting acceptance never make the verification queue
/// look less pressing.
pub proof fn law_verification_pressure_is_monotone(a: nat, b: nat)
    requires
        a <= b,
    ensures
        severity(verification_category_spec(a)) <= severity(verification_category_spec(b)),
{
}

/// The epic the dashboard focuses on is unique: whichever one a board
/// gives, it is the one `active_epic` names.
pub proof fn law_focus_epic_is_unique(b: Board, e: Seq<char>)
    requires
        focus_epic(b, e),
    ensures
        active_epic(b) == Some(e),
{
    crate::next_up::lemma_active_epic_exists(b, e);
}

// ---------------------------------------------------------------------
// Stories and voyages
// ---------------------------------------------------------------------

/// A story never has more met criteria than criteria.
pub proof fn law_checked_criteria_within_total(ls: Seq<Seq<char>>)
    ensures
        ac_counts(ls).0 <= ac_counts(ls).1 <= ls.len(),
    decreases ls.len(),
{
    if ls.len() > 0 {
        law_checked_criteria_within_total(ls.drop_last());
    }
}

proof fn lemma_filter_nonempty(s: Seq<Story>, pred: spec_fn(Story) -> bool, i: int)
    requires
        0 <= i < s.len(),
        pred(s[i]),
    ensures
        s.filter(pred).len() > 0,
    decreases s.len(),
{
    reveal(Seq::filter);
    if i < s.len() - 1 {
        lemma_filter_nonempty(s.drop_last(), pred, i);
    }
}

proof fn lemma_filter_empty(s: Seq<Story>, pred: spec_fn(Story) -> bool)
    requires
        forall|i: int| 0 <= i < s.len() ==> !pred(#[trigger] s[i]),
    ensures
        s.filter(pred).len() == 0,
    decreases s.len(),
{
    reveal(Seq::filter);
    if s.len() > 0 {
        lemma_filter_empty(s.drop_last(), pred);
    }
}

/// A voyage cannot start while one of its stories is in progress or
/// awaiting verification.
pub proof fn law_voyage_start_refused_while_story_underway(b: Board, id: Seq<char>, expect: Option<u64>, actual: u64, s: int)
    requires
        0 <= s < b.stories@.len(),
        first_index_of(voyage_ids(b), id) matches Some(i) && in_voyage(b.stories@[s], b.voyages@[i].epic_id@, id),
        blocks_start(b.stories@[s]),
    ensures
        voyage_start_spec(b, id, expect, actual) is Err,
{
    let i = first_index_of(voyage_ids(b), id)->0;
    let v = b.voyages@[i];
    lemma_filter_nonempty(b.stories@, |x: Story| in_voyage(x, v.epic_id@, id) && blocks_start(x), s);
}

/// A draft or planned voyage starts when the caller's version (if given)
/// is the board's and each of its stories is queued or finished.
pub proof fn law_voyage_start_allowed_when_stories_settled(b: Board, id: Seq<char>, expect: Option<u64>, actual: u64)
    requires
        first_index_of(voyage_ids(b), id) matches Some(i)
            && (b.voyages@[i].status == VoyageState::Draft || b.voyages@[i].status == VoyageState::Planned)
            && forall|s: int| 0 <= s < b.stories@.len() && in_voyage(#[trigger] b.stories@[s], b.voyages@[i].epic_id@, id)
                ==> !blocks_start(b.stories@[s]),
        expect is None || expect == Some(actual),
    ensures
        voyage_start_spec(b, id, expect, actual) is Ok,
{
    let i = first_index_of(voyage_ids(b), id)->0;
    let v = b.voyages@[i];
    lemma_filter_empty(b.stories@, |x: Story| in_voyage(x, v.epic_id@, id) && blocks_start(x));
}

// ---------------------------------------------------------------------
// Planning a voyage
// ---------------------------------------------------------------------

proof fn lemma_uncovered_exact(reqs: Seq<Seq<char>>, refs: Seq<Seq<char>>, r: Seq<char>)
    ensures
        uncovered(reqs, refs).contains(r) <==> (reqs.contains(r) && !refs.contains(r)),
    decreases reqs.len(),
{
    if reqs.len() > 0 {
        lemma_uncovered_exact(reqs.drop_last(), refs, r);
        let prev = uncovered(reqs.drop_last(), refs);
        if reqs.contains(r) && !refs.contains(r) {
            let k = choose|k: int| 0 <= k < reqs.len() && reqs[k] == r;
            if k < reqs.len() - 1 {
                assert(reqs.drop_last()[k] == r);
            }
            if !refs.contains(reqs.last()) {
                assert(prev.push(reqs.last())[prev.len() as int] == reqs.last());
                if prev.contains(r) {
                    let m = choose|m: int| 0 <= m < prev.len() && prev[m] == r;
                    assert(prev.push(reqs.last())[m] == r);
                }
            }
        }
        if uncovered(reqs, refs).contains(r) {
            if !refs.contains(reqs.last()) {
                let m = choose|m: int| 0 <= m < prev.push(reqs.last()).len() && prev.push(reqs.last())[m] == r;
                if m < prev.len() {
                    assert(prev[m] == r);
                    let k = choose|k: int| 0 <= k < reqs.drop_last().len() && reqs.drop_last()[k] == r;
                    assert(reqs[k] == r);
                } else {
                    assert(reqs[reqs.len() - 1] == r);
                }
            } else {
                let k = choose|k: int| 0 <= k < reqs.drop_last().len() && reqs.drop_last()[k] == r;
                assert(reqs[k] == r);
            }
        }
    }
}

/// A voyage is never planned while a functional requirement of its SRS is
/// referenced by no acceptance criterion of its stories.
pub proof fn law_plan_refused_while_requirement_uncovered(
    b: Board, id: Seq<char>, srs: Seq<char>, contents: Seq<Seq<char>>, no_review: bool, req: Seq<char>)
    requires
        first_index_of(voyage_ids(b), id) matches Some(i)
            && !voyage_refs(b.stories@, contents, b.voyages@[i].epic_id@, id, b.stories@.len() as int).contains(req),
        functional_requirements(srs).contains(req),
    ensures
        plan_spec(b, id, Some(srs), contents, no_review) is Err,
{
    let i = first_index_of(voyage_ids(b), id)->0;
    let v = b.voyages@[i];
    let n = b.stories@.len() as int;
    let refs = voyage_refs(b.stories@, contents, v.epic_id@, id, n);
    lemma_uncovered_exact(functional_requirements(srs), refs, req);
    let missing = uncovered(functional_requirements(srs), refs);
    assert(missing.len() > 0);
    let members = member_positions(b.stories@, v.epic_id@, id, n);
    assert(plan_problems(v.status, members.len(), missing).len() > 0);
}

/// A voyage that is planned was a draft with stories, and each functional
/// requirement of its SRS is referenced by a criterion of one of them.
pub proof fn law_planned_voyage_was_draft_and_covered(
    b: Board, id: Seq<char>, srs: Seq<char>, contents: Seq<Seq<char>>, no_review: bool)
    requires
        plan_spec(b, id, Some(srs), contents, no_review) is Ok,
    ensures
        first_index_of(voyage_ids(b), id) matches Some(i)
            && b.voyages@[i].status == VoyageState::Draft
            && member_positions(b.stories@, b.voyages@[i].epic_id@, id, b.stories@.len() as int).len() > 0
            && forall|r: Seq<char>| #[trigger] functional_requirements(srs).contains(r)
                ==> voyage_refs(b.stories@, contents, b.voyages@[i].epic_id@, id, b.stories@.len() as int).contains(r),
{
    let i = first_index_of(voyage_ids(b), id)->0;
    let v = b.voyages@[i];
    let n = b.stories@.len() as int;
    let refs = voyage_refs(b.stories@, contents, v.epic_id@, id, n);
    let missing = uncovered(functional_requirements(srs), refs);
    let members = member_positions(b.stories@, v.epic_id@, id, n);
    assert(plan_problems(v.status, members.len(), missing).len() == 0);
    assert forall|r: Seq<char>| #[trigger] functional_requirements(srs).contains(r) implies refs.contains(r) by {
        lemma_uncovered_exact(functional_requirements(srs), refs, r);
    }
}

// ---------------------------------------------------------------------
// Story lifecycle
// ---------------------------------------------------------------------

/// A done story is final: no lifecycle action moves it.
pub proof fn law_done_story_is_final(b: Board, action: StoryLifecycleAction, id: Seq<char>)
    requires
        gated(action),
        first_index_of(story_ids(b), id) matches Some(i) && b.stories@[i].stage == StoryState::Done,
    ensures
        transition_spec(b, action, id) is Err,
{
}

/// A story whose criteria are verified by hand is accepted only by a
/// manager.
pub proof fn law_manual_criteria_need_a_manager(b: Board, id: Seq<char>, role: Seq<char>, content: Seq<char>)
    requires
        has_manual_criteria(content),
        !(role_family(role) == Some("manager"@)),
    ensures
        accept_spec(b, id, role, content) is Err,
{
}

// ---------------------------------------------------------------------
// Knowledge graph zoom
// ---------------------------------------------------------------------

/// A level is fixed by its rank.
proof fn lemma_zoom_rank_injective(a: KnowledgeGraphZoom, b: KnowledgeGraphZoom)
    requires
        zoom_rank(a) == zoom_rank(b),
    ensures
        a == b,
{
}

/// Zooming out undoes zooming in, short of the closest level; zooming in
/// undoes zooming out, short of the widest.
pub proof fn law_zoom_steps_undo_each_other(z: KnowledgeGraphZoom, zin: KnowledgeGraphZoom, zout: KnowledgeGraphZoom, back: KnowledgeGraphZoom)
    ensures
        zoom_rank(z) < 3 && zoom_rank(zin) == zoom_rank(z) + 1 && zoom_rank(back) == zoom_rank(zin) - 1 ==> back == z,
        zoom_rank(z) > 0 && zoom_rank(zout) == zoom_rank(z) - 1 && zoom_rank(back) == zoom_rank(zout) + 1 ==> back == z,
{
    if zoom_rank(back) == zoom_rank(z) {
        lemma_zoom_rank_injective(back, z);
    }
}

// ---------------------------------------------------------------------
// Topology focus
// ---------------------------------------------------------------------

proof fn lemma_position_of_distinct(cs: Seq<Seq<char>>, i: int)
    requires
        0 <= i < cs.len(),
        cs.no_duplicates(),
    ensures
        position_in(cs, cs[i]) == Some(i),
    decreases cs.len(),
{
    if i > 0 {
        assert(cs[0] != cs[i]);
        assert(cs.drop_first()[i - 1] == cs[i]);
        lemma_position_of_distinct(cs.drop_first(), i - 1);
    }
}

proof fn lemma_mod_shift(a: int, n: int)
    requires
        0 <= a < n,
    ensures
        a % n == a,
        (a + n) % n == a,
{
    vstd::arithmetic::div_mod::lemma_fundamental_div_mod_converse(a, n, 0, a);
    vstd::arithmetic::div_mod::lemma_fundamental_div_mod_converse(a + n, n, 1, a);
}

/// Cycling focus forward and then back, or back and then forward, returns
/// to the node that was focused, when it is one of the map's candidates and
/// the candidates' ids differ.
pub proof fn law_cycle_focus_round_trip(ns: Seq<TopologyNode>, f: Seq<char>)
    requires
        focus_candidates(ns).contains(f),
        focus_candidates(ns).no_duplicates(),
    ensures
        cycled_focus(ns, cycled_focus(ns, Some(f), FocusDirection::Next), FocusDirection::Previous) == Some(f),
        cycled_focus(ns, cycled_focus(ns, Some(f), FocusDirection::Previous), FocusDirection::Next) == Some(f),
{
    let cs = focus_candidates(ns);
    let n = cs.len() as int;
    let ci = choose|i: int| 0 <= i < cs.len() && cs[i] == f;
    lemma_position_of_distinct(cs, ci);
    let nx = if ci + 1 < n { ci + 1 } else { 0 };
    let pv = if ci > 0 { ci - 1 } else { n - 1 };
    if ci + 1 < n {
        lemma_mod_shift(ci + 1, n);
    } else {
        lemma_mod_shift(0, n);
    }
    assert((ci + 1) % n == nx);
    lemma_mod_shift(pv, n);
    if ci > 0 {
        lemma_mod_shift(ci - 1, n);
    }
    assert((ci + (n - 1)) % n == pv);
    lemma_position_of_distinct(cs, nx);
    lemma_position_of_distinct(cs, pv);
    if nx > 0 {
        lemma_mod_shift(nx - 1, n);
    }
    lemma_mod_shift(ci, n);
    assert((nx + (n - 1)) % n == ci);
    if pv + 1 < n {
        lemma_mod_shift(pv + 1, n);
    } else {
        lemma_mod_shift(0, n);
    }
    assert((pv + 1) % n == ci);
}

// ---------------------------------------------------------------------
// Knowledge-graph view
// ---------------------------------------------------------------------

/// Without a focus, zooming in hides nothing: every node shown at a zoom
/// level is shown at every closer one.
pub proof fn law_zoom_in_keeps_shown_nodes(p: KnowledgeGraphProjection, z1: KnowledgeGraphZoom, z2: KnowledgeGraphZoom, x: Seq<char>)
    requires
        zoom_rank(z1) <= zoom_rank(z2),
        shown(p, z1, None, x),
    ensures
        shown(p, z2, None, x),
{
    let i = choose|i: int| 0 <= i < p.nodes@.len() && (#[trigger] p.nodes@[i]).id@ == x
        && crate::knowledge_view::kind_depth(p.nodes@[i].kind) <= zoom_rank(z1) + 2;
    assert(p.nodes@[i].id@ == x);
}

// ---------------------------------------------------------------------
// Status filters
// ---------------------------------------------------------------------

/// The statuses a filter resolves to are allowed ones, each named once,
/// when the defaults are.
pub proof fn law_status_filter_allowed_and_distinct(filters: Seq<Seq<char>>, defaults: Seq<Seq<char>>, allowed: Seq<Seq<char>>)
    requires
        forall|i: int| 0 <= i < defaults.len() ==> allowed.contains(#[trigger] defaults[i]),
        defaults.no_duplicates(),
    ensures
        resolve_spec(filters, defaults, allowed) matches Ok(v) ==> v.no_duplicates()
            && forall|i: int| 0 <= i < v.len() ==> allowed.contains(#[trigger] v[i]),
    decreases filters.len(),
{
    if filters.len() > 0 {
        law_status_filter_allowed_and_distinct(filters.drop_last(), defaults, allowed);
        match resolve_spec(filters.drop_last(), defaults, allowed) {
            Ok(acc) => {
                let f = filters.last();
                let plus = f.len() > 0 && f[0] == '+';
                let name = if plus { f.skip(1) } else { f };
                if allowed.contains(name) {
                    let base = if !plus && replaces_defaults(filters.drop_last()) { acc } else if !plus { Seq::<Seq<char>>::empty() } else { acc };
                    if !base.contains(name) {
                        let nb = base.push(name);
                        assert forall|i: int, j: int| 0 <= i < nb.len() && 0 <= j < nb.len() && i != j implies nb[i] != nb[j] by {
                            if i == nb.len() - 1 {
                                assert(base.contains(nb[j]) || j == i);
                            } else if j == nb.len() - 1 {
                                assert(base.contains(nb[i]));
                            }
                        }
                    }
                }
            },
            Err(_) => {},
        }
    }
}

// ---------------------------------------------------------------------
// What to work on next
// ---------------------------------------------------------------------

/// Whether a submission time is no later than another, a story never
/// submitted counting as earliest.
pub open spec fn submitted_no_later(a: Option<i64>, c: Option<i64>) -> bool {
    match (a, c) {
        (None, _) => true,
        (Some(x), Some(y)) => x <= y,
        (Some(_), None) => false,
    }
}

/// Whether a story index comes no later than another, a story without an
/// index coming first.
pub open spec fn index_no_later(a: Option<u32>, c: Option<u32>) -> bool {
    match (a, c) {
        (None, _) => true,
        (Some(x), Some(y)) => x <= y,
        (Some(_), None) => false,
    }
}

/// The story belongs to an epic that has a story in progress.
pub open spec fn in_busy_epic(b: Board, s: Story) -> bool {
    match scope_epic(opt_view(s.scope)) {
        Some(e) => wip_epic(b, e),
        None => false,
    }
}

/// While any story awaits human verification, the human queue opens with
/// accepting one of those stories, the one waiting longest: no other
/// waiting story was submitted earlier.
pub proof fn law_accept_offers_longest_waiting(b: Board, j: int)
    requires
        0 <= j < b.stories@.len(),
        b.stories@[j].stage == StoryState::NeedsHumanVerification,
    ensures
        exists|i: int| #![trigger b.stories@[i]]
            0 <= i < b.stories@.len()
            && b.stories@[i].stage == StoryState::NeedsHumanVerification
            && human_next_up(b).len() >= 1
            && human_next_up(b)[0] == (b.stories@[i].id@, b.stories@[i].title@, "accept"@,
                Some("keel story accept "@ + unicode_upper(b.stories@[i].id@)))
            && submitted_no_later(b.stories@[i].submitted_at, b.stories@[j].submitted_at),
{
    let ks = accept_keys(b);
    let ok = accept_oks(b);
    assert(ok[j]);
    lemma_pick_first_found(ks, ok, j);
    let i = pick_first(ks, ok)->0;
    assert(first_best(ks, ok, i));
    assert(!key_lt(ks[j], ks[i]));
    assert(ok[i]);
    let hv = human_next_up(b);
    assert(hv[0] == (b.stories@[i].id@, b.stories@[i].title@, "accept"@,
        Some("keel story accept "@ + unicode_upper(b.stories@[i].id@))));
    assert(submitted_no_later(b.stories@[i].submitted_at, b.stories@[j].submitted_at));
}

/// While any story is in the backlog, the agent queue opens with starting a
/// backlog story: one of an epic with work in progress when there is such a
/// story, among those the lowest index (none first), and among equal indexes
/// the first id; `order` is any ordering of the work in progress.
pub proof fn law_backlog_offers_lowest_index(b: Board, j: int, order: Seq<int>)
    requires
        0 <= j < b.stories@.len(),
        b.stories@[j].stage == StoryState::Backlog,
    ensures
        exists|i: int| #![trigger b.stories@[i]]
            0 <= i < b.stories@.len()
            && b.stories@[i].stage == StoryState::Backlog
            && agent_next_up(b, order).len() >= 1
            && agent_next_up(b, order)[0] == (b.stories@[i].id@, b.stories@[i].title@, "backlog"@,
                Some("keel story start "@ + unicode_upper(b.stories@[i].id@)))
            && (in_busy_epic(b, b.stories@[j]) ==> in_busy_epic(b, b.stories@[i]))
            && (in_busy_epic(b, b.stories@[j]) == in_busy_epic(b, b.stories@[i])
                ==> index_no_later(b.stories@[i].index, b.stories@[j].index))
            && (in_busy_epic(b, b.stories@[j]) == in_busy_epic(b, b.stories@[i])
                && b.stories@[i].index == b.stories@[j].index
                ==> lex_le(b.stories@[i].id@, b.stories@[j].id@)),
{
    let ks = backlog_keys(b);
    let ok = stage_oks(b, StoryState::Backlog);
    assert(ok[j]);
    lemma_pick_first_found(ks, ok, j);
    let i = pick_first(ks, ok)->0;
    assert(first_best(ks, ok, i));
    assert(!key_lt(ks[j], ks[i]));
    assert(ok[i]);
    let si = b.stories@[i];
    let sj = b.stories@[j];
    assert(agent_next_up(b, order)[0] == (si.id@, si.title@, "backlog"@,
        Some("keel story start "@ + unicode_upper(si.id@))));
    if in_busy_epic(b, sj) == in_busy_epic(b, si) && si.index == sj.index {
        lemma_lex_total(si.id@, sj.id@);
        if !lex_le(si.id@, sj.id@) {
            assert(lex_le(sj.id@, si.id@));
            assert(si.id@ != sj.id@);
            assert(key_lt(ks[j], ks[i]));
        }
    }
}

// ---------------------------------------------------------------------
// The human queue's decomposition item
// ---------------------------------------------------------------------

/// The human queue lists work to decompose exactly when some epic needs
/// voyages or some voyage is still a draft, and then counts both: the epics
/// needing voyages plus the draft voyages.
pub proof fn law_decompose_counts_epics_and_drafts(m: FlowMetrics)
    ensures
        (exists|k: int| 0 <= k < human_items_spec(m).len() && (#[trigger] human_items_spec(m)[k]).0 == "to decompose"@)
            <==> m.planning.epics_needing_voyages + m.planning.draft_count > 0,
        forall|k: int| 0 <= k < human_items_spec(m).len() && (#[trigger] human_items_spec(m)[k]).0 == "to decompose"@
            ==> human_items_spec(m)[k].1 == m.planning.epics_needing_voyages + m.planning.draft_count,
{
    reveal_strlit("to decompose");
    reveal_strlit("proposed ADRs");
    reveal_strlit("to accept");
    reveal_strlit("to start");
    reveal_strlit("to calibrate");
    let q = human_items_spec(m);
    let n = m.planning.epics_needing_voyages + m.planning.draft_count;
    let a: int = if m.governance.proposed_count > 0 { 1 } else { 0 };
    assert("to decompose"@ != "proposed ADRs"@) by { assert("to decompose"@[1] != "proposed ADRs"@[1]); }
    assert("to decompose"@ != "to accept"@) by { assert("to decompose"@[3] != "to accept"@[3]); }
    assert("to decompose"@ != "to start"@) by { assert("to decompose"@[3] != "to start"@[3]); }
    assert("to decompose"@ != "to calibrate"@) by { assert("to decompose"@[3] != "to calibrate"@[3]); }
    if n > 0 {
        assert(q[a + 2].0 == "to decompose"@);
        assert(q.len() == a + 4);
    } else {
        assert(q.len() == a + 3);
        assert forall|k: int| 0 <= k < q.len() implies (#[trigger] q[k]).0 != "to decompose"@ by {
            if a == 1 && k == 0 {
            } else if k == a {
            } else if k == a + 1 {
            } else {
                assert(k == a + 2);
            }
        }
    }
    assert forall|k: int| 0 <= k < q.len() && (#[trigger] q[k]).0 == "to decompose"@ implies q[k].1 == n by {
        if a == 1 && k == 0 {
        } else if k == a {
        } else if k == a + 1 {
        } else if n > 0 && k == a + 2 {
        } else {
            assert(k == q.len() - 1);
        }
    }
}

// ---------------------------------------------------------------------
// Dependency readiness
// ---------------------------------------------------------------------

/// A dependency counts as met only by a done story: a story still to do
/// (not done, started, iced or awaiting verification of its own) one of
/// whose recorded dependencies has no done story in the scope is blocked,
/// with that dependency among its blockers.
pub proof fn law_dependency_met_only_when_done(
    ss: Seq<StoryScopeSummary>,
    deps: Seq<(Seq<char>, Seq<Seq<char>>)>,
    verify: Seq<Seq<char>>,
    i: int,
    e: int,
    p: int,
)
    requires
        0 <= i < ss.len(),
        0 <= e < deps.len(),
        deps[e].0 == ss[i].id@,
        forall|f: int| 0 <= f < e ==> (#[trigger] deps[f]).0 != ss[i].id@,
        0 <= p < deps[e].1.len(),
        forall|k: int| 0 <= k < ss.len() && (#[trigger] ss[k]).id@ == deps[e].1[p]
            ==> ss[k].stage != StoryState::Done,
        ss[i].stage != StoryState::Done,
        ss[i].stage != StoryState::InProgress,
        ss[i].stage != StoryState::Icebox,
        !verify.contains(ss[i].id@),
    ensures
        classified(ss, deps, verify, i).2 == DepStatus::Blocked,
        classified(ss, deps, verify, i).3.contains(deps[e].1[p]),
{
    let keys = deps.map_values(|x: (Seq<char>, Seq<Seq<char>>)| x.0);
    assert forall|f: int| 0 <= f < e implies keys[f] != ss[i].id@ by {
        assert(keys[f] == deps[f].0);
    }
    lemma_first_at(keys, ss[i].id@, e);
    assert(deps_of(deps, ss[i].id@) == deps[e].1);
    let d = deps[e].1[p];
    assert(!done_in_scope(ss, d));
    let pred = |x: Seq<char>| !done_in_scope(ss, x);
    deps[e].1.lemma_filter_contains(pred, p);
    assert(unmet_deps(ss, deps, ss[i].id@) == deps[e].1.filter(pred));
    assert(unmet_deps(ss, deps, ss[i].id@).contains(d));
    assert(unmet_deps(ss, deps, ss[i].id@).len() > 0);
}

proof fn lemma_filter_none(v: Seq<Seq<char>>, pred: spec_fn(Seq<char>) -> bool)
    requires
        forall|k: int| 0 <= k < v.len() ==> !pred(#[trigger] v[k]),
    ensures
        v.filter(pred).len() == 0,
    decreases v.len(),
{
    reveal(Seq::filter);
    if v.len() > 0 {
        lemma_filter_none(v.drop_last(), pred);
        assert(!pred(v[v.len() - 1]));
    }
}

/// A story still to do whose every recorded dependency has a done story in
/// the scope is ready, with no blockers.
pub proof fn law_dependencies_done_means_ready(
    ss: Seq<StoryScopeSummary>,
    deps: Seq<(Seq<char>, Seq<Seq<char>>)>,
    verify: Seq<Seq<char>>,
    i: int,
)
    requires
        0 <= i < ss.len(),
        forall|f: int, g: int| 0 <= f < g < deps.len() ==> (#[trigger] deps[f]).0 != (#[trigger] deps[g]).0,
        forall|e: int, p: int| #![trigger deps[e].1[p]] 0 <= e < deps.len() && deps[e].0 == ss[i].id@ && 0 <= p < deps[e].1.len()
            ==> exists|k: int| 0 <= k < ss.len() && (#[trigger] ss[k]).id@ == deps[e].1[p]
                && ss[k].stage == StoryState::Done,
        ss[i].stage != StoryState::Done,
        ss[i].stage != StoryState::InProgress,
        ss[i].stage != StoryState::Icebox,
        !verify.contains(ss[i].id@),
    ensures
        classified(ss, deps, verify, i).2 == DepStatus::Ready,
        classified(ss, deps, verify, i).3.len() == 0,
{
    let id = ss[i].id@;
    let keys = deps.map_values(|x: (Seq<char>, Seq<Seq<char>>)| x.0);
    let pred = |x: Seq<char>| !done_in_scope(ss, x);
    if exists|e: int| 0 <= e < deps.len() && (#[trigger] deps[e]).0 == id {
        let e = choose|e: int| 0 <= e < deps.len() && (#[trigger] deps[e]).0 == id;
        assert forall|f: int| 0 <= f < e implies keys[f] != id by {
            assert(keys[f] == deps[f].0);
        }
        lemma_first_at(keys, id, e);
        assert(deps_of(deps, id) == deps[e].1);
        assert forall|p: int| 0 <= p < deps[e].1.len() implies !pred(#[trigger] deps[e].1[p]) by {
            let k = choose|k: int| 0 <= k < ss.len() && (#[trigger] ss[k]).id@ == deps[e].1[p]
                && ss[k].stage == StoryState::Done;
            assert(done_in_scope(ss, deps[e].1[p]));
        }
        lemma_filter_none(deps[e].1, pred);
    } else {
        assert forall|f: int| 0 <= f < keys.len() implies keys[f] != id by {
            assert(keys[f] == deps[f].0);
        }
        lemma_first_absent(keys, id);
        assert(deps_of(deps, id) == Seq::<Seq<char>>::empty());
        lemma_filter_none(Seq::<Seq<char>>::empty(), pred);
    }
    assert(unmet_deps(ss, deps, id) == deps_of(deps, id).filter(pred));
}

// ---------------------------------------------------------------------
// Next lifecycle step
// ---------------------------------------------------------------------

/// The next command suggested for a story that is neither in progress nor
/// done is a forward lifecycle step the story's stage allows (never icing
/// or rejecting it); a story in progress is next submitted; a done story
/// gets no next command.
pub proof fn law_next_command_is_allowed(s: StoryState, id: Seq<char>)
    ensures
        s != StoryState::InProgress && s != StoryState::Done ==> exists|a: StoryLifecycleAction|
            allowed_from(a, s) && a != StoryLifecycleAction::Ice && a != StoryLifecycleAction::Reject
            && next_command_spec(s, id) == Some("keel story "@ + #[trigger] crate::story::lifecycle::verb_of(a) + " "@ + id),
        s == StoryState::InProgress ==> next_command_spec(s, id) == Some("keel story submit "@ + id),
        (s == StoryState::Done) == (next_command_spec(s, id) is None),
{
    reveal_strlit("keel story ");
    reveal_strlit(" ");
    reveal_strlit("start");
    reveal_strlit("thaw");
    reveal_strlit("accept");
    reveal_strlit("keel story start ");
    reveal_strlit("keel story thaw ");
    reveal_strlit("keel story accept ");
    let a = match s {
        StoryState::Icebox => StoryLifecycleAction::Thaw,
        StoryState::NeedsHumanVerification => StoryLifecycleAction::Accept,
        _ => StoryLifecycleAction::Start,
    };
    if s != StoryState::InProgress && s != StoryState::Done {
        assert("keel story "@ + crate::story::lifecycle::verb_of(a) + " "@ + id
            =~= match s {
                StoryState::Icebox => "keel story thaw "@ + id,
                StoryState::NeedsHumanVerification => "keel story accept "@ + id,
                _ => "keel story start "@ + id,
            });
        assert(allowed_from(a, s));
    }
}

} // verus!

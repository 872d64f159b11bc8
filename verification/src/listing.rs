//! Which stories and voyages the list commands show, and in what order.

use vstd::prelude::*;
use crate::model::{StoryState, voyage_state_label};
use crate::board::{Board, Story, Voyage, opt_view, scope_epic, epic_of_scope, story_rank, story_rank_keys,
    epic_ids, first_index_of};
use crate::order::{SortKey, KeyView, keys_view, sort_eligible, sorted_eligible};
use crate::text::{str_eq, owned, concat3, to_lowercase, unicode_lower, strip_prefix, join_with};
use crate::flow_format::{str_list, lemma_first_at, lemma_first_absent};
use crate::story::new::epic_view;

verus! {

// ---------------------------------------------------------------------
// Stories
// ---------------------------------------------------------------------

/// The stage a `--stage` value names (any letter case, lower-cased as
/// Unicode does); `None` for an unknown value, which filters nothing.
pub open spec fn stage_named(s: Seq<char>) -> Option<StoryState> {
    let l = unicode_lower(s);
    if l == "backlog"@ {
        Some(StoryState::Backlog)
    } else if l == "in-progress"@ {
        Some(StoryState::InProgress)
    } else if l == "needs-human-verification"@ {
        Some(StoryState::NeedsHumanVerification)
    } else if l == "done"@ {
        Some(StoryState::Done)
    } else if l == "rejected"@ {
        Some(StoryState::Rejected)
    } else if l == "icebox"@ {
        Some(StoryState::Icebox)
    } else {
        None
    }
}

/// The stage an optional `--stage` value names.
pub open spec fn stage_of(stage: Option<&str>) -> Option<StoryState> {
    match stage {
        Some(s) => stage_named(s@),
        None => None,
    }
}

/// Parses a `--stage` value.
pub fn parse_stage(s: &str) -> (r: Option<StoryState>)
    ensures
        r == stage_named(s@),
{
    let l = to_lowercase(s);
    let l = l.as_str();
    if str_eq(l, "backlog") {
        Some(StoryState::Backlog)
    } else if str_eq(l, "in-progress") {
        Some(StoryState::InProgress)
    } else if str_eq(l, "needs-human-verification") {
        Some(StoryState::NeedsHumanVerification)
    } else if str_eq(l, "done") {
        Some(StoryState::Done)
    } else if str_eq(l, "rejected") {
        Some(StoryState::Rejected)
    } else if str_eq(l, "icebox") {
        Some(StoryState::Icebox)
    } else {
        None
    }
}

/// The story passes the stage and epic filters.
pub open spec fn story_listed(s: Story, stage: Option<StoryState>, epic: Option<Seq<char>>) -> bool {
    (stage is None || stage == Some(s.stage)) && (epic is None || scope_epic(opt_view(s.scope)) == epic)
}

pub open spec fn story_list_oks(b: Board, stage: Option<StoryState>, epic: Option<Seq<char>>) -> Seq<bool> {
    b.stories@.map_values(|s: Story| story_listed(s, stage, epic))
}

pub open spec fn story_ranks(b: Board) -> Seq<KeyView> {
    b.stories@.map_values(|s: Story| story_rank(b, s))
}

/// The stories to list: those passing the filters, by epic index, voyage
/// index, story index and id.
pub fn list_stories<'a>(board: &'a Board, stage: Option<&str>, epic: Option<&str>) -> (r: Vec<&'a Story>)
    ensures
        exists|order: Seq<int>|
            #[trigger] sorted_eligible(story_ranks(*board), story_list_oks(*board,
                stage_of(stage),
                epic_view(epic)), order)
            && r@.len() == order.len()
            && forall|p: int| 0 <= p < order.len() ==> *r@[p] == board.stories@[#[trigger] order[p]],
{
    let stage_filter = match stage {
        Some(s) => parse_stage(s),
        None => None,
    };
    let ghost ef = match epic { Some(e) => Some(e@), None => None::<Seq<char>> };
    let keys = story_rank_keys(board, &board.stories);
    let mut oks: Vec<bool> = Vec::new();
    let mut k: usize = 0;
    while k < board.stories.len()
        invariant
            k <= board.stories.len(),
            oks@.len() == k,
            forall|i: int| 0 <= i < k ==> #[trigger] oks@[i] == story_listed(board.stories@[i], stage_filter, ef),
            ef == match epic { Some(e) => Some(e@), None => None::<Seq<char>> },
        decreases board.stories.len() - k,
    {
        let s = &board.stories[k];
        let stage_ok = match stage_filter {
            Some(st) => st == s.stage,
            None => true,
        };
        let epic_ok = match epic {
            Some(e) => match epic_of_scope(&s.scope) {
                Some(x) => str_eq(x.as_str(), e),
                None => false,
            },
            None => true,
        };
        oks.push(stage_ok && epic_ok);
        k = k + 1;
    }
    assert(keys_view(keys@) =~= story_ranks(*board));
    assert(oks@ =~= story_list_oks(*board, stage_filter, ef));
    let order = sort_eligible(&keys, &oks);
    let ghost ov = order@.map_values(|i: usize| i as int);
    let mut r: Vec<&'a Story> = Vec::new();
    let mut p: usize = 0;
    while p < order.len()
        invariant
            ov == order@.map_values(|i: usize| i as int),
            sorted_eligible(story_ranks(*board), story_list_oks(*board, stage_filter, ef), ov),
            keys@.len() == board.stories@.len(),
            p <= order.len(),
            r@.len() == p,
            forall|q: int| 0 <= q < p ==> *r@[q] == board.stories@[#[trigger] ov[q]],
        decreases order.len() - p,
    {
        let i = order[p];
        assert(ov[p as int] == i as int);
        r.push(&board.stories[i]);
        p = p + 1;
    }
    r
}

// ---------------------------------------------------------------------
// Status filters
// ---------------------------------------------------------------------

/// Resolves `--status` values against the defaults: no value means the
/// defaults; values without `+` replace them; `+value` adds to them (or to
/// the values given). Unknown statuses are refused.
pub open spec fn resolve_spec(filters: Seq<Seq<char>>, defaults: Seq<Seq<char>>, allowed: Seq<Seq<char>>)
    -> Result<Seq<Seq<char>>, Seq<char>>
    decreases filters.len(),
{
    if filters.len() == 0 {
        Ok(defaults)
    } else {
        match resolve_spec(filters.drop_last(), defaults, allowed) {
            Err(m) => Err(m),
            Ok(acc) => {
                let f = filters.last();
                let plus = f.len() > 0 && f[0] == '+';
                let name = if plus { f.skip(1) } else { f };
                if !allowed.contains(name) {
                    Err("Unknown status '"@ + name + "' (allowed: "@ + join_with(allowed, ", "@) + ")"@)
                } else {
                    let base = if !plus && replaces_defaults(filters.drop_last()) { acc } else if !plus { Seq::empty() } else { acc };
                    if base.contains(name) { Ok(base) } else { Ok(base.push(name)) }
                }
            },
        }
    }
}

/// The views of string slices.
pub open spec fn str_refs(v: Seq<&str>) -> Seq<Seq<char>> {
    v.map_values(|d: &str| d@)
}

proof fn lemma_plus_prefix(f: Seq<char>)
    ensures
        "+"@.is_prefix_of(f) == is_plus(f),
{
    reveal_strlit("+");
    if is_plus(f) {
        assert(f.subrange(0, 1) =~= "+"@);
    } else if f.len() > 0 {
        assert(f.subrange(0, 1)[0] == f[0]);
    }
}

/// A refused value stays refused whatever follows it.
proof fn lemma_resolve_err(fv: Seq<Seq<char>>, n: int, d: Seq<Seq<char>>, a: Seq<Seq<char>>)
    requires
        0 <= n <= fv.len(),
        resolve_spec(fv.take(n), d, a) is Err,
    ensures
        resolve_spec(fv, d, a) == resolve_spec(fv.take(n), d, a),
    decreases fv.len() - n,
{
    if n == fv.len() {
        assert(fv.take(n) =~= fv);
    } else {
        assert(fv.take(n + 1).drop_last() =~= fv.take(n));
        lemma_resolve_err(fv, n + 1, d, a);
    }
}

/// Some earlier value already replaced the defaults.
pub open spec fn replaces_defaults(filters: Seq<Seq<char>>) -> bool {
    exists|i: int| 0 <= i < filters.len() && !is_plus(#[trigger] filters[i])
}

/// A `+value` filter.
pub open spec fn is_plus(f: Seq<char>) -> bool {
    f.len() > 0 && f[0] == '+'
}

/// Resolves the status filter of a list command.
pub fn resolve_status_filter(filters: &[String], defaults: &[&str], allowed: &[&str]) -> (r: Result<Vec<String>, String>)
    ensures
        match r {
            Ok(v) => resolve_spec(str_list(filters@), str_refs(defaults@),
                str_refs(allowed@)) == Ok::<Seq<Seq<char>>, Seq<char>>(str_list(v@)),
            Err(m) => resolve_spec(str_list(filters@), str_refs(defaults@),
                str_refs(allowed@)) == Err::<Seq<Seq<char>>, Seq<char>>(m@),
        },
{
    let ghost fv = str_list(filters@);
    let ghost dv = str_refs(defaults@);
    let ghost av = str_refs(allowed@);
    let mut acc: Vec<String> = Vec::new();
    let mut k: usize = 0;
    while k < defaults.len()
        invariant
            dv == str_refs(defaults@),
            k <= defaults.len(),
            str_list(acc@) == dv.take(k as int),
        decreases defaults.len() - k,
    {
        let ghost before = str_list(acc@);
        acc.push(owned(defaults[k]));
        assert(dv[k as int] == defaults@[k as int]@);
        assert(str_list(acc@) =~= before.push(dv[k as int]));
        assert(dv.take(k + 1) =~= dv.take(k as int).push(dv[k as int]));
        k = k + 1;
    }
    assert(dv.take(k as int) =~= dv);
    let mut replaced = false;
    let mut k: usize = 0;
    assert(fv.take(0) =~= Seq::<Seq<char>>::empty());
    while k < filters.len()
        invariant
            fv == str_list(filters@),
            dv == str_refs(defaults@),
            av == str_refs(allowed@),
            k <= filters.len(),
            resolve_spec(fv.take(k as int), dv, av) == Ok::<Seq<Seq<char>>, Seq<char>>(str_list(acc@)),
            replaced == replaces_defaults(fv.take(k as int)),
        decreases filters.len() - k,
    {
        let f = filters[k].as_str();
        assert(fv.take(k + 1).drop_last() =~= fv.take(k as int));
        assert(fv.take(k + 1).last() == f@);
        let (plus, name) = match strip_prefix(f, "+") {
            Some(rest) => {
                proof { reveal_strlit("+"); }
                (true, rest)
            },
            None => {
                proof { reveal_strlit("+"); }
                (false, f)
            },
        };
        proof {
            lemma_plus_prefix(f@);
        }
        assert(plus == is_plus(f@));
        assert(name@ == if plus { f@.skip(1) } else { f@ });
        let mut ok = false;
        let mut j: usize = 0;
        while j < allowed.len()
            invariant
                av == str_refs(allowed@),
                j <= allowed.len(),
                ok == exists|i: int| 0 <= i < j && av[i] == name@,
            decreases allowed.len() - j,
        {
            let eq = str_eq(allowed[j], name);
            assert(av[j as int] == allowed@[j as int]@);
            if eq {
                ok = true;
            }
            j = j + 1;
        }
        if !ok {
            proof {
                assert(!av.contains(name@));
            }
            let mut m = concat3("Unknown status '", name, "' (allowed: ");
            let mut j: usize = 0;
            while j < allowed.len()
                invariant
                    av == str_refs(allowed@),
                    j <= allowed.len(),
                    m@ == "Unknown status '"@ + name@ + "' (allowed: "@ + join_with(av.take(j as int), ", "@),
                decreases allowed.len() - j,
            {
                assert(av.take(j + 1).drop_last() =~= av.take(j as int));
                if j > 0 {
                    m.append(", ");
                }
                m.append(allowed[j]);
                j = j + 1;
                assert(m@ =~= "Unknown status '"@ + name@ + "' (allowed: "@ + join_with(av.take(j as int), ", "@));
            }
            assert(av.take(j as int) =~= av);
            m.append(")");
            proof {
                lemma_resolve_err(fv, k + 1, dv, av);
            }
            return Err(m);
        }
        proof {
            let w = choose|i: int| 0 <= i < allowed@.len() && av[i] == name@;
            assert(av.contains(name@));
        }
        let ghost acc0 = str_list(acc@);
        if !plus && !replaced {
            acc = Vec::new();
            assert(str_list(acc@) =~= Seq::<Seq<char>>::empty());
        }
        let ghost base = str_list(acc@);
        assert(base == if !plus && replaces_defaults(fv.take(k as int)) { acc0 } else if !plus { Seq::empty() } else { acc0 });
        let mut present = false;
        let mut j: usize = 0;
        while j < acc.len()
            invariant
                j <= acc.len(),
                present == exists|i: int| 0 <= i < j && str_list(acc@)[i] == name@,
            decreases acc.len() - j,
        {
            let eq = str_eq(acc[j].as_str(), name);
            assert(str_list(acc@)[j as int] == acc@[j as int]@);
            if eq {
                present = true;
            }
            j = j + 1;
        }
        assert(present == base.contains(name@));
        if !present {
            acc.push(owned(name));
            assert(str_list(acc@) =~= base.push(name@));
        }
        assert(resolve_spec(fv.take(k + 1), dv, av) == Ok::<Seq<Seq<char>>, Seq<char>>(str_list(acc@)));
        proof {
            if plus {
                assert(replaces_defaults(fv.take(k + 1)) == replaces_defaults(fv.take(k as int))) by {
                    if replaces_defaults(fv.take(k + 1)) {
                        let i = choose|i: int| 0 <= i < fv.take(k + 1).len() && !is_plus(#[trigger] fv.take(k + 1)[i]);
                        assert(i < k);
                        assert(fv.take(k as int)[i] == fv.take(k + 1)[i]);
                    }
                    if replaces_defaults(fv.take(k as int)) {
                        let i = choose|i: int| 0 <= i < fv.take(k as int).len() && !is_plus(#[trigger] fv.take(k as int)[i]);
                        assert(fv.take(k + 1)[i] == fv.take(k as int)[i]);
                    }
                }
            } else {
                assert(fv.take(k + 1)[k as int] == f@);
                assert(replaces_defaults(fv.take(k + 1)));
            }
        }
        replaced = replaced || !plus;
        k = k + 1;
    }
    assert(fv.take(k as int) =~= fv);
    Ok(acc)
}

// ---------------------------------------------------------------------
// Voyages
// ---------------------------------------------------------------------

/// The statuses listed when no filter is given.
pub fn default_voyage_statuses() -> (r: Vec<&'static str>)
    ensures
        str_refs(r@) == seq!["draft"@, "planned"@, "in-progress"@],
{
    let r = vec!["draft", "planned", "in-progress"];
    assert(str_refs(r@) =~= seq!["draft"@, "planned"@, "in-progress"@]);
    r
}

/// The statuses a filter may name.
pub fn allowed_voyage_statuses() -> (r: Vec<&'static str>)
    ensures
        str_refs(r@) == seq!["draft"@, "planned"@, "in-progress"@, "done"@],
{
    let r = vec!["draft", "planned", "in-progress", "done"];
    assert(str_refs(r@) =~= seq!["draft"@, "planned"@, "in-progress"@, "done"@]);
    r
}

/// An index rank in which a missing index sorts last.
pub open spec fn last_if_missing(i: Option<u32>) -> int {
    match i {
        Some(x) => x as int,
        None => 0x1_0000_0000,
    }
}

/// The index of the epic with this id, if there is one and it has one.
pub open spec fn epic_index_opt(b: Board, id: Seq<char>) -> Option<u32> {
    match first_index_of(epic_ids(b), id) {
        Some(i) => b.epics@[i].index,
        None => None,
    }
}

/// Voyages by epic index (epics without one last, among them by epic id),
/// then by voyage index (missing last), then by id.
pub open spec fn voyage_rank(b: Board, v: Voyage) -> KeyView {
    let ei = epic_index_opt(b, v.epic_id@);
    (
        last_if_missing(ei),
        if ei is None { v.epic_id@ } else { Seq::empty() },
        last_if_missing(v.index),
        0,
        v.id@,
    )
}

pub open spec fn voyage_ranks(b: Board) -> Seq<KeyView> {
    b.voyages@.map_values(|v: Voyage| voyage_rank(b, v))
}

/// The voyage passes the epic and status filters.
pub open spec fn voyage_listed(v: Voyage, epic: Option<Seq<char>>, statuses: Seq<Seq<char>>) -> bool {
    (epic is None || epic == Some(v.epic_id@)) && statuses.contains(voyage_state_label(v.status))
}

pub open spec fn voyage_list_oks(b: Board, epic: Option<Seq<char>>, statuses: Seq<Seq<char>>) -> Seq<bool> {
    b.voyages@.map_values(|v: Voyage| voyage_listed(v, epic, statuses))
}

fn epic_index_lookup(b: &Board, id: &str) -> (r: Option<u32>)
    ensures
        r == epic_index_opt(*b, id@),
{
    let mut k: usize = 0;
    while k < b.epics.len()
        invariant
            k <= b.epics.len(),
            forall|j: int| 0 <= j < k ==> (#[trigger] b.epics@[j]).id@ != id@,
        decreases b.epics.len() - k,
    {
        if str_eq(b.epics[k].id.as_str(), id) {
            proof {
                lemma_first_at(epic_ids(*b), id@, k as int);
            }
            return b.epics[k].index;
        }
        k = k + 1;
    }
    proof {
        assert forall|j: int| 0 <= j < epic_ids(*b).len() implies epic_ids(*b)[j] != id@ by {
            assert(b.epics@[j].id@ != id@);
        }
        lemma_first_absent(epic_ids(*b), id@);
    }
    None
}

fn rank_of_missing_last(i: Option<u32>) -> (r: i64)
    ensures
        r == last_if_missing(i),
{
    match i {
        Some(x) => x as i64,
        None => 0x1_0000_0000,
    }
}

/// The voyages to list: those of `epic` (if given) whose status is among
/// `statuses`, in listing order.
pub fn collect_voyages<'a>(board: &'a Board, epic: Option<&str>, statuses: &[String]) -> (r: Vec<&'a Voyage>)
    ensures
        voyage_listing(*board, epic_view(epic), str_list(statuses@), r@),
{
    let ghost ef = match epic { Some(e) => Some(e@), None => None::<Seq<char>> };
    let ghost sv = str_list(statuses@);
    let mut keys: Vec<SortKey> = Vec::new();
    let mut oks: Vec<bool> = Vec::new();
    let mut k: usize = 0;
    while k < board.voyages.len()
        invariant
            ef == match epic { Some(e) => Some(e@), None => None::<Seq<char>> },
            sv == str_list(statuses@),
            k <= board.voyages.len(),
            keys@.len() == k,
            oks@.len() == k,
            forall|i: int| 0 <= i < k ==> #[trigger] keys@[i].view() == voyage_rank(*board, board.voyages@[i]),
            forall|i: int| 0 <= i < k ==> #[trigger] oks@[i] == voyage_listed(board.voyages@[i], ef, sv),
        decreases board.voyages.len() - k,
    {
        let v = &board.voyages[k];
        let ei = epic_index_lookup(board, v.epic_id.as_str());
        let pre = match ei {
            Some(_) => String::new(),
            None => v.epic_id.clone(),
        };
        keys.push(SortKey { a: rank_of_missing_last(ei), pre, b: rank_of_missing_last(v.index), c: 0, name: v.id.clone() });
        let epic_ok = match epic {
            Some(e) => str_eq(e, v.epic_id.as_str()),
            None => true,
        };
        let label = v.status.label();
        let mut status_ok = false;
        let mut j: usize = 0;
        while j < statuses.len()
            invariant
                sv == str_list(statuses@),
                j <= statuses.len(),
                status_ok == exists|i: int| 0 <= i < j && sv[i] == label@,
            decreases statuses.len() - j,
        {
            let eq = str_eq(statuses[j].as_str(), label.as_str());
            assert(sv[j as int] == statuses@[j as int]@);
            if eq {
                status_ok = true;
            }
            j = j + 1;
        }
        oks.push(epic_ok && status_ok);
        k = k + 1;
    }
    assert(keys_view(keys@) =~= voyage_ranks(*board));
    assert(oks@ =~= voyage_list_oks(*board, ef, sv));
    let order = sort_eligible(&keys, &oks);
    let ghost ov = order@.map_values(|i: usize| i as int);
    let mut r: Vec<&'a Voyage> = Vec::new();
    let mut p: usize = 0;
    while p < order.len()
        invariant
            ov == order@.map_values(|i: usize| i as int),
            sorted_eligible(voyage_ranks(*board), voyage_list_oks(*board, ef, sv), ov),
            keys@.len() == board.voyages@.len(),
            p <= order.len(),
            r@.len() == p,
            forall|q: int| 0 <= q < p ==> *r@[q] == board.voyages@[#[trigger] ov[q]],
        decreases order.len() - p,
    {
        let i = order[p];
        assert(ov[p as int] == i as int);
        r.push(&board.voyages[i]);
        p = p + 1;
    }
    r
}

/// The statuses a `voyage list` shows for these `--status` values.
pub open spec fn voyage_status_filter(filters: Seq<Seq<char>>) -> Result<Seq<Seq<char>>, Seq<char>> {
    resolve_spec(filters, seq!["draft"@, "planned"@, "in-progress"@], seq!["draft"@, "planned"@, "in-progress"@, "done"@])
}

/// `r` lists the voyages of `epic` (if given) whose status is among
/// `statuses`, in listing order.
pub open spec fn voyage_listing(b: Board, epic: Option<Seq<char>>, statuses: Seq<Seq<char>>, r: Seq<&Voyage>) -> bool {
    exists|order: Seq<int>|
        #[trigger] sorted_eligible(voyage_ranks(b), voyage_list_oks(b, epic, statuses), order)
        && r.len() == order.len()
        && forall|p: int| 0 <= p < order.len() ==> *r[p] == b.voyages@[#[trigger] order[p]]
}

/// The voyages a `voyage list` with these filters shows.
pub fn list_voyages<'a>(board: &'a Board, epic: Option<&str>, status_filters: &[String]) -> (r: Result<Vec<&'a Voyage>, String>)
    ensures
        match r {
            Ok(v) => voyage_status_filter(str_list(status_filters@)) is Ok
                && voyage_listing(*board, epic_view(epic), voyage_status_filter(str_list(status_filters@))->Ok_0, v@),
            Err(m) => voyage_status_filter(str_list(status_filters@)) == Err::<Seq<Seq<char>>, Seq<char>>(m@),
        },
{
    let defaults = default_voyage_statuses();
    let allowed = allowed_voyage_statuses();
    let ds = defaults.as_slice();
    let al = allowed.as_slice();
    assert(str_refs(ds@) == seq!["draft"@, "planned"@, "in-progress"@]);
    assert(str_refs(al@) == seq!["draft"@, "planned"@, "in-progress"@, "done"@]);
    match resolve_status_filter(status_filters, ds, al) {
        Ok(statuses) => {
            let sl = statuses.as_slice();
            assert(sl@ == statuses@);
            Ok(collect_voyages(board, epic, sl))
        },
        Err(m) => Err(m),
    }
}

} // verus!

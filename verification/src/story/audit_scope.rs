//! Evidence audits of a voyage and of an epic: progress, the requirements
//! their stories cover, and the audit of each story in order.

use vstd::prelude::*;
use crate::model::StoryState;
use crate::board::{Board, Story, Voyage, Epic, story_ids, first_index_of};
use crate::order::{SortKey, KeyView, keys_view, sort_eligible, sorted_eligible};
use crate::text::{owned, concat2, concat3, spaces, spaces_str, join_with};
use crate::ansi::{Color, fg, bold, dimmed, fg_spec, bold_spec, dim_spec};
use crate::style::{progress_bar, progress_bar_spec, EvidenceEntry};
use crate::story::show::EvidenceReport;
use crate::story::audit::{audit_story_spec, audit_story_lines, all_reqs, name_keys, first_occurrences,
    flatten_lines, report_for, push_line, append_all, find_in, requirement_groups_spec, render_requirement_groups};
use crate::requirements::lines_view;
use crate::flow_format::str_list;
use crate::flow_state::{count_where, lemma_count_step};
use crate::listing::last_if_missing;
use crate::voyage::start::{in_voyage, story_in_voyage};
use crate::laws::{sorted_order, law_sorted_order};

verus! {

/// Stories in audit order: by index, those without one last, by id.
pub open spec fn story_audit_keys(b: Board) -> Seq<KeyView> {
    b.stories@.map_values(|s: Story| (last_if_missing(s.index), Seq::<char>::empty(), 0int, 0int,
        if s.index is None { s.id@ } else { Seq::<char>::empty() }))
}

/// The stories that belong to voyage `v`.
pub open spec fn voyage_members(b: Board, v: Voyage) -> Seq<bool> {
    b.stories@.map_values(|s: Story| in_voyage(s, v.epic_id@, v.id@))
}

pub open spec fn member_of(v: Voyage) -> spec_fn(Story) -> bool {
    |s: Story| in_voyage(s, v.epic_id@, v.id@)
}

pub open spec fn done_member_of(v: Voyage) -> spec_fn(Story) -> bool {
    |s: Story| in_voyage(s, v.epic_id@, v.id@) && s.stage == StoryState::Done
}

/// The entry traces a story of voyage `v`.
pub open spec fn entry_in_voyage(b: Board, v: Voyage, e: EvidenceEntry) -> bool {
    match first_index_of(story_ids(b), e.story_id@) {
        Some(k) => in_voyage(b.stories@[k], v.epic_id@, v.id@),
        None => false,
    }
}

pub open spec fn entry_req_names(es: Seq<EvidenceEntry>) -> Seq<Seq<char>> {
    es.map_values(|e: EvidenceEntry| e.requirement_id@)
}

/// The entry traces the voyage and is the first such entry for its requirement.
pub open spec fn voyage_req_first(b: Board, v: Voyage, es: Seq<EvidenceEntry>) -> Seq<bool> {
    Seq::new(es.len(), |i: int| entry_in_voyage(b, v, es[i])
        && forall|j: int| 0 <= j < i && entry_in_voyage(b, v, es[j]) ==> #[trigger] es[j].requirement_id@ != es[i].requirement_id@)
}

/// The requirements the voyage's stories cover, sorted, each once.
pub open spec fn voyage_req_ids(b: Board, v: Voyage, es: Seq<EvidenceEntry>) -> Seq<Seq<char>> {
    sorted_order(name_keys(entry_req_names(es)), voyage_req_first(b, v, es)).map_values(|i: int| es[i].requirement_id@)
}

/// Every story of the voyage has an evidence report.
pub open spec fn reports_cover(b: Board, reports: Seq<(String, EvidenceReport)>, pred: spec_fn(Story) -> bool) -> bool {
    forall|k: int| 0 <= k < b.stories@.len() && pred(#[trigger] b.stories@[k]) ==> report_for(reports, b.stories@[k].id@) is Some
}

/// The audit of one story, `lvl` blanks in.
pub open spec fn story_audit(reports: Seq<(String, EvidenceReport)>, reflected: Seq<Seq<char>>, lvl: nat, s: Story) -> Seq<Seq<char>> {
    let r = report_for(reports, s.id@)->0;
    audit_story_spec(spaces(lvl), s, r, reflected.contains(s.id@),
        sorted_order(name_keys(all_reqs(r.items@)), first_occurrences(all_reqs(r.items@))))
}

/// The audit of voyage `v`, `lvl` blanks in: its line with a progress bar
/// of done stories, the requirements its stories cover, and the audit of
/// each of its stories in order.
pub open spec fn audit_voyage_spec(b: Board, v: Voyage, es: Seq<EvidenceEntry>, reports: Seq<(String, EvidenceReport)>,
    reflected: Seq<Seq<char>>, lvl: nat) -> Seq<Seq<char>>
{
    let ind = spaces(lvl);
    let total = count_where(b.stories@, member_of(v));
    let done = count_where(b.stories@, done_member_of(v));
    let progress = if total > 0 { progress_bar_spec(done, total, 15, None) } else { Seq::empty() };
    let reqs = voyage_req_ids(b, v, es);
    seq![ind + bold_spec(fg_spec(Color::Magenta, "Voyage/"@ + v.id@)) + " - "@ + v.title@ + " "@ + progress]
    + (if reqs.len() == 0 {
        seq![ind + "  "@ + dim_spec("No requirements covered in voyage"@)]
    } else {
        seq![ind + "  Requirements: "@ + join_with(reqs, ", "@)]
    })
    + seq![Seq::empty(), ind + "  Bundle Audits:"@]
    + flatten_lines(sorted_order(story_audit_keys(b), voyage_members(b, v)).map_values(|k: int|
        story_audit(reports, reflected, lvl + 4, b.stories@[k])))
}

proof fn lemma_count_mono(s: Seq<Story>, p: spec_fn(Story) -> bool, q: spec_fn(Story) -> bool)
    requires
        forall|x: Story| #[trigger] p(x) ==> q(x),
    ensures
        count_where(s, p) <= count_where(s, q),
        count_where(s, q) <= s.len(),
    decreases s.len(),
{
    if s.len() > 0 {
        lemma_count_mono(s.drop_last(), p, q);
    }
}

proof fn lemma_first_index_none(ids: Seq<Seq<char>>, id: Seq<char>)
    requires
        first_index_of(ids, id) is None,
    ensures
        !ids.contains(id),
    decreases ids.len(),
{
    if ids.len() > 0 {
        lemma_first_index_none(ids.drop_last(), id);
        assert forall|j: int| 0 <= j < ids.len() implies ids[j] != id by {
            if j < ids.len() - 1 {
                assert(ids.drop_last()[j] == ids[j]);
            }
        }
    }
}

/// Done and total stories of the voyage.
fn voyage_progress_counts(b: &Board, v: &Voyage) -> (r: (usize, usize))
    ensures
        r.0 == count_where(b.stories@, done_member_of(*v)),
        r.1 == count_where(b.stories@, member_of(*v)),
{
    let mut done: usize = 0;
    let mut total: usize = 0;
    let mut i: usize = 0;
    while i < b.stories.len()
        invariant
            i <= b.stories.len(),
            done == count_where(b.stories@.take(i as int), done_member_of(*v)),
            total == count_where(b.stories@.take(i as int), member_of(*v)),
        decreases b.stories.len() - i,
    {
        proof {
            lemma_count_step(b.stories@, i as int, done_member_of(*v));
            lemma_count_step(b.stories@, i as int, member_of(*v));
        }
        let s = &b.stories[i];
        if story_in_voyage(s, v.epic_id.as_str(), v.id.as_str()) {
            total = total + 1;
            if matches!(s.stage, StoryState::Done) {
                done = done + 1;
            }
        }
        i = i + 1;
    }
    assert(b.stories@.take(b.stories@.len() as int) =~= b.stories@);
    (done, total)
}

/// The ids of the board's stories.
pub(crate) fn story_id_list(b: &Board) -> (r: Vec<String>)
    ensures
        str_list(r@) == story_ids(*b),
{
    let mut sids: Vec<String> = Vec::new();
    let mut k: usize = 0;
    while k < b.stories.len()
        invariant
            k <= b.stories.len(),
            sids@.len() == k,
            forall|i: int| 0 <= i < k ==> #[trigger] sids@[i]@ == b.stories@[i].id@,
        decreases b.stories.len() - k,
    {
        sids.push(b.stories[k].id.clone());
        k = k + 1;
    }
    assert(str_list(sids@) =~= story_ids(*b));
    sids
}

/// The ids of the reports.
pub(crate) fn report_id_list(reports: &[(String, EvidenceReport)]) -> (r: Vec<String>)
    ensures
        str_list(r@) == reports@.map_values(|p: (String, EvidenceReport)| p.0@),
{
    let mut rids: Vec<String> = Vec::new();
    let mut k: usize = 0;
    while k < reports.len()
        invariant
            k <= reports.len(),
            rids@.len() == k,
            forall|i: int| 0 <= i < k ==> #[trigger] rids@[i]@ == reports@[i].0@,
        decreases reports.len() - k,
    {
        rids.push(reports[k].0.clone());
        k = k + 1;
    }
    assert(str_list(rids@) =~= reports@.map_values(|p: (String, EvidenceReport)| p.0@));
    rids
}

/// The requirements of the voyage's entries, sorted, each once.
fn voyage_requirements(b: &Board, v: &Voyage, entries: &[EvidenceEntry], sids: &Vec<String>) -> (r: Vec<String>)
    requires
        str_list(sids@) == story_ids(*b),
    ensures
        str_list(r@) == voyage_req_ids(*b, *v, entries@),
{
    let ghost es = entries@;
    let mut keys: Vec<SortKey> = Vec::new();
    let mut oks: Vec<bool> = Vec::new();
    let mut ins: Vec<bool> = Vec::new();
    let mut k: usize = 0;
    while k < entries.len()
        invariant
            es == entries@,
            str_list(sids@) == story_ids(*b),
            k <= entries.len(),
            keys@.len() == k,
            oks@.len() == k,
            ins@.len() == k,
            forall|i: int| 0 <= i < k ==> #[trigger] keys@[i].view() == name_keys(entry_req_names(es))[i],
            forall|i: int| 0 <= i < k ==> #[trigger] ins@[i] == entry_in_voyage(*b, *v, es[i]),
            forall|i: int| 0 <= i < k ==> #[trigger] oks@[i] == voyage_req_first(*b, *v, es)[i],
        decreases entries.len() - k,
    {
        let e = &entries[k];
        let inside = match find_in(sids, e.story_id.as_str()) {
            Some(j) => story_in_voyage(&b.stories[j], v.epic_id.as_str(), v.id.as_str()),
            None => false,
        };
        assert(inside == entry_in_voyage(*b, *v, es[k as int]));
        let mut first = inside;
        let mut j: usize = 0;
        while j < k
            invariant
                es == entries@,
                k < entries.len(),
                j <= k,
                *e == es[k as int],
                ins@.len() == k,
                forall|i: int| 0 <= i < k ==> #[trigger] ins@[i] == entry_in_voyage(*b, *v, es[i]),
                first == (entry_in_voyage(*b, *v, es[k as int]) && forall|i: int| 0 <= i < j && entry_in_voyage(*b, *v, es[i])
                    ==> #[trigger] es[i].requirement_id@ != es[k as int].requirement_id@),
            decreases k - j,
        {
            if ins[j] && crate::text::str_eq(entries[j].requirement_id.as_str(), e.requirement_id.as_str()) {
                first = false;
            }
            j = j + 1;
        }
        keys.push(SortKey { a: 0, pre: String::new(), b: 0, c: 0, name: e.requirement_id.clone() });
        oks.push(first);
        ins.push(inside);
        k = k + 1;
    }
    assert(keys_view(keys@) =~= name_keys(entry_req_names(es)));
    assert(oks@ =~= voyage_req_first(*b, *v, es));
    let order = sort_eligible(&keys, &oks);
    let ghost ov = order@.map_values(|i: usize| i as int);
    proof {
        law_sorted_order(name_keys(entry_req_names(es)), voyage_req_first(*b, *v, es), ov);
    }
    let mut r: Vec<String> = Vec::new();
    let mut p: usize = 0;
    while p < order.len()
        invariant
            es == entries@,
            ov == order@.map_values(|i: usize| i as int),
            sorted_eligible(name_keys(entry_req_names(es)), voyage_req_first(*b, *v, es), ov),
            p <= order.len(),
            str_list(r@) == ov.take(p as int).map_values(|i: int| es[i].requirement_id@),
        decreases order.len() - p,
    {
        let i = order[p];
        assert(ov[p as int] == i as int);
        let ghost before = str_list(r@);
        r.push(entries[i].requirement_id.clone());
        assert(str_list(r@) =~= before.push(es[i as int].requirement_id@));
        assert(ov.take(p + 1).map_values(|i: int| es[i].requirement_id@)
            =~= ov.take(p as int).map_values(|i: int| es[i].requirement_id@).push(es[ov[p as int]].requirement_id@));
        p = p + 1;
    }
    assert(ov.take(p as int) =~= ov);
    r
}

/// Joins with `", "`.
fn join_comma(parts: &Vec<String>) -> (r: String)
    ensures
        r@ == join_with(str_list(parts@), ", "@),
{
    let ghost v = str_list(parts@);
    let mut r = String::new();
    let mut i: usize = 0;
    while i < parts.len()
        invariant
            v == str_list(parts@),
            i <= parts.len(),
            r@ == join_with(v.take(i as int), ", "@),
        decreases parts.len() - i,
    {
        assert(v.take(i + 1).drop_last() =~= v.take(i as int));
        if i > 0 {
            r.append(", ");
        } else {
            assert(v.take(1) =~= seq![v[0]]);
        }
        r.append(parts[i].as_str());
        i = i + 1;
    }
    assert(v.take(i as int) =~= v);
    r
}

/// The stories in audit order that satisfy `members`.
fn story_order(b: &Board, members: &Vec<bool>) -> (order: Vec<usize>)
    requires
        members@.len() == b.stories@.len(),
    ensures
        sorted_eligible(story_audit_keys(*b), members@, order@.map_values(|i: usize| i as int)),
{
    let mut keys: Vec<SortKey> = Vec::new();
    let mut k: usize = 0;
    while k < b.stories.len()
        invariant
            k <= b.stories.len(),
            keys@.len() == k,
            forall|i: int| 0 <= i < k ==> #[trigger] keys@[i].view() == story_audit_keys(*b)[i],
        decreases b.stories.len() - k,
    {
        let s = &b.stories[k];
        let (a, name) = match s.index {
            Some(i) => (i as i64, String::new()),
            None => (0x1_0000_0000i64, s.id.clone()),
        };
        keys.push(SortKey { a, pre: String::new(), b: 0, c: 0, name });
        k = k + 1;
    }
    assert(keys_view(keys@) =~= story_audit_keys(*b));
    sort_eligible(&keys, members)
}

/// The audit lines of one story with its report and reflection state.
fn story_audit_exec(reports: &[(String, EvidenceReport)], rids: &Vec<String>, reflected: &Vec<String>, lvl: usize, s: &Story)
    -> (r: Vec<String>)
    requires
        str_list(rids@) == reports@.map_values(|p: (String, EvidenceReport)| p.0@),
        report_for(reports@, s.id@) is Some,
    ensures
        lines_view(r@) == story_audit(reports@, str_list(reflected@), lvl as nat, *s),
{
    let j = match find_in(rids, s.id.as_str()) {
        Some(j) => j,
        None => {
            assert(false);
            return Vec::new();
        },
    };
    let report = &reports[j].1;
    let refl = match find_in(reflected, s.id.as_str()) {
        Some(_) => true,
        None => false,
    };
    proof {
        let rv = str_list(reflected@);
        crate::board::lemma_first_index_of_found(rv, s.id@);
        if !refl {
            lemma_first_index_none(rv, s.id@);
        }
    }
    let lines = audit_story_lines(s, report, lvl, refl);
    proof {
        let items = report.items@;
        let o = choose|o: Seq<int>| sorted_eligible(name_keys(all_reqs(items)), first_occurrences(all_reqs(items)), o)
            && lines_view(lines@) == audit_story_spec(spaces(lvl as nat), *s, *report, refl, o);
        law_sorted_order(name_keys(all_reqs(items)), first_occurrences(all_reqs(items)), o);
    }
    lines
}

/// The audit lines of voyage `voyage`, indented by `indent_level` blanks.
/// `entries` holds the evidence entries of the board's stories, `reports`
/// the evidence report of each story (every story of the voyage has one),
/// `reflected` the stories whose reflection records knowledge.
pub fn audit_voyage_lines(board: &Board, voyage: &Voyage, entries: &[EvidenceEntry], reports: &[(String, EvidenceReport)],
    reflected: &Vec<String>, indent_level: usize) -> (r: Vec<String>)
    requires
        board.stories@.len() <= usize::MAX / 20,
        indent_level <= usize::MAX - 4,
        reports_cover(*board, reports@, member_of(*voyage)),
    ensures
        lines_view(r@) == audit_voyage_spec(*board, *voyage, entries@, reports@, str_list(reflected@), indent_level as nat),
{
    let ind = spaces_str(indent_level);
    let (done, total) = voyage_progress_counts(board, voyage);
    proof {
        lemma_count_mono(board.stories@, done_member_of(*voyage), member_of(*voyage));
        if total > 0 {
            assert(done * 15 <= usize::MAX) by (nonlinear_arith)
                requires done <= board.stories@.len(), board.stories@.len() <= usize::MAX / 20;
            assert(done * 15 / (total as int) <= 15) by (nonlinear_arith)
                requires done <= total, total > 0;
        }
    }
    let progress = if total > 0 { progress_bar(done, total, 15, None) } else { String::new() };
    let vid = concat2("Voyage/", voyage.id.as_str());
    let vc = fg(vid.as_str(), Color::Magenta);
    let vb = bold(vc.as_str());
    let mut head = concat3(ind.as_str(), vb.as_str(), " - ");
    head.append(voyage.title.as_str());
    head.append(" ");
    head.append(progress.as_str());
    let mut out: Vec<String> = Vec::new();
    push_line(&mut out, head);
    let sids = story_id_list(board);
    let reqs = voyage_requirements(board, voyage, entries, &sids);
    if reqs.len() == 0 {
        let d = dimmed("No requirements covered in voyage");
        push_line(&mut out, concat3(ind.as_str(), "  ", d.as_str()));
    } else {
        let joined = join_comma(&reqs);
        push_line(&mut out, concat3(ind.as_str(), "  Requirements: ", joined.as_str()));
    }
    push_line(&mut out, String::new());
    push_line(&mut out, concat2(ind.as_str(), "  Bundle Audits:"));
    let ghost head_lines = lines_view(out@);
    let mut members: Vec<bool> = Vec::new();
    let mut k: usize = 0;
    while k < board.stories.len()
        invariant
            k <= board.stories.len(),
            members@.len() == k,
            forall|i: int| 0 <= i < k ==> #[trigger] members@[i] == voyage_members(*board, *voyage)[i],
        decreases board.stories.len() - k,
    {
        members.push(story_in_voyage(&board.stories[k], voyage.epic_id.as_str(), voyage.id.as_str()));
        k = k + 1;
    }
    assert(members@ =~= voyage_members(*board, *voyage));
    let order = story_order(board, &members);
    let ghost ov = order@.map_values(|i: usize| i as int);
    proof {
        law_sorted_order(story_audit_keys(*board), voyage_members(*board, *voyage), ov);
    }
    let rids = report_id_list(reports);
    let ghost parts = ov.map_values(|k: int| story_audit(reports@, str_list(reflected@), (indent_level + 4) as nat, board.stories@[k]));
    let mut p: usize = 0;
    while p < order.len()
        invariant
            ov == order@.map_values(|i: usize| i as int),
            sorted_eligible(story_audit_keys(*board), voyage_members(*board, *voyage), ov),
            str_list(rids@) == reports@.map_values(|p: (String, EvidenceReport)| p.0@),
            reports_cover(*board, reports@, member_of(*voyage)),
            indent_level <= usize::MAX - 4,
            parts == ov.map_values(|k: int| story_audit(reports@, str_list(reflected@), (indent_level + 4) as nat, board.stories@[k])),
            p <= order.len(),
            lines_view(out@) == head_lines + flatten_lines(parts.take(p as int)),
        decreases order.len() - p,
    {
        let i = order[p];
        assert(ov[p as int] == i as int);
        assert(voyage_members(*board, *voyage)[i as int]);
        assert(member_of(*voyage)(board.stories@[i as int]));
        let lines = story_audit_exec(reports, &rids, reflected, indent_level + 4, &board.stories[i]);
        append_all(&mut out, &lines);
        assert(parts.take(p + 1).drop_last() =~= parts.take(p as int));
        p = p + 1;
    }
    assert(parts.take(p as int) =~= parts);
    out
}

// ---------------------------------------------------------------------
// Epic audit
// ---------------------------------------------------------------------

/// The voyages of epic `e` (those in its directory).
pub open spec fn epic_voyages(b: Board, e: Epic) -> Seq<bool> {
    b.voyages@.map_values(|v: Voyage| v.epic_id@ == e.id@)
}

/// Voyages in audit order: by index, those without one last, by id.
pub open spec fn voyage_audit_keys(b: Board) -> Seq<KeyView> {
    b.voyages@.map_values(|v: Voyage| (last_if_missing(v.index), Seq::<char>::empty(), 0int, 0int,
        if v.index is None { v.id@ } else { Seq::<char>::empty() }))
}

/// The story belongs to one of the epic's voyages.
pub open spec fn in_epic_voyages(b: Board, e: Epic, s: Story) -> bool {
    exists|k: int| #![trigger b.voyages@[k]] 0 <= k < b.voyages@.len() && b.voyages@[k].epic_id@ == e.id@
        && in_voyage(s, b.voyages@[k].epic_id@, b.voyages@[k].id@)
}

pub open spec fn epic_member(b: Board, e: Epic) -> spec_fn(Story) -> bool {
    |s: Story| in_epic_voyages(b, e, s)
}

pub open spec fn epic_done_member(b: Board, e: Epic) -> spec_fn(Story) -> bool {
    |s: Story| in_epic_voyages(b, e, s) && s.stage == StoryState::Done
}

/// The entry traces a story of one of the epic's voyages.
pub open spec fn entry_in_epic(b: Board, e: Epic, x: EvidenceEntry) -> bool {
    match first_index_of(story_ids(b), x.story_id@) {
        Some(k) => in_epic_voyages(b, e, b.stories@[k]),
        None => false,
    }
}

/// The entries tracing the epic's stories, in order.
pub open spec fn epic_entries(b: Board, e: Epic, es: Seq<EvidenceEntry>) -> Seq<EvidenceEntry>
    decreases es.len(),
{
    if es.len() == 0 {
        Seq::empty()
    } else {
        let rest = epic_entries(b, e, es.drop_last());
        if entry_in_epic(b, e, es.last()) { rest.push(es.last()) } else { rest }
    }
}

/// The audit of epic `e`: its line with a progress bar of done stories,
/// the evidence chains of its stories grouped by requirement, and the
/// audit of each of its voyages in order.
pub open spec fn audit_epic_spec(b: Board, e: Epic, es: Seq<EvidenceEntry>, reports: Seq<(String, EvidenceReport)>,
    reflected: Seq<Seq<char>>) -> Seq<Seq<char>>
{
    let total = count_where(b.stories@, epic_member(b, e));
    let done = count_where(b.stories@, epic_done_member(b, e));
    let progress = if total > 0 { progress_bar_spec(done, total, 20, None) } else { Seq::empty() };
    let chain = epic_entries(b, e, es);
    seq![bold_spec(fg_spec(Color::Cyan, "Epic/"@ + e.id@)) + " - "@ + fg_spec(Color::Cyan, e.title@) + " "@ + progress]
    + (if chain.len() > 0 {
        seq!["  Epic Evidence Chains:"@] + requirement_groups_spec(b, chain, reports, spaces(4)) + seq![Seq::<char>::empty()]
    } else {
        Seq::empty()
    })
    + flatten_lines(sorted_order(voyage_audit_keys(b), epic_voyages(b, e)).map_values(|k: int|
        audit_voyage_spec(b, b.voyages@[k], es, reports, reflected, 2)))
}

fn story_in_epic(b: &Board, e: &Epic, s: &Story) -> (r: bool)
    ensures
        r == in_epic_voyages(*b, *e, *s),
{
    let mut k: usize = 0;
    while k < b.voyages.len()
        invariant
            k <= b.voyages.len(),
            forall|j: int| 0 <= j < k ==> !(#[trigger] b.voyages@[j].epic_id@ == e.id@
                && in_voyage(*s, b.voyages@[j].epic_id@, b.voyages@[j].id@)),
        decreases b.voyages.len() - k,
    {
        let v = &b.voyages[k];
        if crate::text::str_eq(v.epic_id.as_str(), e.id.as_str()) && story_in_voyage(s, v.epic_id.as_str(), v.id.as_str()) {
            return true;
        }
        k = k + 1;
    }
    false
}

/// Done and total stories of the epic.
fn epic_progress_counts(b: &Board, e: &Epic) -> (r: (usize, usize))
    ensures
        r.0 == count_where(b.stories@, epic_done_member(*b, *e)),
        r.1 == count_where(b.stories@, epic_member(*b, *e)),
{
    let mut done: usize = 0;
    let mut total: usize = 0;
    let mut i: usize = 0;
    while i < b.stories.len()
        invariant
            i <= b.stories.len(),
            done == count_where(b.stories@.take(i as int), epic_done_member(*b, *e)),
            total == count_where(b.stories@.take(i as int), epic_member(*b, *e)),
        decreases b.stories.len() - i,
    {
        proof {
            lemma_count_step(b.stories@, i as int, epic_done_member(*b, *e));
            lemma_count_step(b.stories@, i as int, epic_member(*b, *e));
        }
        let s = &b.stories[i];
        if story_in_epic(b, e, s) {
            total = total + 1;
            if matches!(s.stage, StoryState::Done) {
                done = done + 1;
            }
        }
        i = i + 1;
    }
    assert(b.stories@.take(b.stories@.len() as int) =~= b.stories@);
    (done, total)
}

fn copy_entry(x: &EvidenceEntry) -> (r: EvidenceEntry)
    ensures
        r == *x,
{
    EvidenceEntry {
        requirement_id: x.requirement_id.clone(),
        story_id: x.story_id.clone(),
        story_title: x.story_title.clone(),
        criterion: x.criterion.clone(),
        phase: x.phase.clone(),
        proof: match &x.proof { Some(p) => Some(p.clone()), None => None },
    }
}

fn epic_entries_exec(b: &Board, e: &Epic, entries: &[EvidenceEntry], sids: &Vec<String>) -> (r: Vec<EvidenceEntry>)
    requires
        str_list(sids@) == story_ids(*b),
    ensures
        r@ == epic_entries(*b, *e, entries@),
{
    let mut r: Vec<EvidenceEntry> = Vec::new();
    let mut i: usize = 0;
    while i < entries.len()
        invariant
            str_list(sids@) == story_ids(*b),
            i <= entries.len(),
            r@ == epic_entries(*b, *e, entries@.take(i as int)),
        decreases entries.len() - i,
    {
        assert(entries@.take(i + 1).drop_last() =~= entries@.take(i as int));
        let x = &entries[i];
        let inside = match find_in(sids, x.story_id.as_str()) {
            Some(j) => story_in_epic(b, e, &b.stories[j]),
            None => false,
        };
        if inside {
            r.push(copy_entry(x));
        }
        i = i + 1;
    }
    assert(entries@.take(i as int) =~= entries@);
    r
}

/// The voyages in audit order that satisfy `members`.
fn voyage_order(b: &Board, members: &Vec<bool>) -> (order: Vec<usize>)
    requires
        members@.len() == b.voyages@.len(),
    ensures
        sorted_eligible(voyage_audit_keys(*b), members@, order@.map_values(|i: usize| i as int)),
{
    let mut keys: Vec<SortKey> = Vec::new();
    let mut k: usize = 0;
    while k < b.voyages.len()
        invariant
            k <= b.voyages.len(),
            keys@.len() == k,
            forall|i: int| 0 <= i < k ==> #[trigger] keys@[i].view() == voyage_audit_keys(*b)[i],
        decreases b.voyages.len() - k,
    {
        let v = &b.voyages[k];
        let (a, name) = match v.index {
            Some(i) => (i as i64, String::new()),
            None => (0x1_0000_0000i64, v.id.clone()),
        };
        keys.push(SortKey { a, pre: String::new(), b: 0, c: 0, name });
        k = k + 1;
    }
    assert(keys_view(keys@) =~= voyage_audit_keys(*b));
    sort_eligible(&keys, members)
}

/// The audit lines of epic `epic`. `entries` holds the evidence entries
/// of the board's stories, `reports` the evidence report of each story
/// (every story of the epic's voyages has one), `reflected` the stories
/// whose reflection records knowledge.
pub fn audit_epic_lines(board: &Board, epic: &Epic, entries: &[EvidenceEntry], reports: &[(String, EvidenceReport)],
    reflected: &Vec<String>) -> (r: Vec<String>)
    requires
        board.stories@.len() <= usize::MAX / 20,
        reports_cover(*board, reports@, epic_member(*board, *epic)),
    ensures
        lines_view(r@) == audit_epic_spec(*board, *epic, entries@, reports@, str_list(reflected@)),
{
    let (done, total) = epic_progress_counts(board, epic);
    proof {
        lemma_count_mono(board.stories@, epic_done_member(*board, *epic), epic_member(*board, *epic));
        if total > 0 {
            assert(done * 20 <= usize::MAX) by (nonlinear_arith)
                requires done <= board.stories@.len(), board.stories@.len() <= usize::MAX / 20;
            assert(done * 20 / (total as int) <= 20) by (nonlinear_arith)
                requires done <= total, total > 0;
        }
    }
    let progress = if total > 0 { progress_bar(done, total, 20, None) } else { String::new() };
    let eid = concat2("Epic/", epic.id.as_str());
    let ec = fg(eid.as_str(), Color::Cyan);
    let eb = bold(ec.as_str());
    let tc = fg(epic.title.as_str(), Color::Cyan);
    let mut head = concat3(eb.as_str(), " - ", tc.as_str());
    head.append(" ");
    head.append(progress.as_str());
    let mut out: Vec<String> = Vec::new();
    push_line(&mut out, head);
    let sids = story_id_list(board);
    let chain = epic_entries_exec(board, epic, entries, &sids);
    if chain.len() > 0 {
        push_line(&mut out, owned("  Epic Evidence Chains:"));
        let groups = render_requirement_groups(board, chain.as_slice(), reports, 4);
        append_all(&mut out, &groups);
        push_line(&mut out, String::new());
    }
    let ghost head_lines = lines_view(out@);
    let mut members: Vec<bool> = Vec::new();
    let mut k: usize = 0;
    while k < board.voyages.len()
        invariant
            k <= board.voyages.len(),
            members@.len() == k,
            forall|i: int| 0 <= i < k ==> #[trigger] members@[i] == epic_voyages(*board, *epic)[i],
        decreases board.voyages.len() - k,
    {
        members.push(crate::text::str_eq(board.voyages[k].epic_id.as_str(), epic.id.as_str()));
        k = k + 1;
    }
    assert(members@ =~= epic_voyages(*board, *epic));
    let order = voyage_order(board, &members);
    let ghost ov = order@.map_values(|i: usize| i as int);
    proof {
        law_sorted_order(voyage_audit_keys(*board), epic_voyages(*board, *epic), ov);
    }
    let ghost parts = ov.map_values(|k: int| audit_voyage_spec(*board, board.voyages@[k], entries@, reports@, str_list(reflected@), 2));
    let mut p: usize = 0;
    while p < order.len()
        invariant
            ov == order@.map_values(|i: usize| i as int),
            sorted_eligible(voyage_audit_keys(*board), epic_voyages(*board, *epic), ov),
            board.stories@.len() <= usize::MAX / 20,
            reports_cover(*board, reports@, epic_member(*board, *epic)),
            parts == ov.map_values(|k: int| audit_voyage_spec(*board, board.voyages@[k], entries@, reports@, str_list(reflected@), 2)),
            p <= order.len(),
            lines_view(out@) == head_lines + flatten_lines(parts.take(p as int)),
        decreases order.len() - p,
    {
        let i = order[p];
        assert(ov[p as int] == i as int);
        assert(epic_voyages(*board, *epic)[i as int]);
        let v = &board.voyages[i];
        assert forall|k: int| 0 <= k < board.stories@.len() && #[trigger] member_of(*v)(board.stories@[k])
            implies report_for(reports@, board.stories@[k].id@) is Some by {
            assert(epic_member(*board, *epic)(board.stories@[k]));
        }
        let lines = audit_voyage_lines(board, v, entries, reports, reflected, 2);
        append_all(&mut out, &lines);
        assert(parts.take(p + 1).drop_last() =~= parts.take(p as int));
        p = p + 1;
    }
    assert(parts.take(p as int) =~= parts);
    out
}

} // verus!

//! `story audit`: which entity an audit covers, and the evidence and
//! traceability lines of a story, a voyage, an epic and a requirement.

use vstd::prelude::*;
use crate::model::StoryState;
use crate::board::{Board, Story, Voyage, Epic, story_ids, voyage_ids, epic_ids, first_index_of};
use crate::order::{SortKey, KeyView, keys_view, sort_eligible, sorted_eligible};
use crate::text::{str_eq, owned, concat2, concat3, spaces, spaces_str, decimal, usize_to_string};
use crate::ansi::{Color, fg, bold, dimmed, fg_spec, bold_spec, dim_spec};
use crate::style::{styled_stage, styled_stage_spec, styled_inline_markdown, inline_markdown_spec,
    styled_story_id, styled_story_id_spec, EvidenceEntry};
use crate::story::show::{EvidenceItem, EvidenceReport};
use crate::requirements::lines_view;
use crate::flow_format::{str_list, all_true, lemma_first_at, lemma_first_absent};
use crate::listing::last_if_missing;
use crate::verification_guidance::{audit_error_with_recovery, audit_recovery_spec};
use crate::guidance::error_with_guidance_spec;
use crate::laws::{sorted_order, law_sorted_order};

verus! {

// ---------------------------------------------------------------------
// What to audit
// ---------------------------------------------------------------------

/// What an audit covers.
#[derive(Debug)]
pub enum AuditTarget {
    /// The story at this position.
    Story(usize),
    /// The voyage at this position.
    Voyage(usize),
    /// The epic at this position.
    Epic(usize),
    /// The whole board: its epics in this order.
    Board(Vec<usize>),
    /// Nothing has the id; the message says so.
    NotFound(String),
}

/// Epics by index (those without one last, among them by id).
pub open spec fn epic_audit_key(e: Epic) -> KeyView {
    (last_if_missing(e.index), Seq::empty(), 0, 0, if e.index is None { e.id@ } else { Seq::empty() })
}

pub open spec fn epic_audit_keys(b: Board) -> Seq<KeyView> {
    b.epics@.map_values(|e: Epic| epic_audit_key(e))
}

/// What an audit of `id` covers: a story with that id, else a voyage,
/// else an epic; the whole board when no id is given.
pub open spec fn audit_target_spec(b: Board, id: Option<Seq<char>>, t: AuditTarget) -> bool {
    match id {
        None => t matches AuditTarget::Board(order)
            && sorted_eligible(epic_audit_keys(b), all_true(b.epics@.len()), order@.map_values(|i: usize| i as int)),
        Some(x) => match first_index_of(story_ids(b), x) {
            Some(i) => t == AuditTarget::Story(i as usize),
            None => match first_index_of(voyage_ids(b), x) {
                Some(i) => t == AuditTarget::Voyage(i as usize),
                None => match first_index_of(epic_ids(b), x) {
                    Some(i) => t == AuditTarget::Epic(i as usize),
                    None => t matches AuditTarget::NotFound(m) && m@ == "Entity not found: "@ + x,
                },
            },
        },
    }
}

pub(crate) fn find_in(ids: &Vec<String>, id: &str) -> (r: Option<usize>)
    ensures
        match r {
            Some(i) => Some(i as int),
            None => None::<int>,
        } == first_index_of(str_list(ids@), id@),
        r matches Some(i) ==> i < ids@.len(),
{
    let mut k: usize = 0;
    while k < ids.len()
        invariant
            k <= ids.len(),
            forall|j: int| 0 <= j < k ==> (#[trigger] ids@[j])@ != id@,
        decreases ids.len() - k,
    {
        if str_eq(ids[k].as_str(), id) {
            proof {
                lemma_first_at(str_list(ids@), id@, k as int);
            }
            return Some(k);
        }
        k = k + 1;
    }
    proof {
        lemma_first_absent(str_list(ids@), id@);
    }
    None
}

/// Decides what an audit covers.
pub fn resolve_audit_target(board: &Board, id: Option<&str>) -> (t: AuditTarget)
    ensures
        audit_target_spec(*board, match id { Some(x) => Some(x@), None => None }, t),
{
    match id {
        Some(x) => {
            let mut sids: Vec<String> = Vec::new();
            let mut k: usize = 0;
            while k < board.stories.len()
                invariant
                    k <= board.stories.len(),
                    sids@.len() == k,
                    forall|i: int| 0 <= i < k ==> #[trigger] sids@[i]@ == board.stories@[i].id@,
                decreases board.stories.len() - k,
            {
                sids.push(board.stories[k].id.clone());
                k = k + 1;
            }
            assert(str_list(sids@) =~= story_ids(*board));
            if let Some(i) = find_in(&sids, x) {
                return AuditTarget::Story(i);
            }
            let mut vids: Vec<String> = Vec::new();
            let mut k: usize = 0;
            while k < board.voyages.len()
                invariant
                    k <= board.voyages.len(),
                    vids@.len() == k,
                    forall|i: int| 0 <= i < k ==> #[trigger] vids@[i]@ == board.voyages@[i].id@,
                decreases board.voyages.len() - k,
            {
                vids.push(board.voyages[k].id.clone());
                k = k + 1;
            }
            assert(str_list(vids@) =~= voyage_ids(*board));
            if let Some(i) = find_in(&vids, x) {
                return AuditTarget::Voyage(i);
            }
            let mut eids: Vec<String> = Vec::new();
            let mut k: usize = 0;
            while k < board.epics.len()
                invariant
                    k <= board.epics.len(),
                    eids@.len() == k,
                    forall|i: int| 0 <= i < k ==> #[trigger] eids@[i]@ == board.epics@[i].id@,
                decreases board.epics.len() - k,
            {
                eids.push(board.epics[k].id.clone());
                k = k + 1;
            }
            assert(str_list(eids@) =~= epic_ids(*board));
            if let Some(i) = find_in(&eids, x) {
                return AuditTarget::Epic(i);
            }
            AuditTarget::NotFound(concat2("Entity not found: ", x))
        },
        None => {
            let mut keys: Vec<SortKey> = Vec::new();
            let mut oks: Vec<bool> = Vec::new();
            let mut k: usize = 0;
            while k < board.epics.len()
                invariant
                    k <= board.epics.len(),
                    keys@.len() == k,
                    oks@.len() == k,
                    forall|i: int| 0 <= i < k ==> #[trigger] keys@[i].view() == epic_audit_key(board.epics@[i]),
                    forall|i: int| 0 <= i < k ==> #[trigger] oks@[i],
                decreases board.epics.len() - k,
            {
                let e = &board.epics[k];
                let (a, name) = match e.index {
                    Some(i) => (i as i64, String::new()),
                    None => (0x1_0000_0000i64, e.id.clone()),
                };
                keys.push(SortKey { a, pre: String::new(), b: 0, c: 0, name });
                oks.push(true);
                k = k + 1;
            }
            assert(keys_view(keys@) =~= epic_audit_keys(*board));
            assert(oks@ =~= all_true(board.epics@.len()));
            AuditTarget::Board(sort_eligible(&keys, &oks))
        },
    }
}

/// The outcome of `story audit`: what the audit covers, or, when no entity
/// has the id, the not-found message followed by its recovery step.
pub fn run(board: &Board, id: Option<&str>) -> (r: Result<AuditTarget, String>)
    ensures
        match r {
            Ok(t) => audit_target_spec(*board, match id { Some(x) => Some(x@), None => None }, t)
                && !(t is NotFound),
            Err(m) => id is Some
                && first_index_of(story_ids(*board), id->0@) is None
                && first_index_of(voyage_ids(*board), id->0@) is None
                && first_index_of(epic_ids(*board), id->0@) is None
                && m@ == error_with_guidance_spec("Entity not found: "@ + id->0@,
                    Some((None::<Seq<char>>, Some(audit_recovery_spec(Some(id->0@), "Entity not found: "@ + id->0@))))),
        },
{
    let t = resolve_audit_target(board, id);
    match t {
        AuditTarget::NotFound(message) => {
            Err(audit_error_with_recovery(id, message.as_str()))
        },
        _ => Ok(t),
    }
}

// ---------------------------------------------------------------------
// Story audit
// ---------------------------------------------------------------------

/// The lines of one evidence item in an audit, under `ind`.
pub open spec fn audit_item_lines(ind: Seq<char>, it: EvidenceItem) -> Seq<Seq<char>> {
    let label = match it.ac_label { Some(l) => l@, None => "AC-??"@ };
    seq![ind + "    "@ + fg_spec(Color::Cyan, label) + ": "@ + inline_markdown_spec(it.criterion@),
        ind + "      Mode: "@ + inline_markdown_spec(it.mode@)]
    + match it.proof_filename {
        Some(p) => seq![ind + "      Proof: "@ + inline_markdown_spec(p@)]
            + match it.proof_metadata.recorded_at {
                Some(x) => seq![ind + "        recorded_at: "@ + inline_markdown_spec(x@)],
                None => Seq::empty(),
            }
            + match it.proof_metadata.command {
                Some(x) => seq![ind + "        proof command: "@ + inline_markdown_spec(x@)],
                None => Seq::empty(),
            }
            + (if it.excerpt_lines@.len() > 0 {
                seq![ind + "        Excerpt ("@ + decimal(it.excerpt_lines@.len()) + " lines):"@]
                    + it.excerpt_lines@.map_values(|l: String| ind + "          "@ + inline_markdown_spec(l@))
            } else {
                Seq::empty()
            })
            + (if it.missing_proof {
                seq![ind + "        "@ + fg_spec(Color::Yellow, "Warning:"@) + " linked proof file is missing"@]
            } else {
                Seq::empty()
            }),
        None => seq![ind + "      Proof: (none linked)"@],
    }
}

/// How many times `req` is among the item's requirements.
pub open spec fn req_count(reqs: Seq<String>, req: Seq<char>) -> nat
    decreases reqs.len(),
{
    if reqs.len() == 0 {
        0
    } else {
        req_count(reqs.drop_last(), req) + if reqs.last()@ == req { 1nat } else { 0nat }
    }
}

/// The item's lines, once for each time it names `req`.
pub open spec fn repeated(lines: Seq<Seq<char>>, n: nat) -> Seq<Seq<char>>
    decreases n,
{
    if n == 0 { Seq::empty() } else { repeated(lines, (n - 1) as nat) + lines }
}

/// The items under one requirement, in item order.
pub open spec fn req_items_lines(ind: Seq<char>, items: Seq<EvidenceItem>, req: Seq<char>) -> Seq<Seq<char>>
    decreases items.len(),
{
    if items.len() == 0 {
        Seq::empty()
    } else {
        req_items_lines(ind, items.drop_last(), req)
            + repeated(audit_item_lines(ind, items.last()), req_count(items.last().requirements@, req))
    }
}

/// Every requirement named by the items, each position tagged with the
/// requirement it names, in item order.
pub open spec fn all_reqs(items: Seq<EvidenceItem>) -> Seq<Seq<char>>
    decreases items.len(),
{
    if items.len() == 0 {
        Seq::empty()
    } else {
        all_reqs(items.drop_last()) + str_list(items.last().requirements@)
    }
}

/// The position is the first to name its value.
pub open spec fn first_occurrences(s: Seq<Seq<char>>) -> Seq<bool> {
    Seq::new(s.len(), |i: int| forall|j: int| 0 <= j < i ==> #[trigger] s[j] != s[i])
}

pub open spec fn name_keys(s: Seq<Seq<char>>) -> Seq<KeyView> {
    s.map_values(|x: Seq<char>| (0int, Seq::<char>::empty(), 0int, 0int, x))
}

/// The evidence body of a story audit: per requirement (sorted), its
/// items; or the placeholder when there are no items.
pub open spec fn audit_body(ind: Seq<char>, items: Seq<EvidenceItem>, order: Seq<int>) -> Seq<Seq<char>> {
    if items.len() == 0 {
        seq![ind + "  "@ + dim_spec("(no verify annotations found)"@)]
    } else {
        crate::story::audit::flatten_lines(order.map_values(|i: int|
            seq![ind + "  Requirement: "@ + fg_spec(Color::Cyan, all_reqs(items)[i])]
                + req_items_lines(ind, items, all_reqs(items)[i])))
    }
}

/// Lists of lines one after another.
pub open spec fn flatten_lines(parts: Seq<Seq<Seq<char>>>) -> Seq<Seq<char>>
    decreases parts.len(),
{
    if parts.len() == 0 { Seq::empty() } else { flatten_lines(parts.drop_last()) + parts.last() }
}

/// The full audit of one story.
pub open spec fn audit_story_spec(ind: Seq<char>, s: Story, r: EvidenceReport, reflection: bool, order: Seq<int>) -> Seq<Seq<char>> {
    let mark = if s.stage == StoryState::Done { bold_spec(fg_spec(Color::Green, "✓ "@)) } else { Seq::empty() };
    seq![ind + mark + bold_spec(fg_spec(Color::BrightBlue, "Story/"@ + s.id@)) + " - "@ + s.title@ + " ("@
        + styled_stage_spec(s.stage) + ")"@]
    + audit_body(ind, r.items@, order)
    + (if r.evidence_dir_missing { seq![ind + "  "@ + dim_spec("(EVIDENCE directory not found)"@)] } else { Seq::empty() })
    + (if r.supplementary_artifacts@.len() > 0 {
        seq![ind + "  Supplementary artifacts:"@]
            + r.supplementary_artifacts@.map_values(|a: String| ind + "    - "@ + inline_markdown_spec(a@))
    } else {
        Seq::empty()
    })
    + (if r.media_artifacts@.len() > 0 {
        seq![ind + "  Media artifacts:"@]
            + r.media_artifacts@.map_values(|a: String| ind + "    - "@ + inline_markdown_spec(a@))
    } else {
        Seq::empty()
    })
    + (if reflection { seq![ind + "  "@ + fg_spec(Color::Green, "✓ Reflection recorded"@)] } else { Seq::empty() })
}

pub(crate) fn push_line(out: &mut Vec<String>, line: String)
    ensures
        lines_view(final(out)@) == lines_view(old(out)@).push(line@),
{
    let ghost before = lines_view(out@);
    out.push(line);
    assert(lines_view(out@) =~= before.push(line@));
}

fn push_md_lines(out: &mut Vec<String>, prefix: &str, items: &Vec<String>)
    ensures
        lines_view(final(out)@) == lines_view(old(out)@) + items@.map_values(|a: String| prefix@ + inline_markdown_spec(a@)),
{
    let ghost start = lines_view(out@);
    let mut k: usize = 0;
    while k < items.len()
        invariant
            k <= items.len(),
            lines_view(out@) == start + items@.take(k as int).map_values(|a: String| prefix@ + inline_markdown_spec(a@)),
        decreases items.len() - k,
    {
        let md = styled_inline_markdown(items[k].as_str());
        push_line(out, concat2(prefix, md.as_str()));
        assert(items@.take(k + 1).map_values(|a: String| prefix@ + inline_markdown_spec(a@))
            =~= items@.take(k as int).map_values(|a: String| prefix@ + inline_markdown_spec(a@))
                .push(prefix@ + inline_markdown_spec(items@[k as int]@)));
        k = k + 1;
    }
    assert(items@.take(k as int) =~= items@);
}

pub(crate) fn append_all(out: &mut Vec<String>, more: &Vec<String>)
    ensures
        lines_view(final(out)@) == lines_view(old(out)@) + lines_view(more@),
{
    let ghost start = lines_view(out@);
    let mut k: usize = 0;
    while k < more.len()
        invariant
            k <= more.len(),
            lines_view(out@) == start + lines_view(more@).take(k as int),
        decreases more.len() - k,
    {
        push_line(out, more[k].clone());
        assert(lines_view(more@).take(k + 1) =~= lines_view(more@).take(k as int).push(more@[k as int]@));
        k = k + 1;
    }
    assert(lines_view(more@).take(k as int) =~= lines_view(more@));
}

fn audit_item_lines_exec(ind: &str, it: &EvidenceItem) -> (r: Vec<String>)
    ensures
        lines_view(r@) == audit_item_lines(ind@, *it),
{
    let mut out: Vec<String> = Vec::new();
    let label = match &it.ac_label {
        Some(l) => l.clone(),
        None => owned("AC-??"),
    };
    let cl = fg(label.as_str(), Color::Cyan);
    let crit = styled_inline_markdown(it.criterion.as_str());
    let mut first = concat3(ind, "    ", cl.as_str());
    first.append(": ");
    first.append(crit.as_str());
    push_line(&mut out, first);
    let mode = styled_inline_markdown(it.mode.as_str());
    push_line(&mut out, concat3(ind, "      Mode: ", mode.as_str()));
    let ghost head = lines_view(out@);
    match &it.proof_filename {
        Some(p) => {
            let md = styled_inline_markdown(p.as_str());
            push_line(&mut out, concat3(ind, "      Proof: ", md.as_str()));
            let ghost g1 = lines_view(out@);
            match &it.proof_metadata.recorded_at {
                Some(x) => {
                    let md = styled_inline_markdown(x.as_str());
                    push_line(&mut out, concat3(ind, "        recorded_at: ", md.as_str()));
                },
                None => {},
            }
            match &it.proof_metadata.command {
                Some(x) => {
                    let md = styled_inline_markdown(x.as_str());
                    push_line(&mut out, concat3(ind, "        proof command: ", md.as_str()));
                },
                None => {},
            }
            let ghost g2 = lines_view(out@);
            if it.excerpt_lines.len() > 0 {
                let n = usize_to_string(it.excerpt_lines.len());
                let mut h = concat3(ind, "        Excerpt (", n.as_str());
                h.append(" lines):");
                push_line(&mut out, h);
                let pre = concat2(ind, "          ");
                push_md_lines(&mut out, pre.as_str(), &it.excerpt_lines);
                assert(it.excerpt_lines@.map_values(|a: String| pre@ + inline_markdown_spec(a@))
                    =~= it.excerpt_lines@.map_values(|l: String| ind@ + "          "@ + inline_markdown_spec(l@)));
            }
            let ghost g3 = lines_view(out@);
            if it.missing_proof {
                let w = fg("Warning:", Color::Yellow);
                let mut l = concat3(ind, "        ", w.as_str());
                l.append(" linked proof file is missing");
                push_line(&mut out, l);
            }
            assert(lines_view(out@) =~= audit_item_lines(ind@, *it));
        },
        None => {
            push_line(&mut out, concat2(ind, "      Proof: (none linked)"));
            assert(lines_view(out@) =~= audit_item_lines(ind@, *it));
        },
    }
    out
}

fn req_lines_exec(ind: &str, items: &Vec<EvidenceItem>, req: &str) -> (r: Vec<String>)
    ensures
        lines_view(r@) == req_items_lines(ind@, items@, req@),
{
    let mut out: Vec<String> = Vec::new();
    let mut k: usize = 0;
    while k < items.len()
        invariant
            k <= items.len(),
            lines_view(out@) == req_items_lines(ind@, items@.take(k as int), req@),
        decreases items.len() - k,
    {
        assert(items@.take(k + 1).drop_last() =~= items@.take(k as int));
        let it = &items[k];
        let il = audit_item_lines_exec(ind, it);
        let ghost before = lines_view(out@);
        let mut j: usize = 0;
        while j < it.requirements.len()
            invariant
                j <= it.requirements.len(),
                lines_view(out@) == before + repeated(lines_view(il@), req_count(it.requirements@.take(j as int), req@)),
            decreases it.requirements.len() - j,
        {
            assert(it.requirements@.take(j + 1).drop_last() =~= it.requirements@.take(j as int));
            if str_eq(it.requirements[j].as_str(), req) {
                append_all(&mut out, &il);
            }
            j = j + 1;
        }
        assert(it.requirements@.take(j as int) =~= it.requirements@);
        k = k + 1;
    }
    assert(items@.take(k as int) =~= items@);
    out
}

fn collect_reqs(items: &Vec<EvidenceItem>) -> (reqs: Vec<String>)
    ensures
        str_list(reqs@) == all_reqs(items@),
{
    let mut reqs: Vec<String> = Vec::new();
    let mut k: usize = 0;
    while k < items.len()
        invariant
            k <= items.len(),
            str_list(reqs@) == all_reqs(items@.take(k as int)),
        decreases items.len() - k,
    {
        assert(items@.take(k + 1).drop_last() =~= items@.take(k as int));
        let it = &items[k];
        let ghost before = str_list(reqs@);
        let mut j: usize = 0;
        while j < it.requirements.len()
            invariant
                j <= it.requirements.len(),
                str_list(reqs@) == before + str_list(it.requirements@).take(j as int),
            decreases it.requirements.len() - j,
        {
            let ghost b2 = str_list(reqs@);
            reqs.push(it.requirements[j].clone());
            assert(str_list(reqs@) =~= b2.push(it.requirements@[j as int]@));
            assert(str_list(it.requirements@).take(j + 1) =~= str_list(it.requirements@).take(j as int).push(it.requirements@[j as int]@));
            j = j + 1;
        }
        assert(str_list(it.requirements@).take(j as int) =~= str_list(it.requirements@));
        k = k + 1;
    }
    assert(items@.take(k as int) =~= items@);
    reqs
}

/// The names in sorted order, each once.
pub(crate) fn distinct_sorted(names: &Vec<String>) -> (order: Vec<usize>)
    ensures
        sorted_eligible(name_keys(str_list(names@)), first_occurrences(str_list(names@)), order@.map_values(|i: usize| i as int)),
{
    let ghost rv = str_list(names@);
    let mut keys: Vec<SortKey> = Vec::new();
    let mut oks: Vec<bool> = Vec::new();
    let mut k: usize = 0;
    while k < names.len()
        invariant
            rv == str_list(names@),
            k <= names.len(),
            keys@.len() == k,
            oks@.len() == k,
            forall|i: int| 0 <= i < k ==> #[trigger] keys@[i].view() == name_keys(rv)[i],
            forall|i: int| 0 <= i < k ==> #[trigger] oks@[i] == first_occurrences(rv)[i],
        decreases names.len() - k,
    {
        let mut first = true;
        let mut j: usize = 0;
        while j < k
            invariant
                rv == str_list(names@),
                k < names.len(),
                j <= k,
                first == forall|i: int| 0 <= i < j ==> #[trigger] rv[i] != rv[k as int],
            decreases k - j,
        {
            assert(rv[j as int] == names@[j as int]@);
            assert(rv[k as int] == names@[k as int]@);
            if str_eq(names[j].as_str(), names[k].as_str()) {
                first = false;
            }
            j = j + 1;
        }
        assert(rv[k as int] == names@[k as int]@);
        keys.push(SortKey { a: 0, pre: String::new(), b: 0, c: 0, name: names[k].clone() });
        oks.push(first);
        k = k + 1;
    }
    assert(keys_view(keys@) =~= name_keys(rv));
    assert(oks@ =~= first_occurrences(rv));
    sort_eligible(&keys, &oks)
}

fn audit_body_exec(out: &mut Vec<String>, ind: &str, items: &Vec<EvidenceItem>) -> (order: Ghost<Seq<int>>)
    ensures
        sorted_eligible(name_keys(all_reqs(items@)), first_occurrences(all_reqs(items@)), order@),
        lines_view(final(out)@) == lines_view(old(out)@) + audit_body(ind@, items@, order@),
{
    let ghost g0 = lines_view(out@);
    let reqs = collect_reqs(items);
    let ghost rv = all_reqs(items@);
    let order = distinct_sorted(&reqs);
    let ghost ov = order@.map_values(|i: usize| i as int);
    if items.len() == 0 {
        let d = dimmed("(no verify annotations found)");
        push_line(out, concat3(ind, "  ", d.as_str()));
        return Ghost(ov);
    }
    let ghost parts = ov.map_values(|i: int|
        seq![ind@ + "  Requirement: "@ + fg_spec(Color::Cyan, rv[i])] + req_items_lines(ind@, items@, rv[i]));
    let mut p: usize = 0;
    while p < order.len()
        invariant
            str_list(reqs@) == rv,
            ov == order@.map_values(|i: usize| i as int),
            sorted_eligible(name_keys(rv), first_occurrences(rv), ov),
            parts == ov.map_values(|i: int|
                seq![ind@ + "  Requirement: "@ + fg_spec(Color::Cyan, rv[i])] + req_items_lines(ind@, items@, rv[i])),
            p <= order.len(),
            lines_view(out@) == g0 + flatten_lines(parts.take(p as int)),
        decreases order.len() - p,
    {
        let i = order[p];
        assert(ov[p as int] == i as int);
        assert(0 <= ov[p as int] < rv.len());
        assert(rv[i as int] == reqs@[i as int]@);
        let r = reqs[i].as_str();
        let rc = fg(r, Color::Cyan);
        push_line(out, concat3(ind, "  Requirement: ", rc.as_str()));
        let body = req_lines_exec(ind, items, r);
        append_all(out, &body);
        assert(parts.take(p + 1).drop_last() =~= parts.take(p as int));
        p = p + 1;
    }
    assert(parts.take(p as int) =~= parts);
    Ghost(ov)
}

/// The audit lines of one story, indented by `indent_level` blanks.
/// `reflection_recorded` says whether its reflection holds knowledge.
#[verifier::spinoff_prover]
#[verifier::rlimit(40)]
pub fn audit_story_lines(story: &Story, report: &EvidenceReport, indent_level: usize, reflection_recorded: bool) -> (r: Vec<String>)
    ensures
        exists|order: Seq<int>| sorted_eligible(name_keys(all_reqs(report.items@)), first_occurrences(all_reqs(report.items@)), order)
            && lines_view(r@) == audit_story_spec(spaces(indent_level as nat), *story, *report, reflection_recorded, order),
{
    let ind = spaces_str(indent_level);
    let mut out: Vec<String> = Vec::new();
    let mark = if matches!(story.stage, StoryState::Done) {
        let g = fg("✓ ", Color::Green);
        bold(g.as_str())
    } else {
        String::new()
    };
    let sid = concat2("Story/", story.id.as_str());
    let sidc = fg(sid.as_str(), Color::BrightBlue);
    let sidb = bold(sidc.as_str());
    let status = styled_stage(&story.stage);
    let mut head = concat3(ind.as_str(), mark.as_str(), sidb.as_str());
    head.append(" - ");
    head.append(story.title.as_str());
    head.append(" (");
    head.append(status.as_str());
    head.append(")");
    push_line(&mut out, head);
    let order = audit_body_exec(&mut out, ind.as_str(), &report.items);
    let ghost g1 = lines_view(out@);
    if report.evidence_dir_missing {
        let d = dimmed("(EVIDENCE directory not found)");
        push_line(&mut out, concat3(ind.as_str(), "  ", d.as_str()));
    }
    if report.supplementary_artifacts.len() > 0 {
        push_line(&mut out, concat2(ind.as_str(), "  Supplementary artifacts:"));
        let pre = concat2(ind.as_str(), "    - ");
        push_md_lines(&mut out, pre.as_str(), &report.supplementary_artifacts);
        assert(report.supplementary_artifacts@.map_values(|a: String| pre@ + inline_markdown_spec(a@))
            =~= report.supplementary_artifacts@.map_values(|a: String| ind@ + "    - "@ + inline_markdown_spec(a@)));
    }
    if report.media_artifacts.len() > 0 {
        push_line(&mut out, concat2(ind.as_str(), "  Media artifacts:"));
        let pre = concat2(ind.as_str(), "    - ");
        push_md_lines(&mut out, pre.as_str(), &report.media_artifacts);
        assert(report.media_artifacts@.map_values(|a: String| pre@ + inline_markdown_spec(a@))
            =~= report.media_artifacts@.map_values(|a: String| ind@ + "    - "@ + inline_markdown_spec(a@)));
    }
    if reflection_recorded {
        let g = fg("✓ Reflection recorded", Color::Green);
        push_line(&mut out, concat3(ind.as_str(), "  ", g.as_str()));
    }
    assert(lines_view(out@) =~= audit_story_spec(ind@, *story, *report, reflection_recorded, order@));
    out
}

// ---------------------------------------------------------------------
// Requirement groups
// ---------------------------------------------------------------------

/// Requirement ids of the entries, as sort keys.
pub open spec fn entry_req_keys(es: Seq<EvidenceEntry>) -> Seq<KeyView> {
    name_keys(es.map_values(|e: EvidenceEntry| e.requirement_id@))
}

/// The entry is the first to name its requirement.
pub open spec fn entry_req_first(es: Seq<EvidenceEntry>) -> Seq<bool> {
    first_occurrences(es.map_values(|e: EvidenceEntry| e.requirement_id@))
}

/// Story ids of the entries, as sort keys.
pub open spec fn entry_story_keys(es: Seq<EvidenceEntry>) -> Seq<KeyView> {
    name_keys(es.map_values(|e: EvidenceEntry| e.story_id@))
}

/// The entry traces requirement `req` and is the first such entry of its
/// story.
pub open spec fn entry_story_first(es: Seq<EvidenceEntry>, req: Seq<char>) -> Seq<bool> {
    Seq::new(es.len(), |i: int| es[i].requirement_id@ == req
        && forall|j: int| 0 <= j < i && es[j].requirement_id@ == req ==> #[trigger] es[j].story_id@ != es[i].story_id@)
}

/// The evidence report given for a story, if any.
pub open spec fn report_for(reports: Seq<(String, EvidenceReport)>, id: Seq<char>) -> Option<EvidenceReport> {
    match first_index_of(reports.map_values(|p: (String, EvidenceReport)| p.0@), id) {
        Some(i) => Some(reports[i].1),
        None => None,
    }
}

/// The story's items that trace `req`, each once, in order.
pub open spec fn traced_items_lines(ind: Seq<char>, items: Seq<EvidenceItem>, req: Seq<char>) -> Seq<Seq<char>>
    decreases items.len(),
{
    if items.len() == 0 {
        Seq::empty()
    } else {
        traced_items_lines(ind, items.drop_last(), req)
            + if str_list(items.last().requirements@).contains(req) { audit_item_lines(ind, items.last()) } else { Seq::empty() }
    }
}

/// One story under a requirement: its line and its items tracing the
/// requirement; nothing when the board or the reports lack it.
pub open spec fn story_block(b: Board, reports: Seq<(String, EvidenceReport)>, ind: Seq<char>, req: Seq<char>, sid: Seq<char>) -> Seq<Seq<char>> {
    match (first_index_of(story_ids(b), sid), report_for(reports, sid)) {
        (Some(i), Some(r)) => seq![ind + "  Story: "@ + styled_story_id_spec(sid) + " - "@ + b.stories@[i].title@ + " ("@
            + styled_stage_spec(b.stories@[i].stage) + ")"@] + traced_items_lines(ind, r.items@, req),
        _ => Seq::empty(),
    }
}

/// One requirement: its line, then its stories by id.
pub open spec fn req_block(b: Board, es: Seq<EvidenceEntry>, reports: Seq<(String, EvidenceReport)>, ind: Seq<char>, req: Seq<char>) -> Seq<Seq<char>> {
    let order = sorted_order(entry_story_keys(es), entry_story_first(es, req));
    seq![ind + "Requirement: "@ + fg_spec(Color::Cyan, req)]
        + flatten_lines(order.map_values(|q: int| story_block(b, reports, ind, req, es[q].story_id@)))
}

/// The evidence chains of entries, grouped by requirement (sorted) and
/// story (sorted).
pub open spec fn requirement_groups_spec(b: Board, es: Seq<EvidenceEntry>, reports: Seq<(String, EvidenceReport)>, ind: Seq<char>) -> Seq<Seq<char>> {
    let order = sorted_order(entry_req_keys(es), entry_req_first(es));
    flatten_lines(order.map_values(|p: int| req_block(b, es, reports, ind, es[p].requirement_id@)))
}

fn traced_items_exec(ind: &str, items: &Vec<EvidenceItem>, req: &str) -> (r: Vec<String>)
    ensures
        lines_view(r@) == traced_items_lines(ind@, items@, req@),
{
    let mut out: Vec<String> = Vec::new();
    let mut k: usize = 0;
    while k < items.len()
        invariant
            k <= items.len(),
            lines_view(out@) == traced_items_lines(ind@, items@.take(k as int), req@),
        decreases items.len() - k,
    {
        assert(items@.take(k + 1).drop_last() =~= items@.take(k as int));
        let it = &items[k];
        if crate::flow_format::contains_id_pub(it.requirements.as_slice(), req) {
            let il = audit_item_lines_exec(ind, it);
            append_all(&mut out, &il);
        }
        k = k + 1;
    }
    assert(items@.take(k as int) =~= items@);
    out
}

fn story_block_exec(b: &Board, reports: &[(String, EvidenceReport)], ind: &str, req: &str, sid: &str) -> (r: Vec<String>)
    ensures
        lines_view(r@) == story_block(*b, reports@, ind@, req@, sid@),
{
    let mut sids: Vec<String> = Vec::new();
    let mut k: usize = 0;
    while k < b.stories.len()
        invariant
            k <= b.stories.len(),
            sids@.len() == k,
            forall|i: int| 0 <= i < k ==> #[trigger] sids@[i]@ == b.stories@[i].id@,
        decreases b.stories.len() - k,
    {
        sids.push(b.stories[k].id.clone());
        k = k + 1;
    }
    assert(str_list(sids@) =~= story_ids(*b));
    let mut rids: Vec<String> = Vec::new();
    let mut k: usize = 0;
    while k < reports.len()
        invariant
            k <= reports.len(),
            rids@.len() == k,
            forall|i: int| 0 <= i < k ==> #[trigger] rids@[i]@ == reports@[i].0@,
        decreases reports.len() - k,
    {
        rids.push(reports[k].0.clone());
        k = k + 1;
    }
    assert(str_list(rids@) =~= reports@.map_values(|p: (String, EvidenceReport)| p.0@));
    let mut out: Vec<String> = Vec::new();
    match (find_in(&sids, sid), find_in(&rids, sid)) {
        (Some(i), Some(j)) => {
            let s = &b.stories[i];
            let idc = styled_story_id(sid);
            let status = styled_stage(&s.stage);
            let mut line = concat3(ind, "  Story: ", idc.as_str());
            line.append(" - ");
            line.append(s.title.as_str());
            line.append(" (");
            line.append(status.as_str());
            line.append(")");
            push_line(&mut out, line);
            let body = traced_items_exec(ind, &reports[j].1.items, req);
            append_all(&mut out, &body);
        },
        _ => {},
    }
    out
}

fn req_block_exec(b: &Board, entries: &[EvidenceEntry], reports: &[(String, EvidenceReport)], ind: &str, req: &str) -> (r: Vec<String>)
    ensures
        lines_view(r@) == req_block(*b, entries@, reports@, ind@, req@),
{
    let ghost es = entries@;
    let mut keys: Vec<SortKey> = Vec::new();
    let mut oks: Vec<bool> = Vec::new();
    let mut k: usize = 0;
    while k < entries.len()
        invariant
            es == entries@,
            k <= entries.len(),
            keys@.len() == k,
            oks@.len() == k,
            forall|i: int| 0 <= i < k ==> #[trigger] keys@[i].view() == entry_story_keys(es)[i],
            forall|i: int| 0 <= i < k ==> #[trigger] oks@[i] == entry_story_first(es, req@)[i],
        decreases entries.len() - k,
    {
        let mut first = str_eq(entries[k].requirement_id.as_str(), req);
        let mut j: usize = 0;
        while j < k
            invariant
                es == entries@,
                k < entries.len(),
                j <= k,
                first == (es[k as int].requirement_id@ == req@ && forall|i: int| 0 <= i < j && es[i].requirement_id@ == req@
                    ==> #[trigger] es[i].story_id@ != es[k as int].story_id@),
            decreases k - j,
        {
            if str_eq(entries[j].requirement_id.as_str(), req) && str_eq(entries[j].story_id.as_str(), entries[k].story_id.as_str()) {
                first = false;
            }
            j = j + 1;
        }
        keys.push(SortKey { a: 0, pre: String::new(), b: 0, c: 0, name: entries[k].story_id.clone() });
        oks.push(first);
        k = k + 1;
    }
    assert(keys_view(keys@) =~= entry_story_keys(es));
    assert(oks@ =~= entry_story_first(es, req@));
    let order = sort_eligible(&keys, &oks);
    let ghost ov = order@.map_values(|i: usize| i as int);
    proof {
        law_sorted_order(entry_story_keys(es), entry_story_first(es, req@), ov);
    }
    let ghost parts = ov.map_values(|q: int| story_block(*b, reports@, ind@, req@, es[q].story_id@));
    let mut out: Vec<String> = Vec::new();
    let rc = fg(req, Color::Cyan);
    push_line(&mut out, concat3(ind, "Requirement: ", rc.as_str()));
    let ghost g0 = lines_view(out@);
    let mut p: usize = 0;
    while p < order.len()
        invariant
            es == entries@,
            ov == order@.map_values(|i: usize| i as int),
            sorted_eligible(entry_story_keys(es), entry_story_first(es, req@), ov),
            keys@.len() == es.len(),
            parts == ov.map_values(|q: int| story_block(*b, reports@, ind@, req@, es[q].story_id@)),
            p <= order.len(),
            lines_view(out@) == g0 + flatten_lines(parts.take(p as int)),
        decreases order.len() - p,
    {
        let q = order[p];
        assert(ov[p as int] == q as int);
        let blk = story_block_exec(b, reports, ind, req, entries[q].story_id.as_str());
        append_all(&mut out, &blk);
        assert(parts.take(p + 1).drop_last() =~= parts.take(p as int));
        p = p + 1;
    }
    assert(parts.take(p as int) =~= parts);
    out
}

/// Renders evidence chains grouped by requirement and story, indented by
/// `indent_level` blanks; `reports` holds the evidence report of each
/// story that could be read.
pub fn render_requirement_groups(board: &Board, entries: &[EvidenceEntry], reports: &[(String, EvidenceReport)], indent_level: usize) -> (r: Vec<String>)
    ensures
        lines_view(r@) == requirement_groups_spec(*board, entries@, reports@, spaces(indent_level as nat)),
{
    let ind = spaces_str(indent_level);
    let ghost es = entries@;
    let mut names: Vec<String> = Vec::new();
    let mut k: usize = 0;
    while k < entries.len()
        invariant
            k <= entries.len(),
            names@.len() == k,
            forall|i: int| 0 <= i < k ==> #[trigger] names@[i]@ == entries@[i].requirement_id@,
        decreases entries.len() - k,
    {
        names.push(entries[k].requirement_id.clone());
        k = k + 1;
    }
    assert(str_list(names@) =~= es.map_values(|e: EvidenceEntry| e.requirement_id@));
    let order = distinct_sorted(&names);
    let ghost ov = order@.map_values(|i: usize| i as int);
    proof {
        law_sorted_order(entry_req_keys(es), entry_req_first(es), ov);
    }
    let ghost parts = ov.map_values(|p: int| req_block(*board, es, reports@, ind@, es[p].requirement_id@));
    let mut out: Vec<String> = Vec::new();
    let mut p: usize = 0;
    while p < order.len()
        invariant
            es == entries@,
            names@.len() == es.len(),
            ov == order@.map_values(|i: usize| i as int),
            sorted_eligible(entry_req_keys(es), entry_req_first(es), ov),
            parts == ov.map_values(|p: int| req_block(*board, es, reports@, ind@, es[p].requirement_id@)),
            p <= order.len(),
            lines_view(out@) == flatten_lines(parts.take(p as int)),
        decreases order.len() - p,
    {
        let i = order[p];
        assert(ov[p as int] == i as int);
        let blk = req_block_exec(board, entries, reports, ind.as_str(), entries[i].requirement_id.as_str());
        append_all(&mut out, &blk);
        assert(parts.take(p + 1).drop_last() =~= parts.take(p as int));
        p = p + 1;
    }
    assert(parts.take(p as int) =~= parts);
    out
}

} // verus!

//! Planning a draft voyage: the gates it must pass (it is draft, it has
//! stories, every functional requirement of its SRS is covered by an
//! acceptance criterion), the optional review of its stories, and which
//! stories planning thaws.

use vstd::prelude::*;
use crate::model::{StoryState, VoyageState, voyage_state_label};
use crate::board::{Board, Story, opt_view, voyage_ids, first_index_of};
use crate::text::{str_chars, trim, trim_spec, trim_start, trim_start_spec, char_pos, lemma_char_pos,
    lemma_char_pos_at, lines, lines_spec, seq_contains, str_contains, starts_with, str_eq, owned, concat2,
    concat3, decimal, usize_to_string, join_with};
use crate::story::show::{checked_line, unchecked_line, section_spec, extract_section};
use crate::voyage::start::in_voyage;
use crate::flow_format::{str_list, contains_id_pub, lemma_first_at, lemma_first_absent};

verus! {

// ---------------------------------------------------------------------
// Requirements named by an SRS
// ---------------------------------------------------------------------

/// The requirement named by an SRS table row: the first cell of a line that
/// starts with `|`, trimmed, when it is an `SRS-` identifier.
pub open spec fn row_requirement(l: Seq<char>) -> Option<Seq<char>> {
    let t = trim_spec(l);
    if t.len() > 0 && t[0] == '|' {
        let rest = t.drop_first();
        let cell = match char_pos(rest, '|') {
            Some(j) => rest.take(j),
            None => rest,
        };
        let id = trim_spec(cell);
        if "SRS-"@.is_prefix_of(id) { Some(id) } else { None }
    } else {
        None
    }
}

/// Scans SRS lines: whether the functional block is open after them, and
/// the requirements named inside it so far.
pub open spec fn srs_scan(ls: Seq<Seq<char>>) -> (bool, Seq<Seq<char>>)
    decreases ls.len(),
{
    if ls.len() == 0 {
        (false, Seq::empty())
    } else {
        let prev = srs_scan(ls.drop_last());
        let l = ls.last();
        if seq_contains(l, "BEGIN FUNCTIONAL_REQUIREMENTS"@) {
            (true, prev.1)
        } else if seq_contains(l, "END FUNCTIONAL_REQUIREMENTS"@) {
            (false, prev.1)
        } else if prev.0 && row_requirement(l) is Some {
            (true, prev.1.push(row_requirement(l)->0))
        } else {
            prev
        }
    }
}

/// The functional requirements of an SRS, in the order it lists them: the
/// table rows between `BEGIN FUNCTIONAL_REQUIREMENTS` and
/// `END FUNCTIONAL_REQUIREMENTS`.
pub open spec fn functional_requirements(srs: Seq<char>) -> Seq<Seq<char>> {
    srs_scan(lines_spec(srs)).1
}

/// The requirement an acceptance criterion references: a criterion line
/// (`- [ ]`, `- [x]`) whose text starts with `[REQ/AC-…]`.
pub open spec fn criterion_requirement(l: Seq<char>) -> Option<Seq<char>> {
    if checked_line(l) || unchecked_line(l) {
        let rest = trim_start_spec(trim_spec(l).skip(5));
        if rest.len() > 0 && rest[0] == '[' {
            let inner = rest.drop_first();
            match char_pos(inner, ']') {
                Some(k) => match char_pos(inner.take(k), '/') {
                    Some(j) => Some(inner.take(j)),
                    None => None,
                },
                None => None,
            }
        } else {
            None
        }
    } else {
        None
    }
}

/// The requirements referenced by the criteria among the lines, in order.
pub open spec fn criterion_refs(ls: Seq<Seq<char>>) -> Seq<Seq<char>>
    decreases ls.len(),
{
    if ls.len() == 0 {
        Seq::empty()
    } else {
        let prev = criterion_refs(ls.drop_last());
        match criterion_requirement(ls.last()) {
            Some(r) => prev.push(r),
            None => prev,
        }
    }
}

fn char_index(cs: &[char], c: char) -> (r: Option<usize>)
    ensures
        match r {
            Some(i) => char_pos(cs@, c) == Some(i as int),
            None => char_pos(cs@, c) is None,
        },
{
    let mut i: usize = 0;
    while i < cs.len()
        invariant
            i <= cs.len(),
            forall|j: int| 0 <= j < i ==> cs@[j] != c,
        decreases cs.len() - i,
    {
        if cs[i] == c {
            proof { lemma_char_pos_at(cs@, c, i as int); }
            return Some(i);
        }
        i = i + 1;
    }
    proof { lemma_char_pos_at(cs@, c, i as int); }
    None
}

/// The requirement named by one SRS line, if it is a requirement row.
pub fn requirement_of_row(l: &str) -> (r: Option<String>)
    ensures
        opt_view(r) == row_requirement(l@),
{
    let t = trim(l);
    let cs = str_chars(t);
    if cs.len() == 0 || cs[0] != '|' {
        return None;
    }
    let rest = t.substring_char(1, cs.len());
    assert(rest@ =~= t@.drop_first());
    let rcs = str_chars(rest);
    proof { lemma_char_pos(rcs@, '|'); }
    let cell = match char_index(rcs.as_slice(), '|') {
        Some(j) => {
            let c = rest.substring_char(0, j);
            assert(c@ =~= rest@.take(j as int));
            c
        },
        None => rest,
    };
    let id = trim(cell);
    if starts_with(id, "SRS-") {
        Some(owned(id))
    } else {
        None
    }
}

/// The functional requirements an SRS lists.
pub fn functional_requirement_ids(srs: &str) -> (r: Vec<String>)
    ensures
        str_list(r@) == functional_requirements(srs@),
{
    let ls = lines(srs);
    let ghost lv = lines_spec(srs@);
    let mut open = false;
    let mut ids: Vec<String> = Vec::new();
    let mut k: usize = 0;
    while k < ls.len()
        invariant
            ls@.map_values(|x: String| x@) == lv,
            k <= ls.len(),
            (open, str_list(ids@)) == srs_scan(lv.take(k as int)),
        decreases ls.len() - k,
    {
        assert(lv.take(k + 1).drop_last() =~= lv.take(k as int));
        assert(lv[k as int] == ls@[k as int]@);
        let l = ls[k].as_str();
        if str_contains(l, "BEGIN FUNCTIONAL_REQUIREMENTS") {
            open = true;
        } else if str_contains(l, "END FUNCTIONAL_REQUIREMENTS") {
            open = false;
        } else if open {
            match requirement_of_row(l) {
                Some(id) => {
                    ids.push(id);
                    assert(str_list(ids@) =~= srs_scan(lv.take(k as int)).1.push(row_requirement(lv[k as int])->0));
                },
                None => {},
            }
        }
        k = k + 1;
    }
    assert(lv.take(k as int) =~= lv);
    ids
}

/// The requirement one criterion line references, if any.
pub fn requirement_of_criterion(l: &str) -> (r: Option<String>)
    ensures
        opt_view(r) == criterion_requirement(l@),
{
    let t = trim(l);
    if !(starts_with(t, "- [x]") || starts_with(t, "- [X]") || starts_with(t, "- [ ]")) {
        return None;
    }
    proof {
        reveal_strlit("- [x]");
        reveal_strlit("- [X]");
        reveal_strlit("- [ ]");
    }
    let n = t.unicode_len();
    let after = t.substring_char(5, n);
    assert(after@ =~= t@.skip(5));
    let rest = trim_start(after);
    let cs = str_chars(rest);
    if cs.len() == 0 || cs[0] != '[' {
        return None;
    }
    let inner = rest.substring_char(1, cs.len());
    assert(inner@ =~= rest@.drop_first());
    let ics = str_chars(inner);
    proof { lemma_char_pos(ics@, ']'); }
    match char_index(ics.as_slice(), ']') {
        Some(k) => {
            let head = inner.substring_char(0, k);
            assert(head@ =~= inner@.take(k as int));
            let hcs = str_chars(head);
            proof { lemma_char_pos(hcs@, '/'); }
            match char_index(hcs.as_slice(), '/') {
                Some(j) => {
                    let id = head.substring_char(0, j);
                    assert(id@ =~= inner@.take(j as int));
                    Some(owned(id))
                },
                None => None,
            }
        },
        None => None,
    }
}

/// The requirements the acceptance criteria of a story reference.
pub fn referenced_requirements(content: &str) -> (r: Vec<String>)
    ensures
        str_list(r@) == criterion_refs(lines_spec(content@)),
{
    let ls = lines(content);
    let ghost lv = lines_spec(content@);
    let mut refs: Vec<String> = Vec::new();
    let mut k: usize = 0;
    while k < ls.len()
        invariant
            ls@.map_values(|x: String| x@) == lv,
            k <= ls.len(),
            str_list(refs@) == criterion_refs(lv.take(k as int)),
        decreases ls.len() - k,
    {
        assert(lv.take(k + 1).drop_last() =~= lv.take(k as int));
        assert(lv[k as int] == ls@[k as int]@);
        match requirement_of_criterion(ls[k].as_str()) {
            Some(id) => {
                refs.push(id);
                assert(str_list(refs@) =~= criterion_refs(lv.take(k as int)).push(criterion_requirement(lv[k as int])->0));
            },
            None => {},
        }
        k = k + 1;
    }
    assert(lv.take(k as int) =~= lv);
    refs
}

// ---------------------------------------------------------------------
// The plan gates
// ---------------------------------------------------------------------

/// Positions (among the first `n`) of the stories of voyage `id`.
pub open spec fn member_positions(stories: Seq<Story>, epic: Seq<char>, id: Seq<char>, n: int) -> Seq<int>
    decreases n,
{
    if n <= 0 {
        Seq::empty()
    } else {
        let prev = member_positions(stories, epic, id, n - 1);
        if in_voyage(stories[n - 1], epic, id) { prev.push(n - 1) } else { prev }
    }
}

/// Positions (among the first `n`) of the voyage's stories in the icebox.
pub open spec fn iced_positions(stories: Seq<Story>, epic: Seq<char>, id: Seq<char>, n: int) -> Seq<int>
    decreases n,
{
    if n <= 0 {
        Seq::empty()
    } else {
        let prev = iced_positions(stories, epic, id, n - 1);
        if in_voyage(stories[n - 1], epic, id) && stories[n - 1].stage == StoryState::Icebox {
            prev.push(n - 1)
        } else {
            prev
        }
    }
}

/// The requirements referenced by the criteria of the voyage's stories
/// (among the first `n`), in board order.
pub open spec fn voyage_refs(stories: Seq<Story>, contents: Seq<Seq<char>>, epic: Seq<char>, id: Seq<char>, n: int) -> Seq<Seq<char>>
    decreases n,
{
    if n <= 0 {
        Seq::empty()
    } else {
        let prev = voyage_refs(stories, contents, epic, id, n - 1);
        if in_voyage(stories[n - 1], epic, id) {
            prev + criterion_refs(lines_spec(contents[n - 1]))
        } else {
            prev
        }
    }
}

/// The ids of the voyage's stories (among the first `n`) whose text has no
/// acceptance-criteria section.
pub open spec fn review_issues(stories: Seq<Story>, contents: Seq<Seq<char>>, epic: Seq<char>, id: Seq<char>, n: int) -> Seq<Seq<char>>
    decreases n,
{
    if n <= 0 {
        Seq::empty()
    } else {
        let prev = review_issues(stories, contents, epic, id, n - 1);
        if in_voyage(stories[n - 1], epic, id) && section_spec(contents[n - 1], "## Acceptance Criteria"@) is None {
            prev.push(stories[n - 1].id@)
        } else {
            prev
        }
    }
}

/// The requirements that no reference covers, in the order given.
pub open spec fn uncovered(reqs: Seq<Seq<char>>, refs: Seq<Seq<char>>) -> Seq<Seq<char>>
    decreases reqs.len(),
{
    if reqs.len() == 0 {
        Seq::empty()
    } else {
        let prev = uncovered(reqs.drop_last(), refs);
        if refs.contains(reqs.last()) { prev } else { prev.push(reqs.last()) }
    }
}

/// What keeps a voyage from being planned.
pub open spec fn plan_problems(status: VoyageState, members: nat, missing: Seq<Seq<char>>) -> Seq<Seq<char>> {
    (if status != VoyageState::Draft {
        seq!["voyage is "@ + voyage_state_label(status) + " (must be draft)"@]
    } else {
        Seq::empty()
    }) + (if members == 0 {
        seq!["voyage has no stories"@]
    } else {
        Seq::empty()
    }) + (if missing.len() > 0 {
        seq!["requirements not covered by any story: "@ + join_with(missing, ", "@)]
    } else {
        Seq::empty()
    })
}

/// The review's report: each story without criteria, then the count.
pub open spec fn review_message(issues: Seq<Seq<char>>) -> Seq<char> {
    "Review found issues:\n"@
        + crate::text::flatten(issues.map_values(|i: Seq<char>| "  - "@ + i + " has no acceptance criteria\n"@))
        + "Review failed: "@ + decimal(issues.len()) + " stories with issues"@
}

/// What planning voyage `id` gives: the error, or the positions of its
/// stories and of those it thaws from the icebox.
pub open spec fn plan_spec(b: Board, id: Seq<char>, srs: Option<Seq<char>>, contents: Seq<Seq<char>>, no_review: bool)
    -> Result<(Seq<int>, Seq<int>), Seq<char>>
{
    match first_index_of(voyage_ids(b), id) {
        None => Err("Voyage not found: "@ + id),
        Some(i) => {
            let v = b.voyages@[i];
            let n = b.stories@.len() as int;
            let members = member_positions(b.stories@, v.epic_id@, id, n);
            let reqs = match srs { Some(t) => functional_requirements(t), None => Seq::empty() };
            let missing = uncovered(reqs, voyage_refs(b.stories@, contents, v.epic_id@, id, n));
            let problems = plan_problems(v.status, members.len(), missing);
            if problems.len() > 0 {
                Err("Cannot plan voyage "@ + id + ": "@ + join_with(problems, "; "@))
            } else {
                let issues = review_issues(b.stories@, contents, v.epic_id@, id, n);
                if !no_review && issues.len() > 0 {
                    Err(review_message(issues))
                } else {
                    Ok((members, iced_positions(b.stories@, v.epic_id@, id, n)))
                }
            }
        },
    }
}

/// What planning a voyage changes: its stories, and those of them that
/// move from the icebox to the backlog (positions on the board).
#[derive(Debug)]
pub struct PlanOutcome {
    pub stories: Vec<usize>,
    pub thawed: Vec<usize>,
}

/// Positions as integers.
pub open spec fn positions(v: Seq<usize>) -> Seq<int> {
    v.map_values(|x: usize| x as int)
}

fn join_strs(parts: &Vec<String>, sep: &str) -> (r: String)
    ensures
        r@ == join_with(str_list(parts@), sep@),
{
    let mut out = String::new();
    let mut k: usize = 0;
    while k < parts.len()
        invariant
            k <= parts.len(),
            out@ == join_with(str_list(parts@).take(k as int), sep@),
        decreases parts.len() - k,
    {
        assert(str_list(parts@).take(k + 1).drop_last() =~= str_list(parts@).take(k as int));
        if k > 0 {
            out.append(sep);
        }
        out.append(parts[k].as_str());
        k = k + 1;
    }
    assert(str_list(parts@).take(k as int) =~= str_list(parts@));
    out
}

/// Checks whether voyage `id` may be planned. `srs` is the text of its SRS
/// (if it has one), `contents` the text of every story of the board, in
/// board order; with `no_review` the stories' criteria are not reviewed.
pub fn run(board: &Board, id: &str, srs: Option<&str>, contents: &[String], no_review: bool)
    -> (r: Result<PlanOutcome, String>)
    requires
        contents@.len() == board.stories@.len(),
    ensures
        match r {
            Ok(o) => plan_spec(*board, id@, opt_str(srs), str_list(contents@), no_review)
                == Ok::<(Seq<int>, Seq<int>), Seq<char>>((positions(o.stories@), positions(o.thawed@))),
            Err(m) => plan_spec(*board, id@, opt_str(srs), str_list(contents@), no_review)
                == Err::<(Seq<int>, Seq<int>), Seq<char>>(m@),
        },
{
    let mut k: usize = 0;
    while k < board.voyages.len()
        invariant_except_break
            k <= board.voyages.len(),
            forall|j: int| 0 <= j < k ==> (#[trigger] board.voyages@[j]).id@ != id@,
        ensures
            k <= board.voyages.len(),
            forall|j: int| 0 <= j < k ==> (#[trigger] board.voyages@[j]).id@ != id@,
            k < board.voyages.len() ==> board.voyages@[k as int].id@ == id@,
        decreases board.voyages.len() - k,
    {
        if str_eq(board.voyages[k].id.as_str(), id) {
            break;
        }
        k = k + 1;
    }
    if k == board.voyages.len() {
        proof {
            assert forall|j: int| 0 <= j < voyage_ids(*board).len() implies voyage_ids(*board)[j] != id@ by {
                assert(board.voyages@[j].id@ != id@);
            }
            lemma_first_absent(voyage_ids(*board), id@);
        }
        return Err(concat2("Voyage not found: ", id));
    }
    proof {
        lemma_first_at(voyage_ids(*board), id@, k as int);
    }
    let v = &board.voyages[k];
    let ghost sv = board.stories@;
    let ghost cv = str_list(contents@);
    let ghost epic = v.epic_id@;
    let mut members: Vec<usize> = Vec::new();
    let mut thawed: Vec<usize> = Vec::new();
    let mut refs: Vec<String> = Vec::new();
    let mut issues: Vec<String> = Vec::new();
    let mut j: usize = 0;
    while j < board.stories.len()
        invariant
            sv == board.stories@,
            cv == str_list(contents@),
            contents@.len() == sv.len(),
            epic == v.epic_id@,
            j <= sv.len(),
            positions(members@) == member_positions(sv, epic, id@, j as int),
            positions(thawed@) == iced_positions(sv, epic, id@, j as int),
            str_list(refs@) == voyage_refs(sv, cv, epic, id@, j as int),
            str_list(issues@) == review_issues(sv, cv, epic, id@, j as int),
            members@.len() <= j,
        decreases sv.len() - j,
    {
        let s = &board.stories[j];
        if crate::voyage::start::story_in_voyage(s, v.epic_id.as_str(), id) {
            members.push(j);
            assert(positions(members@) =~= member_positions(sv, epic, id@, j as int).push(j as int));
            if matches!(s.stage, StoryState::Icebox) {
                thawed.push(j);
                assert(positions(thawed@) =~= iced_positions(sv, epic, id@, j as int).push(j as int));
            }
            let found = referenced_requirements(contents[j].as_str());
            let ghost before = str_list(refs@);
            let mut q: usize = 0;
            while q < found.len()
                invariant
                    q <= found.len(),
                    str_list(refs@) == before + str_list(found@).take(q as int),
                decreases found.len() - q,
            {
                let ghost old_refs = refs;
                let c = found[q].clone();
                assert(c@ == found@[q as int]@);
                refs.push(c);
                assert(str_list(refs@) =~= str_list(old_refs@).push(c@));
                assert(str_list(found@).take(q + 1) =~= str_list(found@).take(q as int).push(found@[q as int]@));
                assert(str_list(refs@) =~= before + str_list(found@).take(q + 1));
                q = q + 1;
            }
            assert(str_list(found@).take(q as int) =~= str_list(found@));
            assert(cv[j as int] == contents@[j as int]@);
            let section = extract_section(contents[j].as_str(), "## Acceptance Criteria");
            if section.is_none() {
                issues.push(s.id.clone());
                assert(str_list(issues@) =~= review_issues(sv, cv, epic, id@, j as int).push(s.id@));
            }
        }
        j = j + 1;
    }
    let reqs = match srs {
        Some(t) => functional_requirement_ids(t),
        None => Vec::new(),
    };
    let ghost rv = str_list(reqs@);
    assert(rv == match opt_str(srs) { Some(t) => functional_requirements(t), None => Seq::<Seq<char>>::empty() });
    let mut missing: Vec<String> = Vec::new();
    let mut q: usize = 0;
    while q < reqs.len()
        invariant
            rv == str_list(reqs@),
            q <= reqs.len(),
            str_list(missing@) == uncovered(rv.take(q as int), str_list(refs@)),
        decreases reqs.len() - q,
    {
        assert(rv.take(q + 1).drop_last() =~= rv.take(q as int));
        if !contains_id_pub(refs.as_slice(), reqs[q].as_str()) {
            missing.push(reqs[q].clone());
            assert(str_list(missing@) =~= uncovered(rv.take(q as int), str_list(refs@)).push(rv[q as int]));
        }
        q = q + 1;
    }
    assert(rv.take(q as int) =~= rv);
    let mut problems: Vec<String> = Vec::new();
    if !matches!(v.status, VoyageState::Draft) {
        problems.push(concat3("voyage is ", v.status.label().as_str(), " (must be draft)"));
    }
    if members.len() == 0 {
        problems.push(owned("voyage has no stories"));
    }
    if missing.len() > 0 {
        problems.push(concat2("requirements not covered by any story: ", join_strs(&missing, ", ").as_str()));
    }
    assert(str_list(problems@) =~= plan_problems(v.status, members@.len(), str_list(missing@)));
    if problems.len() > 0 {
        let mut m = concat3("Cannot plan voyage ", id, ": ");
        m.append(join_strs(&problems, "; ").as_str());
        return Err(m);
    }
    if !no_review && issues.len() > 0 {
        let mut m = owned("Review found issues:\n");
        let ghost iv = str_list(issues@);
        let ghost body = iv.map_values(|i: Seq<char>| "  - "@ + i + " has no acceptance criteria\n"@);
        let mut t: usize = 0;
        while t < issues.len()
            invariant
                iv == str_list(issues@),
                body == iv.map_values(|i: Seq<char>| "  - "@ + i + " has no acceptance criteria\n"@),
                t <= issues.len(),
                m@ == "Review found issues:\n"@ + crate::text::flatten(body.take(t as int)),
            decreases issues.len() - t,
        {
            assert(body.take(t + 1).drop_last() =~= body.take(t as int));
            m.append("  - ");
            m.append(issues[t].as_str());
            m.append(" has no acceptance criteria\n");
            t = t + 1;
        }
        assert(body.take(t as int) =~= body);
        m.append("Review failed: ");
        m.append(usize_to_string(issues.len()).as_str());
        m.append(" stories with issues");
        return Err(m);
    }
    Ok(PlanOutcome { stories: members, thawed })
}

/// A string argument as a sequence, if given.
pub open spec fn opt_str(s: Option<&str>) -> Option<Seq<char>> {
    match s {
        Some(t) => Some(t@),
        None => None,
    }
}

} // verus!

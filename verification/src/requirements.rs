//! Requirement rows of the show commands: one line for the requirement,
//! one for its verification and linked stories, grouped functional first.

use vstd::prelude::*;
use crate::model::StoryState;
use crate::ansi::{Color, fg, bold, dimmed, fg_spec, bold_spec, dim_spec};
use crate::style::{styled_story_id, styled_story_id_spec, styled_requirement_id, styled_inline_markdown,
    inline_markdown_spec};
use crate::text::{concat2, concat3, owned, join_with};


verus! {

/// Whether a requirement is functional.
#[derive(Clone, Copy, Debug, PartialEq, Eq, Structural)]
pub enum RequirementKind {
    Functional,
    NonFunctional,
}

/// How far the stories of a requirement have come.
#[derive(Clone, Copy, Debug, PartialEq, Eq, Structural)]
pub enum RequirementCompletion {
    Done,
    InProgress,
    Queued,
    Unmapped,
}

/// A story linked to a requirement.
#[derive(Clone, Debug)]
pub struct StoryRef {
    pub id: String,
    pub stage: StoryState,
    pub index: Option<u32>,
}

/// A requirement with its coverage.
#[derive(Clone, Debug)]
pub struct RequirementRow {
    pub id: String,
    pub description: String,
    pub kind: RequirementKind,
    pub linked_stories: Vec<StoryRef>,
    pub completion: RequirementCompletion,
    pub verification: String,
}

/// The completion marker.
pub open spec fn completion_icon(c: RequirementCompletion) -> Seq<char> {
    match c {
        RequirementCompletion::Done => bold_spec(fg_spec(Color::Green, "[x]"@)),
        RequirementCompletion::InProgress => bold_spec(fg_spec(Color::Yellow, "[~]"@)),
        _ => fg_spec(Color::BrightBlue, "[ ]"@),
    }
}

fn requirement_completion_icon(c: RequirementCompletion) -> (r: String)
    ensures
        r@ == completion_icon(c),
{
    match c {
        RequirementCompletion::Done => {
            let g = fg("[x]", Color::Green);
            bold(g.as_str())
        },
        RequirementCompletion::InProgress => {
            let y = fg("[~]", Color::Yellow);
            bold(y.as_str())
        },
        _ => fg("[ ]", Color::BrightBlue),
    }
}

/// The linked stories column: their ids, or `none`.
pub open spec fn linked_text(stories: Seq<StoryRef>) -> Seq<char> {
    if stories.len() == 0 {
        "none"@
    } else {
        join_with(stories.map_values(|s: StoryRef| styled_story_id_spec(s.id@)), ", "@)
    }
}

/// The two lines of a requirement.
pub open spec fn requirement_lines_spec(row: RequirementRow) -> Seq<Seq<char>> {
    seq![
        "  "@ + completion_icon(row.completion) + " "@ + fg_spec(Color::Cyan, row.id@) + " "@
            + inline_markdown_spec(row.description@),
        "    Verification: "@ + inline_markdown_spec(row.verification@) + " | Linked Stories: "@
            + linked_text(row.linked_stories@),
    ]
}

/// The views of a list of strings.
pub open spec fn lines_view(v: Seq<String>) -> Seq<Seq<char>> {
    v.map_values(|s: String| s@)
}

/// Renders one requirement.
pub fn requirement_lines(row: &RequirementRow) -> (r: Vec<String>)
    ensures
        lines_view(r@) == requirement_lines_spec(*row),
{
    let ghost parts = row.linked_stories@.map_values(|s: StoryRef| styled_story_id_spec(s.id@));
    let mut linked = String::new();
    let mut k: usize = 0;
    while k < row.linked_stories.len()
        invariant
            parts == row.linked_stories@.map_values(|s: StoryRef| styled_story_id_spec(s.id@)),
            k <= row.linked_stories.len(),
            linked@ == join_with(parts.take(k as int), ", "@),
        decreases row.linked_stories.len() - k,
    {
        assert(parts.take(k + 1).drop_last() =~= parts.take(k as int));
        let sid = styled_story_id(row.linked_stories[k].id.as_str());
        if k > 0 {
            linked.append(", ");
        }
        linked.append(sid.as_str());
        k = k + 1;
        assert(linked@ =~= join_with(parts.take(k as int), ", "@));
    }
    assert(parts.take(k as int) =~= parts);
    if row.linked_stories.len() == 0 {
        linked = owned("none");
    }
    let icon = requirement_completion_icon(row.completion);
    let rid = styled_requirement_id(row.id.as_str());
    let desc = styled_inline_markdown(row.description.as_str());
    let mut first = concat3("  ", icon.as_str(), " ");
    first.append(rid.as_str());
    first.append(" ");
    first.append(desc.as_str());
    let ver = styled_inline_markdown(row.verification.as_str());
    let mut second = concat3("    Verification: ", ver.as_str(), " | Linked Stories: ");
    second.append(linked.as_str());
    let r = vec![first, second];
    assert(lines_view(r@) =~= requirement_lines_spec(*row));
    r
}

/// The rows of one kind, in order.
pub open spec fn rows_of(rows: Seq<RequirementRow>, kind: RequirementKind) -> Seq<RequirementRow> {
    rows.filter(|r: RequirementRow| r.kind == kind)
}

/// The lines of the given rows, one requirement after another.
pub open spec fn rows_lines(rows: Seq<RequirementRow>) -> Seq<Seq<char>>
    decreases rows.len(),
{
    if rows.len() == 0 {
        Seq::empty()
    } else {
        rows_lines(rows.drop_last()) + requirement_lines_spec(rows.last())
    }
}

/// A titled group (nothing when it has no rows), separated by a blank line
/// from what comes before it.
pub open spec fn group_lines(before: Seq<Seq<char>>, title: Seq<char>, rows: Seq<RequirementRow>) -> Seq<Seq<char>> {
    if rows.len() == 0 {
        before
    } else {
        (if before.len() > 0 { before.push(Seq::empty()) } else { before })
            .push(bold_spec(title)) + rows_lines(rows)
    }
}

/// The requirement matrix: functional requirements, then non-functional
/// ones; the placeholder when there are none.
pub open spec fn grouped_lines_spec(rows: Seq<RequirementRow>, placeholder: Seq<char>) -> Seq<Seq<char>> {
    if rows.len() == 0 {
        seq!["  "@ + dim_spec(placeholder)]
    } else {
        group_lines(group_lines(Seq::empty(), "Functional Requirements"@, rows_of(rows, RequirementKind::Functional)),
            "Non-Functional Requirements"@, rows_of(rows, RequirementKind::NonFunctional))
    }
}

fn push_group(lines: &mut Vec<String>, title: &str, rows: &[RequirementRow], kind: RequirementKind)
    ensures
        lines_view(final(lines)@) == group_lines(lines_view(old(lines)@), title@, rows_of(rows@, kind)),
{
    let ghost sel = rows_of(rows@, kind);
    let ghost start = lines_view(lines@);
    let ghost pred = |r: RequirementRow| r.kind == kind;
    let mut any = false;
    let mut k: usize = 0;
    let mut body: Vec<String> = Vec::new();
    assert(rows@.take(0).filter(pred) =~= Seq::<RequirementRow>::empty()) by {
        reveal(Seq::filter);
    }
    while k < rows.len()
        invariant
            sel == rows_of(rows@, kind),
            pred == (|r: RequirementRow| r.kind == kind),
            k <= rows.len(),
            lines_view(body@) == rows_lines(rows@.take(k as int).filter(pred)),
            any == (rows@.take(k as int).filter(pred).len() > 0),
        decreases rows.len() - k,
    {
        assert(rows@.take(k + 1).drop_last() =~= rows@.take(k as int));
        assert(rows@.take(k + 1).filter(pred) == if pred(rows@[k as int]) {
            rows@.take(k as int).filter(pred).push(rows@[k as int])
        } else {
            rows@.take(k as int).filter(pred)
        }) by {
            reveal(Seq::filter);
        }
        if rows[k].kind == kind {
            let two = requirement_lines(&rows[k]);
            let ghost before = lines_view(body@);
            let mut j: usize = 0;
            while j < two.len()
                invariant
                    j <= two.len(),
                    lines_view(body@) == before + lines_view(two@).take(j as int),
                decreases two.len() - j,
            {
                let ghost old_body = lines_view(body@);
                body.push(two[j].clone());
                assert(lines_view(body@) =~= old_body.push(two@[j as int]@));
                assert(lines_view(two@).take(j + 1) =~= lines_view(two@).take(j as int).push(two@[j as int]@));
                j = j + 1;
            }
            assert(lines_view(two@).take(j as int) =~= lines_view(two@));
            assert(rows@.take(k + 1).filter(pred).drop_last() =~= rows@.take(k as int).filter(pred));
            any = true;
        }
        k = k + 1;
    }
    assert(rows@.take(k as int) =~= rows@);
    if !any {
        return;
    }
    if lines.len() > 0 {
        lines.push(String::new());
    }
    lines.push(bold(title));
    let ghost mid = lines_view(lines@);
    let mut j: usize = 0;
    while j < body.len()
        invariant
            j <= body.len(),
            lines_view(lines@) == mid + lines_view(body@).take(j as int),
        decreases body.len() - j,
    {
        let ghost old_lines = lines_view(lines@);
        lines.push(body[j].clone());
        assert(lines_view(lines@) =~= old_lines.push(body@[j as int]@));
        assert(lines_view(body@).take(j + 1) =~= lines_view(body@).take(j as int).push(body@[j as int]@));
        j = j + 1;
    }
    assert(lines_view(body@).take(j as int) =~= lines_view(body@));
    assert(lines_view(lines@) =~= group_lines(start, title@, sel));
}

/// Renders the requirement matrix.
pub fn grouped_requirement_lines(rows: &[RequirementRow], empty_placeholder: &str) -> (r: Vec<String>)
    ensures
        lines_view(r@) == grouped_lines_spec(rows@, empty_placeholder@),
{
    let mut lines: Vec<String> = Vec::new();
    if rows.len() == 0 {
        let d = dimmed(empty_placeholder);
        lines.push(concat2("  ", d.as_str()));
        assert(lines_view(lines@) =~= grouped_lines_spec(rows@, empty_placeholder@));
        return lines;
    }
    assert(lines_view(lines@) =~= Seq::<Seq<char>>::empty());
    push_group(&mut lines, "Functional Requirements", rows, RequirementKind::Functional);
    push_group(&mut lines, "Non-Functional Requirements", rows, RequirementKind::NonFunctional);
    lines
}

} // verus!

//! The sections of `voyage show`: goal and scope, progress, and the
//! requirement matrix of a voyage's planning projection.

use vstd::prelude::*;
use crate::requirements::{RequirementRow, grouped_requirement_lines, grouped_lines_spec, lines_view};
use crate::show::{ShowSection, ShowBlock, appended_lines, bullets_added, lemma_appended_lines_trans};
use crate::style::{progress_bar, progress_bar_spec, progress_bar_fits};
use crate::ansi::{dimmed, dim_spec};
use crate::table::strs_view;
use crate::text::{concat2, owned, decimal, usize_to_string};

verus! {

/// Shown when the SRS gives no goal.
pub const GOAL_PLACEHOLDER: &'static str = "(goal not authored yet)";
/// Shown when the SRS gives no scope list.
pub const SCOPE_PLACEHOLDER: &'static str = "(scope not authored in SRS.md yet)";
/// Shown when the SRS lists no requirement.
pub const REQUIREMENTS_PLACEHOLDER: &'static str = "(no requirements found in SRS.md)";

/// What the voyage's SRS puts in and out of scope.
#[derive(Clone, Debug, Default)]
pub struct VoyageScope {
    pub in_scope: Vec<String>,
    pub out_of_scope: Vec<String>,
}

/// The planning projection a voyage is shown from.
#[derive(Clone, Debug)]
pub struct VoyageShowProjection {
    pub goal: Option<String>,
    pub scope: VoyageScope,
    pub requirements: Vec<RequirementRow>,
    pub done_stories: usize,
    pub total_stories: usize,
    pub done_functional_requirements: usize,
    pub total_functional_requirements: usize,
    pub done_non_functional_requirements: usize,
    pub total_non_functional_requirements: usize,
    pub done_requirements: usize,
    pub total_requirements: usize,
}

/// The lines of the summary section: the goal, then the in-scope and the
/// out-of-scope items (each list, when empty, as the dimmed placeholder).
pub open spec fn goal_scope_added(r: VoyageShowProjection) -> Seq<Seq<Seq<char>>> {
    seq![seq![goal_line(r)]]
        + bullets_added("In scope:"@, strs_view(r.scope.in_scope@), Some(dim_spec(SCOPE_PLACEHOLDER@)))
        + bullets_added("Out of scope:"@, strs_view(r.scope.out_of_scope@), Some(dim_spec(SCOPE_PLACEHOLDER@)))
}

/// The goal line, with the placeholder when the SRS gives no goal.
pub open spec fn goal_line(r: VoyageShowProjection) -> Seq<char> {
    "  Goal: "@ + match r.goal { Some(g) => g@, None => GOAL_PLACEHOLDER@ }
}

/// `done/total` and its bar, or `0/0` when there is nothing to count.
pub open spec fn count_with_bar(label: Seq<char>, done: nat, total: nat, suffix: Seq<char>) -> Seq<char> {
    if total > 0 {
        label + decimal(done) + "/"@ + decimal(total) + " "@ + progress_bar_spec(done, total, 15, None) + suffix
    } else {
        label + "0/0"@ + suffix
    }
}

/// The lines of the progress section: stories, functional requirements,
/// and (when there are any) the advisory non-functional ones.
pub open spec fn progress_added(r: VoyageShowProjection) -> Seq<Seq<Seq<char>>> {
    seq![
        seq![count_with_bar("  Stories:      "@, r.done_stories as nat, r.total_stories as nat, ""@)],
        seq![count_with_bar("  Requirements: "@, r.done_functional_requirements as nat,
            r.total_functional_requirements as nat, " (functional)"@)],
    ] + if r.total_non_functional_requirements > 0 {
        seq![seq!["  NFRs:         "@ + decimal(r.done_non_functional_requirements as nat) + "/"@
            + decimal(r.total_non_functional_requirements as nat)
            + " (advisory, not counted toward completion)"@]]
    } else {
        Seq::empty()
    }
}

fn count_line(label: &str, done: usize, total: usize, suffix: &str) -> (r: String)
    requires
        progress_bar_fits(done as nat, total as nat, 15),
    ensures
        r@ == count_with_bar(label@, done as nat, total as nat, suffix@),
{
    let mut line = owned(label);
    if total > 0 {
        line.append(usize_to_string(done).as_str());
        line.append("/");
        line.append(usize_to_string(total).as_str());
        line.append(" ");
        line.append(progress_bar(done, total, 15, None).as_str());
    } else {
        line.append("0/0");
    }
    line.append(suffix);
    line
}

/// The "Voyage Summary" section: goal and scope.
pub fn goal_scope_section(report: &VoyageShowProjection) -> (s: ShowSection)
    ensures
        s.title@ == "Voyage Summary"@,
        appended_lines(Seq::empty(), s.blocks@, goal_scope_added(*report)),
{
    let mut section = ShowSection::new("Voyage Summary");
    let ghost b0 = section.blocks@;
    let goal = match &report.goal {
        Some(g) => concat2("  Goal: ", g.as_str()),
        None => concat2("  Goal: ", GOAL_PLACEHOLDER),
    };
    let v = vec![goal];
    assert(strs_view(v@) =~= seq![goal@]);
    section.push_lines(v);
    let ghost b1 = section.blocks@;
    let placeholder = dimmed(SCOPE_PLACEHOLDER);
    section.push_labeled_bullets("In scope:", report.scope.in_scope.clone(), Some(placeholder.as_str()));
    let ghost b2 = section.blocks@;
    section.push_labeled_bullets("Out of scope:", report.scope.out_of_scope.clone(), Some(placeholder.as_str()));
    proof {
        let g = seq![seq![goal_line(*report)]];
        let ins = bullets_added("In scope:"@, strs_view(report.scope.in_scope@), Some(dim_spec(SCOPE_PLACEHOLDER@)));
        let outs = bullets_added("Out of scope:"@, strs_view(report.scope.out_of_scope@), Some(dim_spec(SCOPE_PLACEHOLDER@)));
        assert(b0 =~= Seq::<ShowBlock>::empty());
        lemma_appended_lines_trans(b0, b1, b2, g, ins);
        lemma_appended_lines_trans(b0, b2, section.blocks@, g + ins, outs);
        assert(g + ins + outs =~= goal_scope_added(*report));
    }
    section
}

/// The "Progress" section of a voyage.
pub fn progress_section(report: &VoyageShowProjection) -> (s: ShowSection)
    requires
        progress_bar_fits(report.done_stories as nat, report.total_stories as nat, 15),
        progress_bar_fits(report.done_functional_requirements as nat, report.total_functional_requirements as nat, 15),
    ensures
        s.title@ == "Progress"@,
        appended_lines(Seq::empty(), s.blocks@, progress_added(*report)),
{
    let mut section = ShowSection::new("Progress");
    let ghost b0 = section.blocks@;
    let stories = count_line("  Stories:      ", report.done_stories, report.total_stories, "");
    let v = vec![stories];
    assert(strs_view(v@) =~= seq![stories@]);
    section.push_lines(v);
    let ghost b1 = section.blocks@;
    let reqs = count_line("  Requirements: ", report.done_functional_requirements,
        report.total_functional_requirements, " (functional)");
    let v = vec![reqs];
    assert(strs_view(v@) =~= seq![reqs@]);
    section.push_lines(v);
    let ghost b2 = section.blocks@;
    let ghost first = seq![seq![stories@]];
    let ghost second = seq![seq![reqs@]];
    proof {
        assert(b0 =~= Seq::<ShowBlock>::empty());
        lemma_appended_lines_trans(b0, b1, b2, first, second);
    }
    if report.total_non_functional_requirements > 0 {
        let mut line = owned("  NFRs:         ");
        line.append(usize_to_string(report.done_non_functional_requirements).as_str());
        line.append("/");
        line.append(usize_to_string(report.total_non_functional_requirements).as_str());
        line.append(" (advisory, not counted toward completion)");
        let v = vec![line];
        assert(strs_view(v@) =~= seq![line@]);
        section.push_lines(v);
        proof {
            lemma_appended_lines_trans(b0, b2, section.blocks@, first + second, seq![seq![line@]]);
            assert(first + second + seq![seq![line@]] =~= progress_added(*report));
        }
    } else {
        assert(first + second =~= progress_added(*report));
    }
    section
}

/// The requirement matrix: functional requirements, then non-functional.
pub fn requirement_matrix_lines(report: &VoyageShowProjection) -> (r: Vec<String>)
    ensures
        lines_view(r@) == grouped_lines_spec(report.requirements@, REQUIREMENTS_PLACEHOLDER@),
{
    grouped_requirement_lines(report.requirements.as_slice(), REQUIREMENTS_PLACEHOLDER)
}

} // verus!

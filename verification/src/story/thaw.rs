//! `story thaw`: an iced story returns to the backlog. A story scoped to
//! a voyage must trace each acceptance criterion to a requirement first.

use vstd::prelude::*;
use crate::model::StoryState;
use crate::board::Board;
use crate::text::{lines, lines_spec, trim, starts_with, concat3};
use crate::story::guidance::{StoryLifecycleAction, error_with_recovery, recovery_guidance_spec};
use crate::guidance::error_with_guidance_spec;
use crate::story::lifecycle::{transition_spec, check_transition};
use crate::story::show::{checked_line, unchecked_line};
use crate::voyage::plan::{criterion_requirement, requirement_of_criterion};

verus! {

/// A criterion line that references no requirement.
pub open spec fn untraced_criterion(l: Seq<char>) -> bool {
    (checked_line(l) || unchecked_line(l)) && criterion_requirement(l) is None
}

/// Some line is a criterion without a requirement reference.
pub open spec fn has_untraced(ls: Seq<Seq<char>>) -> bool {
    exists|i: int| 0 <= i < ls.len() && untraced_criterion(#[trigger] ls[i])
}

/// Thawing story `id` whose document is `content`: its position (it
/// returns to the backlog), or why not.
pub open spec fn thaw_spec(b: Board, id: Seq<char>, content: Seq<char>) -> Result<int, Seq<char>> {
    match transition_spec(b, StoryLifecycleAction::Thaw, id) {
        Err(m) => Err(m),
        Ok((i, _)) => if b.stories@[i].scope is Some && has_untraced(lines_spec(content)) {
            Err("Cannot thaw story "@ + id + ": acceptance criteria missing SRS refs"@)
        } else {
            Ok(i)
        },
    }
}

fn is_criterion_line(l: &str) -> (r: bool)
    ensures
        r == (checked_line(l@) || unchecked_line(l@)),
{
    let t = trim(l);
    starts_with(t, "- [x]") || starts_with(t, "- [X]") || starts_with(t, "- [ ]")
}

/// Whether some criterion line of `content` references no requirement.
fn untraced_in(content: &str) -> (r: bool)
    ensures
        r == has_untraced(lines_spec(content@)),
{
    let ls = lines(content);
    let ghost lv = lines_spec(content@);
    let mut i: usize = 0;
    while i < ls.len()
        invariant
            lv == lines_spec(content@),
            ls@.map_values(|x: String| x@) == lv,
            i <= ls.len(),
            forall|j: int| 0 <= j < i ==> !untraced_criterion(#[trigger] lv[j]),
        decreases ls.len() - i,
    {
        assert(lv[i as int] == ls@[i as int]@);
        if is_criterion_line(ls[i].as_str()) && requirement_of_criterion(ls[i].as_str()).is_none() {
            assert(untraced_criterion(lv[i as int]));
            assert(0 <= i < lv.len());
            assert(has_untraced(lv));
            return true;
        }
        i = i + 1;
    }
    false
}

/// Thaws story `id` whose document is `content`: its position, or why
/// not followed by the recovery step.
pub fn run(board: &Board, id: &str, content: &str) -> (r: Result<usize, String>)
    ensures
        match r {
            Ok(i) => thaw_spec(*board, id@, content@) == Ok::<int, Seq<char>>(i as int)
                && board.stories@[i as int].stage == StoryState::Icebox,
            Err(m) => match thaw_spec(*board, id@, content@) {
                Err(e) => m@ == error_with_guidance_spec(e, recovery_guidance_spec(StoryLifecycleAction::Thaw, id@, e)),
                Ok(_) => false,
            },
        },
{
    match check_transition(board, StoryLifecycleAction::Thaw, id) {
        Err(m) => Err(error_with_recovery(StoryLifecycleAction::Thaw, id, m.as_str())),
        Ok((i, _)) => {
            proof {
                crate::board::lemma_first_index_of_found(crate::board::story_ids(*board), id@);
            }
            if board.stories[i].scope.is_some() && untraced_in(content) {
                let m = concat3("Cannot thaw story ", id, ": acceptance criteria missing SRS refs");
                Err(error_with_recovery(StoryLifecycleAction::Thaw, id, m.as_str()))
            } else {
                Ok(i)
            }
        },
    }
}

} // verus!

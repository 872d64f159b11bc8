//! `story accept`: a story awaiting verification is done; criteria verified
//! by hand need a manager.

use vstd::prelude::*;
use crate::board::{Board, opt_view};
use crate::story::guidance::{StoryLifecycleAction, error_with_recovery, recovery_guidance_spec};
use crate::guidance::error_with_guidance_spec;
use crate::story::show::{checked_line, unchecked_line};
use crate::style::{verify_annotation_spec, extract_verify_annotation};
use crate::text::{lines, lines_spec, trim, starts_with, str_eq, concat3, split_char, split_spec};
use crate::story::lifecycle::{transition_spec, check_transition};

verus! {


/// An acceptance criterion verified by hand: a criterion line whose
/// verify annotation starts with `manual`.
pub open spec fn manual_line(l: Seq<char>) -> bool {
    &&& (checked_line(l) || unchecked_line(l))
    &&& match verify_annotation_spec(l).1 {
        Some(k) => "manual"@.is_prefix_of(k),
        None => false,
    }
}

/// Some acceptance criterion of the story text is verified by hand.
pub open spec fn has_manual_criteria(content: Seq<char>) -> bool {
    exists|i: int| 0 <= i < lines_spec(content).len() && manual_line(#[trigger] lines_spec(content)[i])
}

/// A role taxonomy `family/role`: the family, when both parts are present.
pub open spec fn role_family(role: Seq<char>) -> Option<Seq<char>> {
    let parts = split_spec(role, '/');
    if parts.len() == 2 && parts[0].len() > 0 && parts[1].len() > 0 { Some(parts[0]) } else { None }
}

/// Accepting story `id` as `role` given the story's text: its position
/// (it moves to done), or why not.
pub open spec fn accept_spec(b: Board, id: Seq<char>, role: Seq<char>, content: Seq<char>) -> Result<int, Seq<char>> {
    match role_family(role) {
        None => Err("Invalid role taxonomy `"@ + role + "`: expected <family>/<role>"@),
        Some(family) => match transition_spec(b, StoryLifecycleAction::Accept, id) {
            Err(m) => Err(m),
            Ok((i, _)) => {
                if has_manual_criteria(content) && family != "manager"@ {
                    Err(manual_refusal(id))
                } else {
                    Ok(i)
                }
            },
        },
    }
}

/// The refusal for hand-verified criteria accepted by someone not a manager.
pub open spec fn manual_refusal(id: Seq<char>) -> Seq<char> {
    "Cannot accept story "@ + id + ": it has manual acceptance criteria that a manager must accept; run `keel story accept "@
        + id + " --role manager/product`"@
}

fn manual_criterion(l: &str) -> (b: bool)
    ensures
        b == manual_line(l@),
{
    let t = trim(l);
    if !(starts_with(t, "- [x]") || starts_with(t, "- [X]") || starts_with(t, "- [ ]")) {
        return false;
    }
    let (_, kind) = extract_verify_annotation(l);
    match kind {
        Some(k) => starts_with(k, "manual"),
        None => false,
    }
}

/// Whether some acceptance criterion of the text is verified by hand.
pub fn has_manual_acceptance(content: &str) -> (b: bool)
    ensures
        b == has_manual_criteria(content@),
{
    let ls = lines(content);
    let ghost lv = lines_spec(content@);
    let mut k: usize = 0;
    while k < ls.len()
        invariant
            ls@.map_values(|x: String| x@) == lv,
            lv == lines_spec(content@),
            k <= ls.len(),
            forall|j: int| 0 <= j < k ==> !manual_line(#[trigger] lv[j]),
        decreases ls.len() - k,
    {
        assert(lv[k as int] == ls@[k as int]@);
        if manual_criterion(ls[k].as_str()) {
            assert(manual_line(lines_spec(content@)[k as int]));
            return true;
        }
        k = k + 1;
    }
    false
}

/// The family of a role taxonomy `family/role`, if well formed.
pub fn parse_role(role: &str) -> (r: Option<String>)
    ensures
        opt_view(r) == role_family(role@),
{
    let parts = split_char(role, '/');
    assert(parts@.map_values(|x: String| x@) == split_spec(role@, '/'));
    if parts.len() == 2 {
        assert(parts@[0]@ == split_spec(role@, '/')[0]);
        assert(parts@[1]@ == split_spec(role@, '/')[1]);
        if parts[0].as_str().unicode_len() > 0 && parts[1].as_str().unicode_len() > 0 {
            return Some(parts[0].clone());
        }
    }
    None
}

/// Checks whether story `id` may be accepted by `role`; `content` is the
/// story's text. Failures carry their recovery step.
pub fn run(board: &Board, id: &str, role: &str, content: &str) -> (r: Result<usize, String>)
    ensures
        match r {
            Ok(i) => accept_spec(*board, id@, role@, content@) == Ok::<int, Seq<char>>(i as int),
            Err(m) => match accept_spec(*board, id@, role@, content@) {
                Err(e) => m@ == if role_family(role@) is None { e } else {
                    error_with_guidance_spec(e, recovery_guidance_spec(StoryLifecycleAction::Accept, id@, e))
                },
                Ok(_) => false,
            },
        },
{
    let family = match parse_role(role) {
        None => {
            return Err(concat3("Invalid role taxonomy `", role, "`: expected <family>/<role>"));
        },
        Some(f) => f,
    };
    let i = match check_transition(board, StoryLifecycleAction::Accept, id) {
        Err(m) => return Err(error_with_recovery(StoryLifecycleAction::Accept, id, m.as_str())),
        Ok((i, _)) => i,
    };
    if has_manual_acceptance(content) && !str_eq(family.as_str(), "manager") {
        proof { reveal_strlit("manager"); }
        let mut m = concat3("Cannot accept story ", id,
            ": it has manual acceptance criteria that a manager must accept; run `keel story accept ");
        m.append(id);
        m.append(" --role manager/product`");
        return Err(error_with_recovery(StoryLifecycleAction::Accept, id, m.as_str()));
    }
    Ok(i)
}

} // verus!

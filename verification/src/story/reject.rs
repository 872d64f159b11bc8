//! `story reject`: a story awaiting verification is sent back.

use vstd::prelude::*;
use crate::model::StoryState;
use crate::board::Board;
use crate::story::guidance::{StoryLifecycleAction, error_with_recovery, recovery_guidance_spec};
use crate::guidance::error_with_guidance_spec;
use crate::story::lifecycle::{transition_spec, check_transition};
use crate::text::{lines, lines_spec, str_eq, str_chars, owned, push_char};

verus! {

/// Rejecting story `id`: its position (it moves to rejected), or why not,
/// followed by the recovery step.
pub fn run(board: &Board, id: &str) -> (r: Result<usize, String>)
    ensures
        match r {
            Ok(i) => transition_spec(*board, StoryLifecycleAction::Reject, id@)
                == Ok::<(int, StoryState), Seq<char>>((i as int, StoryState::Rejected)),
            Err(m) => match transition_spec(*board, StoryLifecycleAction::Reject, id@) {
                Err(e) => m@ == error_with_guidance_spec(e, recovery_guidance_spec(StoryLifecycleAction::Reject, id@, e)),
                Ok(_) => false,
            },
        },
{
    match check_transition(board, StoryLifecycleAction::Reject, id) {
        Ok((i, _)) => Ok(i),
        Err(m) => Err(error_with_recovery(StoryLifecycleAction::Reject, id, m.as_str())),
    }
}

/// Whether a line of the story reads exactly `## Rejections`.
pub open spec fn has_rejections_section(content: Seq<char>) -> bool {
    lines_spec(content).contains("## Rejections"@)
}

/// The text ending in a line break (an empty text is left as it is).
pub open spec fn with_final_newline(s: Seq<char>) -> Seq<char> {
    if s.len() == 0 || s.last() == '\n' { s } else { s.push('\n') }
}

/// The story text with a dated rejection entry under its `## Rejections`
/// section, which is opened at the end when the story has none yet.
pub open spec fn append_rejection_spec(content: Seq<char>, date: Seq<char>, reason: Seq<char>) -> Seq<char> {
    let entry = "\n### "@ + date + "\n"@ + reason + "\n"@;
    if has_rejections_section(content) {
        with_final_newline(content) + entry
    } else {
        with_final_newline(content) + "\n## Rejections\n"@ + entry
    }
}

/// Records a rejection reason in the story text: a `### date` entry with the
/// reason, under a single `## Rejections` heading.
pub fn append_rejection(content: &str, date: &str, reason: &str) -> (r: String)
    ensures
        r@ == append_rejection_spec(content@, date@, reason@),
{
    let ls = lines(content);
    let mut found = false;
    let mut i: usize = 0;
    while i < ls.len()
        invariant
            i <= ls@.len(),
            ls@.map_values(|x: String| x@) == lines_spec(content@),
            found == exists|k: int| 0 <= k < i && #[trigger] ls@[k]@ == "## Rejections"@,
        decreases ls@.len() - i,
    {
        if str_eq(ls[i].as_str(), "## Rejections") {
            found = true;
        }
        i = i + 1;
    }
    proof {
        let v = ls@.map_values(|x: String| x@);
        if found {
            let k = choose|k: int| 0 <= k < ls@.len() && #[trigger] ls@[k]@ == "## Rejections"@;
            assert(v[k] == "## Rejections"@);
        } else {
            assert forall|k: int| 0 <= k < v.len() implies v[k] != "## Rejections"@ by {
                assert(ls@[k]@ == v[k]);
            }
        }
    }
    let cs = str_chars(content);
    let mut out = owned(content);
    if cs.len() > 0 && cs[cs.len() - 1] != '\n' {
        push_char(&mut out, '\n');
    }
    if !found {
        out.append("\n## Rejections\n");
    }
    out.append("\n### ");
    out.append(date);
    out.append("\n");
    out.append(reason);
    out.append("\n");
    out
}

} // verus!

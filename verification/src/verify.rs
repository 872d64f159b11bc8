//! `verify`: which stories a verification run covers, and the answer to the
//! retired bare invocation.

use vstd::prelude::*;
use crate::board::{Board, story_ids, first_index_of};
use crate::verification_guidance::{verify_error_with_recovery, verify_recovery_spec};
use crate::guidance::error_with_guidance_spec;
use crate::text::{concat2, owned, str_eq};
use crate::flow_format::{lemma_first_at, lemma_first_absent};

verus! {

/// What a verification run covers.
#[derive(Debug, PartialEq, Eq)]
pub enum VerifyTarget {
    /// Every story of the board.
    All,
    /// The story at this position.
    Story(usize),
}

/// The run covers every story when asked to or when no id is given, else
/// the story with the id; a missing story is reported with its recovery.
pub open spec fn verify_target_spec(b: Board, id: Option<Seq<char>>, all: bool) -> Result<VerifyTarget, Seq<char>> {
    if all || id is None {
        Ok(VerifyTarget::All)
    } else {
        match first_index_of(story_ids(b), id->0) {
            Some(i) => Ok(VerifyTarget::Story(i as usize)),
            None => Err(error_with_guidance_spec("Story not found: "@ + id->0,
                Some((None::<Seq<char>>, Some(verify_recovery_spec(id, "Story not found: "@ + id->0)))))),
        }
    }
}

/// Decides what `verify run` covers.
pub fn run(board: &Board, id: Option<&str>, all: bool) -> (r: Result<VerifyTarget, String>)
    ensures
        match r {
            Ok(t) => verify_target_spec(*board, match id { Some(x) => Some(x@), None => None }, all)
                == Ok::<VerifyTarget, Seq<char>>(t),
            Err(m) => verify_target_spec(*board, match id { Some(x) => Some(x@), None => None }, all)
                == Err::<VerifyTarget, Seq<char>>(m@),
        },
{
    if all {
        return Ok(VerifyTarget::All);
    }
    let x = match id {
        None => return Ok(VerifyTarget::All),
        Some(x) => x,
    };
    let mut k: usize = 0;
    while k < board.stories.len()
        invariant
            !all,
            id == Some(x),
            k <= board.stories.len(),
            forall|j: int| 0 <= j < k ==> (#[trigger] board.stories@[j]).id@ != x@,
        decreases board.stories.len() - k,
    {
        if str_eq(board.stories[k].id.as_str(), x) {
            proof { lemma_first_at(story_ids(*board), x@, k as int); }
            return Ok(VerifyTarget::Story(k));
        }
        k = k + 1;
    }
    proof {
        assert forall|j: int| 0 <= j < story_ids(*board).len() implies story_ids(*board)[j] != x@ by {
            assert(board.stories@[j].id@ != x@);
        }
        lemma_first_absent(story_ids(*board), x@);
    }
    let message = concat2("Story not found: ", x);
    Err(verify_error_with_recovery(id, message.as_str()))
}

/// The answer to the retired bare `keel verify`: an error naming the
/// command to run instead.
pub open spec fn legacy_message(id: Option<Seq<char>>) -> Seq<char> {
    "Legacy `keel verify` invocation is no longer supported.\nRecovery step:\n  "@
        + match id {
            Some(s) => "keel verify run "@ + s,
            None => "keel verify run --all"@,
        }
}

/// The bare `keel verify` invocation, which always fails.
pub fn run_legacy(id: Option<&str>) -> (r: Result<(), String>)
    ensures
        r matches Err(m) && m@ == legacy_message(match id { Some(s) => Some(s@), None => None }),
{
    let target = match id {
        Some(s) => concat2("keel verify run ", s),
        None => owned("keel verify run --all"),
    };
    Err(concat2("Legacy `keel verify` invocation is no longer supported.\nRecovery step:\n  ", target.as_str()))
}

} // verus!

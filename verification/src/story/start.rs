//! `story start`: a story leaves the backlog (or a rejection) for work.

use vstd::prelude::*;
use crate::board::{Board, Story, story_ids, first_index_of};
use crate::story::guidance::StoryLifecycleAction;
use crate::text::{concat2, decimal};
use crate::story::lifecycle::{transition_spec, check_transition, find_story};

verus! {

/// Starting story `id` on a board of version `actual` (`expect` is the
/// version the caller saw, if it gave one): the story's position, or why
/// not.
pub open spec fn start_spec(b: Board, id: Seq<char>, expect: Option<u64>, actual: u64) -> Result<int, Seq<char>> {
    match first_index_of(story_ids(b), id) {
        None => Err("Story not found: "@ + id),
        Some(i) => {
            if expect is Some && expect->0 != actual {
                Err("Board state has changed: expected version "@ + decimal(expect->0 as nat)
                    + ", current version "@ + decimal(actual as nat))
            } else {
                match transition_spec(b, StoryLifecycleAction::Start, id) {
                    Ok((j, _)) => Ok(j),
                    Err(m) => Err(m),
                }
            }
        },
    }
}

fn u64_text(n: u64) -> (r: String)
    ensures
        r@ == decimal(n as nat),
    decreases n,
{
    if n < 10 {
        crate::text::usize_to_string(n as usize)
    } else {
        let mut r = u64_text(n / 10);
        let d = crate::text::usize_to_string((n % 10) as usize);
        assert(decimal((n % 10) as nat) == seq![crate::text::digit_char((n % 10) as nat)]);
        r.append(d.as_str());
        r
    }
}

/// Checks whether story `id` may start (it moves to in-progress).
pub fn run(board: &Board, id: &str, version: Option<u64>, actual: u64) -> (r: Result<usize, String>)
    ensures
        match r {
            Ok(i) => start_spec(*board, id@, version, actual) == Ok::<int, Seq<char>>(i as int),
            Err(m) => start_spec(*board, id@, version, actual) == Err::<int, Seq<char>>(m@),
        },
{
    if find_story(board, id).is_none() {
        return Err(concat2("Story not found: ", id));
    }
    match version {
        Some(e) => {
            if e != actual {
                let mut m = concat2("Board state has changed: expected version ", u64_text(e).as_str());
                m.append(", current version ");
                m.append(u64_text(actual).as_str());
                return Err(m);
            }
        },
        None => {},
    }
    match check_transition(board, StoryLifecycleAction::Start, id) {
        Ok((i, _)) => Ok(i),
        Err(m) => Err(m),
    }
}


} // verus!

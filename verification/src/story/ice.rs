//! `story ice`: a story is set aside in the icebox.

use vstd::prelude::*;
use crate::model::StoryState;
use crate::board::Board;
use crate::story::guidance::StoryLifecycleAction;
use crate::story::lifecycle::{transition_spec, check_transition};

verus! {

/// Icing story `id`: its position (it moves to the icebox), or why not.
pub fn run(board: &Board, id: &str) -> (r: Result<usize, String>)
    ensures
        match r {
            Ok(i) => transition_spec(*board, StoryLifecycleAction::Ice, id@)
                == Ok::<(int, StoryState), Seq<char>>((i as int, StoryState::Icebox)),
            Err(m) => transition_spec(*board, StoryLifecycleAction::Ice, id@) == Err::<(int, StoryState), Seq<char>>(m@),
        },
{
    match check_transition(board, StoryLifecycleAction::Ice, id) {
        Ok((i, _)) => Ok(i),
        Err(m) => Err(m),
    }
}


} // verus!

//! `story reflect`: a reflection is scaffolded for a story in active work.

use vstd::prelude::*;
use crate::model::{StoryState, story_state_label};
use crate::board::{Board, Story, story_ids, first_index_of};
use crate::text::{concat2, concat3};
use crate::story::lifecycle::find_story;

verus! {


/// Scaffolding a reflection for story `id` (`exists` says whether it
/// already has one): its position, or why not.
pub open spec fn reflect_spec(b: Board, id: Seq<char>, exists_already: bool) -> Result<int, Seq<char>> {
    match first_index_of(story_ids(b), id) {
        None => Err("Story not found: "@ + id),
        Some(i) => {
            let s = b.stories@[i];
            if s.stage == StoryState::Backlog || s.stage == StoryState::Icebox {
                Err("Cannot create REFLECT.md for story "@ + s.id@ + " in "@ + story_state_label(s.stage)
                    + " stage. Move it into active work first."@)
            } else if exists_already {
                Err("REFLECT.md already exists for story "@ + s.id@)
            } else {
                Ok(i)
            }
        },
    }
}

/// Checks whether a reflection may be scaffolded for story `id`.
pub fn run(board: &Board, id: &str, reflect_exists: bool) -> (r: Result<usize, String>)
    ensures
        match r {
            Ok(i) => reflect_spec(*board, id@, reflect_exists) == Ok::<int, Seq<char>>(i as int),
            Err(m) => reflect_spec(*board, id@, reflect_exists) == Err::<int, Seq<char>>(m@),
        },
{
    match find_story(board, id) {
        None => Err(concat2("Story not found: ", id)),
        Some(i) => {
            let s = &board.stories[i];
            if matches!(s.stage, StoryState::Backlog | StoryState::Icebox) {
                let mut m = concat3("Cannot create REFLECT.md for story ", s.id.as_str(), " in ");
                m.append(s.stage.label().as_str());
                m.append(" stage. Move it into active work first.");
                Err(m)
            } else if reflect_exists {
                Err(concat2("REFLECT.md already exists for story ", s.id.as_str()))
            } else {
                Ok(i)
            }
        },
    }
}



} // verus!

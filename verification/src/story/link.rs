//! `story link`: a story is moved into a voyage's scope.

use vstd::prelude::*;
use crate::board::{Board, Story, opt_view, story_ids, voyage_ids, first_index_of};
use crate::text::{str_eq, concat2, concat3};
use crate::flow_format::{lemma_first_at, lemma_first_absent};
use crate::story::lifecycle::find_story;

verus! {

/// Linking story `story_id` to voyage `voyage_id`: the story's position and
/// its new scope `epic/voyage`, or why not.
pub open spec fn link_spec(b: Board, story_id: Seq<char>, voyage_id: Seq<char>) -> Result<(int, Seq<char>), Seq<char>> {
    match first_index_of(story_ids(b), story_id) {
        None => Err("Story not found: "@ + story_id),
        Some(i) => match first_index_of(voyage_ids(b), voyage_id) {
            None => Err("Voyage not found: "@ + voyage_id),
            Some(j) => {
                let scope = b.voyages@[j].epic_id@ + "/"@ + b.voyages@[j].id@;
                if opt_view(b.stories@[i].scope) == Some(scope) {
                    Err("Story "@ + b.stories@[i].id@ + " is already linked to "@ + scope)
                } else {
                    Ok((i, scope))
                }
            },
        },
    }
}

fn find_voyage(board: &Board, id: &str) -> (r: Option<usize>)
    ensures
        match r {
            Some(i) => first_index_of(voyage_ids(*board), id@) == Some(i as int) && i < board.voyages@.len(),
            None => first_index_of(voyage_ids(*board), id@) is None,
        },
{
    let mut k: usize = 0;
    while k < board.voyages.len()
        invariant
            k <= board.voyages.len(),
            forall|j: int| 0 <= j < k ==> (#[trigger] board.voyages@[j]).id@ != id@,
        decreases board.voyages.len() - k,
    {
        if str_eq(board.voyages[k].id.as_str(), id) {
            proof { lemma_first_at(voyage_ids(*board), id@, k as int); }
            return Some(k);
        }
        k = k + 1;
    }
    proof {
        assert forall|j: int| 0 <= j < voyage_ids(*board).len() implies voyage_ids(*board)[j] != id@ by {
            assert(board.voyages@[j].id@ != id@);
        }
        lemma_first_absent(voyage_ids(*board), id@);
    }
    None
}

/// Checks whether story `story_id` may be linked to voyage `voyage_id`.
pub fn run(board: &Board, story_id: &str, voyage_id: &str) -> (r: Result<(usize, String), String>)
    ensures
        match r {
            Ok((i, s)) => link_spec(*board, story_id@, voyage_id@) == Ok::<(int, Seq<char>), Seq<char>>((i as int, s@)),
            Err(m) => link_spec(*board, story_id@, voyage_id@) == Err::<(int, Seq<char>), Seq<char>>(m@),
        },
{
    let i = match find_story(board, story_id) {
        None => return Err(concat2("Story not found: ", story_id)),
        Some(i) => i,
    };
    let j = match find_voyage(board, voyage_id) {
        None => return Err(concat2("Voyage not found: ", voyage_id)),
        Some(j) => j,
    };
    let v = &board.voyages[j];
    let scope = concat3(v.epic_id.as_str(), "/", v.id.as_str());
    let s = &board.stories[i];
    let linked = match &s.scope {
        Some(x) => str_eq(x.as_str(), scope.as_str()),
        None => false,
    };
    if linked {
        let mut m = concat3("Story ", s.id.as_str(), " is already linked to ");
        m.append(scope.as_str());
        return Err(m);
    }
    Ok((i, scope))
}


} // verus!

//! Creating a voyage: its number within the epic and the checks on its
//! goal and epic.

use vstd::prelude::*;
use crate::board::{Board, Voyage, epic_ids, first_index_of};
use crate::text::{str_eq, trim, trim_spec, concat2};
use crate::flow_format::{lemma_first_at, lemma_first_absent};

verus! {

/// The largest index among the voyages of epic `epic` (0 when none has one).
pub open spec fn max_voyage_index(voyages: Seq<Voyage>, epic: Seq<char>) -> nat
    decreases voyages.len(),
{
    if voyages.len() == 0 {
        0
    } else {
        let m = max_voyage_index(voyages.drop_last(), epic);
        let v = voyages.last();
        if v.epic_id@ == epic && v.index is Some && v.index->0 > m {
            v.index->0 as nat
        } else {
            m
        }
    }
}

/// The number a new voyage of `epic_id` takes: one past the largest index.
pub fn find_next_voyage_num(board: &Board, epic_id: &str) -> (r: u32)
    requires
        max_voyage_index(board.voyages@, epic_id@) < u32::MAX,
    ensures
        r == max_voyage_index(board.voyages@, epic_id@) + 1,
{
    let mut m: u32 = 0;
    let mut k: usize = 0;
    while k < board.voyages.len()
        invariant
            k <= board.voyages.len(),
            m == max_voyage_index(board.voyages@.take(k as int), epic_id@),
        decreases board.voyages.len() - k,
    {
        assert(board.voyages@.take(k + 1).drop_last() =~= board.voyages@.take(k as int));
        let v = &board.voyages[k];
        match v.index {
            Some(i) => {
                if str_eq(v.epic_id.as_str(), epic_id) && i > m {
                    m = i;
                }
            },
            None => {},
        }
        k = k + 1;
    }
    assert(board.voyages@.take(k as int) =~= board.voyages@);
    m + 1
}

/// Whether a voyage may be created: its goal must not be blank, and its
/// epic must exist; then the voyage's number.
pub open spec fn new_voyage_spec(b: Board, epic_id: Seq<char>, goal: Seq<char>) -> Result<nat, Seq<char>> {
    if trim_spec(goal).len() == 0 {
        Err("goal is required (use --goal when creating voyage)"@)
    } else if first_index_of(epic_ids(b), epic_id) is None {
        Err("Epic not found: "@ + epic_id)
    } else {
        Ok(max_voyage_index(b.voyages@, epic_id) + 1)
    }
}

/// Checks a new voyage and gives its number.
pub fn check_new_voyage(board: &Board, epic_id: &str, goal: &str) -> (r: Result<u32, String>)
    requires
        max_voyage_index(board.voyages@, epic_id@) < u32::MAX,
    ensures
        match r {
            Ok(n) => new_voyage_spec(*board, epic_id@, goal@) == Ok::<nat, Seq<char>>(n as nat),
            Err(m) => new_voyage_spec(*board, epic_id@, goal@) == Err::<nat, Seq<char>>(m@),
        },
{
    if trim(goal).unicode_len() == 0 {
        return Err(crate::text::owned("goal is required (use --goal when creating voyage)"));
    }
    let mut k: usize = 0;
    while k < board.epics.len()
        invariant
            k <= board.epics.len(),
            forall|j: int| 0 <= j < k ==> (#[trigger] board.epics@[j]).id@ != epic_id@,
            max_voyage_index(board.voyages@, epic_id@) < u32::MAX,
            trim_spec(goal@).len() > 0,
        decreases board.epics.len() - k,
    {
        if str_eq(board.epics[k].id.as_str(), epic_id) {
            proof {
                lemma_first_at(epic_ids(*board), epic_id@, k as int);
            }
            return Ok(find_next_voyage_num(board, epic_id));
        }
        k = k + 1;
    }
    proof {
        assert forall|j: int| 0 <= j < epic_ids(*board).len() implies epic_ids(*board)[j] != epic_id@ by {
            assert(board.epics@[j].id@ != epic_id@);
        }
        lemma_first_absent(epic_ids(*board), epic_id@);
    }
    Err(concat2("Epic not found: ", epic_id))
}

} // verus!

//! The preconditions of starting a voyage: it exists, the board is the
//! version the caller expects, the voyage is draft or planned, and none of
//! its stories is underway.

use vstd::prelude::*;
use crate::model::{StoryState, VoyageState, story_state_label, voyage_state_label};
use crate::board::{Board, Story, opt_view, scope_epic, scope_voyage, voyage_ids, first_index_of,
    epic_of_scope, voyage_of_scope};
use crate::text::{str_eq, concat2, concat3, decimal, join_with};
use crate::flow_format::{lemma_first_at, lemma_first_absent};

verus! {

/// A story that keeps a voyage from starting: it is in progress or
/// awaiting verification. Queued (backlog, icebox) and finished (done,
/// rejected) stories do not block.
pub open spec fn blocks_start(s: Story) -> bool {
    s.stage == StoryState::InProgress || s.stage == StoryState::NeedsHumanVerification
}

/// The story belongs to voyage `id` of epic `epic`.
pub open spec fn in_voyage(s: Story, epic: Seq<char>, id: Seq<char>) -> bool {
    scope_epic(opt_view(s.scope)) == Some(epic) && scope_voyage(opt_view(s.scope)) == Some(id)
}

/// How a blocking story is listed.
pub open spec fn blocker_entry(s: Story) -> Seq<char> {
    s.id@ + " ("@ + story_state_label(s.stage) + ")"@
}

/// The stories of the voyage that block its start, in board order.
pub open spec fn start_blockers(stories: Seq<Story>, epic: Seq<char>, id: Seq<char>) -> Seq<Story> {
    stories.filter(|s: Story| in_voyage(s, epic, id) && blocks_start(s))
}

/// What starting voyage `id` gives: the first failing check's message, or
/// success.
pub open spec fn voyage_start_spec(b: Board, id: Seq<char>, expect: Option<u64>, actual: u64) -> Result<(), Seq<char>> {
    match first_index_of(voyage_ids(b), id) {
        None => Err("Voyage not found: "@ + id),
        Some(i) => {
            let v = b.voyages@[i];
            if expect is Some && expect->0 != actual {
                Err("Board version mismatch: expected "@ + decimal(expect->0 as nat) + ", actual "@
                    + decimal(actual as nat))
            } else if v.status != VoyageState::Draft && v.status != VoyageState::Planned {
                Err("Cannot start voyage "@ + id + ": it is "@ + voyage_state_label(v.status)
                    + " (expected draft or planned)"@)
            } else {
                let blockers = start_blockers(b.stories@, v.epic_id@, id);
                if blockers.len() > 0 {
                    Err("Cannot start voyage "@ + id + ": stories still underway: "@
                        + join_with(blockers.map_values(|s: Story| blocker_entry(s)), ", "@))
                } else {
                    Ok(())
                }
            }
        },
    }
}

fn u64_to_string(n: u64) -> (r: String)
    ensures
        r@ == decimal(n as nat),
    decreases n,
{
    if n < 10 {
        crate::text::usize_to_string(n as usize)
    } else {
        let mut r = u64_to_string(n / 10);
        let d = crate::text::usize_to_string((n % 10) as usize);
        assert(decimal((n % 10) as nat) == seq![crate::text::digit_char((n % 10) as nat)]);
        r.append(d.as_str());
        r
    }
}

pub fn story_in_voyage(s: &Story, epic: &str, id: &str) -> (r: bool)
    ensures
        r == in_voyage(*s, epic@, id@),
{
    let e = epic_of_scope(&s.scope);
    let v = voyage_of_scope(&s.scope);
    match (e, v) {
        (Some(x), Some(y)) => str_eq(x.as_str(), epic) && str_eq(y.as_str(), id),
        _ => false,
    }
}

/// Checks whether voyage `id` may start on a board of version `actual`
/// (`expect` is the version the caller saw, if it gave one).
pub fn run(board: &Board, id: &str, expect: Option<u64>, actual: u64) -> (r: Result<(), String>)
    ensures
        match r {
            Ok(()) => voyage_start_spec(*board, id@, expect, actual) is Ok,
            Err(m) => voyage_start_spec(*board, id@, expect, actual) == Err::<(), Seq<char>>(m@),
        },
{
    let mut k: usize = 0;
    while k < board.voyages.len()
        invariant_except_break
            k <= board.voyages.len(),
            forall|j: int| 0 <= j < k ==> (#[trigger] board.voyages@[j]).id@ != id@,
        ensures
            k <= board.voyages.len(),
            forall|j: int| 0 <= j < k ==> (#[trigger] board.voyages@[j]).id@ != id@,
            k < board.voyages.len() ==> board.voyages@[k as int].id@ == id@,
        decreases board.voyages.len() - k,
    {
        if str_eq(board.voyages[k].id.as_str(), id) {
            break;
        }
        k = k + 1;
    }
    if k == board.voyages.len() {
        proof {
            assert forall|j: int| 0 <= j < voyage_ids(*board).len() implies voyage_ids(*board)[j] != id@ by {
                assert(board.voyages@[j].id@ != id@);
            }
            lemma_first_absent(voyage_ids(*board), id@);
        }
        return Err(concat2("Voyage not found: ", id));
    }
    proof {
        lemma_first_at(voyage_ids(*board), id@, k as int);
    }
    let v = &board.voyages[k];
    match expect {
        Some(e) => {
            if e != actual {
                let mut m = concat2("Board version mismatch: expected ", u64_to_string(e).as_str());
                m.append(", actual ");
                m.append(u64_to_string(actual).as_str());
                return Err(m);
            }
        },
        None => {},
    }
    if !matches!(v.status, VoyageState::Draft | VoyageState::Planned) {
        let mut m = concat3("Cannot start voyage ", id, ": it is ");
        m.append(v.status.label().as_str());
        m.append(" (expected draft or planned)");
        return Err(m);
    }
    let ghost pred = |s: Story| in_voyage(s, v.epic_id@, id@) && blocks_start(s);
    let ghost sv = board.stories@;
    let mut listed = String::new();
    let mut count: usize = 0;
    let mut j: usize = 0;
    assert(sv.take(0).filter(pred) =~= Seq::<Story>::empty()) by {
        reveal(Seq::filter);
    }
    while j < board.stories.len()
        invariant
            sv == board.stories@,
            pred == (|s: Story| in_voyage(s, v.epic_id@, id@) && blocks_start(s)),
            j <= sv.len(),
            count == sv.take(j as int).filter(pred).len(),
            listed@ == join_with(sv.take(j as int).filter(pred).map_values(|s: Story| blocker_entry(s)), ", "@),
        decreases sv.len() - j,
    {
        assert(sv.take(j + 1).drop_last() =~= sv.take(j as int));
        assert(sv.take(j + 1).filter(pred) == if pred(sv[j as int]) {
            sv.take(j as int).filter(pred).push(sv[j as int])
        } else {
            sv.take(j as int).filter(pred)
        }) by {
            reveal(Seq::filter);
        }
        let s = &board.stories[j];
        if story_in_voyage(s, v.epic_id.as_str(), id)
            && matches!(s.stage, StoryState::InProgress | StoryState::NeedsHumanVerification) {
            let ghost f = sv.take(j as int).filter(pred);
            assert(f.push(sv[j as int]).map_values(|s: Story| blocker_entry(s))
                =~= f.map_values(|s: Story| blocker_entry(s)).push(blocker_entry(sv[j as int])));
            assert(f.push(sv[j as int]).map_values(|s: Story| blocker_entry(s)).drop_last()
                =~= f.map_values(|s: Story| blocker_entry(s)));
            if count > 0 {
                listed.append(", ");
            }
            listed.append(s.id.as_str());
            listed.append(" (");
            listed.append(s.stage.label().as_str());
            listed.append(")");
            proof {
                lemma_filter_len_bound(sv.take(j as int), pred);
            }
            count = count + 1;
        }
        j = j + 1;
    }
    assert(sv.take(j as int) =~= sv);
    if count > 0 {
        let mut m = concat3("Cannot start voyage ", id, ": stories still underway: ");
        m.append(listed.as_str());
        return Err(m);
    }
    Ok(())
}

proof fn lemma_filter_len_bound(s: Seq<Story>, pred: spec_fn(Story) -> bool)
    ensures
        s.filter(pred).len() <= s.len(),
    decreases s.len(),
{
    reveal(Seq::filter);
    if s.len() > 0 {
        lemma_filter_len_bound(s.drop_last(), pred);
    }
}

} // verus!

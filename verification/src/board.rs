//! The board as the dashboards and commands read it: stories, voyages,
//! epics and bearings, with the values their rules depend on.

use vstd::prelude::*;
use crate::model::{StoryState, VoyageState, BearingStatus, StoryType};
use crate::text::{char_pos, lemma_char_pos_at, str_chars, string_from_chars, str_eq};
use crate::order::{SortKey, KeyView};

verus! {

/// A story. Timestamps are seconds on one fixed clock.
#[derive(Clone, Debug)]
pub struct Story {
    pub id: String,
    pub title: String,
    pub stage: StoryState,
    pub story_type: StoryType,
    pub scope: Option<String>,
    pub index: Option<u32>,
    pub submitted_at: Option<i64>,
    pub updated_at: Option<i64>,
}

/// A voyage; `epic` is the epic named in its frontmatter, `epic_id` the
/// epic whose directory holds it.
#[derive(Clone, Debug)]
pub struct Voyage {
    pub id: String,
    pub title: String,
    pub status: VoyageState,
    pub epic: Option<String>,
    pub epic_id: String,
    pub index: Option<u32>,
}

/// An epic.
#[derive(Clone, Debug)]
pub struct Epic {
    pub id: String,
    pub title: String,
    pub index: Option<u32>,
}

/// A research bearing and the artifacts it has so far.
#[derive(Clone, Debug)]
pub struct Bearing {
    pub id: String,
    pub title: String,
    pub status: BearingStatus,
    pub has_survey: bool,
    pub has_assessment: bool,
}

/// Decision state of an architecture decision record.
#[derive(Clone, Copy, Debug, PartialEq, Eq, Structural)]
pub enum AdrStatus {
    Proposed,
    Accepted,
    Rejected,
    Superseded,
}

/// An architecture decision record and the bounded contexts it covers.
#[derive(Clone, Debug)]
pub struct Adr {
    pub id: String,
    pub title: String,
    pub status: AdrStatus,
    pub context: Option<String>,
    pub applies_to: Vec<String>,
}

/// All entities of a board, in the order in which they were loaded.
#[derive(Clone, Debug)]
pub struct Board {
    pub stories: Vec<Story>,
    pub voyages: Vec<Voyage>,
    pub epics: Vec<Epic>,
    pub bearings: Vec<Bearing>,
    pub adrs: Vec<Adr>,
}

impl Board {
    /// A board with nothing on it.
    pub fn new() -> (b: Board)
        ensures
            b.stories@.len() == 0,
            b.voyages@.len() == 0,
            b.epics@.len() == 0,
            b.bearings@.len() == 0,
            b.adrs@.len() == 0,
    {
        Board { stories: Vec::new(), voyages: Vec::new(), epics: Vec::new(), bearings: Vec::new(), adrs: Vec::new() }
    }
}

/// The option's value viewed as characters.
pub open spec fn opt_view(o: Option<String>) -> Option<Seq<char>> {
    match o {
        Some(s) => Some(s@),
        None => None,
    }
}

/// The first `/`-separated segment of a scope (`str::split('/').next()`).
pub open spec fn first_segment(s: Seq<char>) -> Seq<char> {
    match char_pos(s, '/') {
        Some(i) => s.take(i),
        None => s,
    }
}

/// The second segment of a scope, if there is one.
pub open spec fn second_segment(s: Seq<char>) -> Option<Seq<char>> {
    match char_pos(s, '/') {
        Some(i) => Some(first_segment(s.skip(i + 1))),
        None => None,
    }
}

/// The epic a scope names.
pub open spec fn scope_epic(scope: Option<Seq<char>>) -> Option<Seq<char>> {
    match scope {
        Some(s) => Some(first_segment(s)),
        None => None,
    }
}

/// The voyage a scope names.
pub open spec fn scope_voyage(scope: Option<Seq<char>>) -> Option<Seq<char>> {
    match scope {
        Some(s) => second_segment(s),
        None => None,
    }
}

/// Splits `s` at its first `/`: the part before it and, if there is one,
/// the part after it.
fn split_first_slash(s: &Vec<char>) -> (r: (Vec<char>, Option<Vec<char>>))
    ensures
        r.0@ == first_segment(s@),
        match char_pos(s@, '/') {
            Some(i) => r.1 is Some && r.1->0@ == s@.skip(i + 1),
            None => r.1 is None,
        },
{
    let mut i: usize = 0;
    while i < s.len() && s[i] != '/'
        invariant
            i <= s.len(),
            forall|j: int| 0 <= j < i ==> s@[j] != '/',
        decreases s.len() - i,
    {
        i = i + 1;
    }
    proof {
        lemma_char_pos_at(s@, '/', i as int);
    }
    let mut head: Vec<char> = Vec::new();
    let mut k: usize = 0;
    while k < i
        invariant
            i <= s.len(),
            k <= i,
            head@ == s@.take(k as int),
        decreases i - k,
    {
        head.push(s[k]);
        k = k + 1;
        assert(head@ =~= s@.take(k as int));
    }
    if i == s.len() {
        assert(s@.take(i as int) =~= s@);
        (head, None)
    } else {
        let mut tail: Vec<char> = Vec::new();
        let mut m: usize = i + 1;
        while m < s.len()
            invariant
                i < s.len(),
                i + 1 <= m <= s.len(),
                tail@ == s@.subrange(i + 1, m as int),
            decreases s.len() - m,
        {
            tail.push(s[m]);
            m = m + 1;
            assert(tail@ =~= s@.subrange(i + 1, m as int));
        }
        assert(tail@ =~= s@.skip(i + 1));
        (head, Some(tail))
    }
}

/// The epic a scope names: its first segment.
pub fn epic_of_scope(scope: &Option<String>) -> (r: Option<String>)
    ensures
        opt_view(r) == scope_epic(opt_view(*scope)),
{
    match scope {
        Some(s) => {
            let cs = str_chars(s.as_str());
            let (head, _) = split_first_slash(&cs);
            Some(string_from_chars(head.as_slice()))
        },
        None => None,
    }
}

/// The voyage a scope names: its second segment, if any.
pub fn voyage_of_scope(scope: &Option<String>) -> (r: Option<String>)
    ensures
        opt_view(r) == scope_voyage(opt_view(*scope)),
{
    match scope {
        Some(s) => {
            let cs = str_chars(s.as_str());
            let (_, rest) = split_first_slash(&cs);
            match rest {
                Some(t) => {
                    let (head, _) = split_first_slash(&t);
                    Some(string_from_chars(head.as_slice()))
                },
                None => None,
            }
        },
        None => None,
    }
}

/// The ids of the epics, in board order.
pub open spec fn epic_ids(b: Board) -> Seq<Seq<char>> {
    b.epics@.map_values(|e: Epic| e.id@)
}

/// The ids of the voyages, in board order.
pub open spec fn voyage_ids(b: Board) -> Seq<Seq<char>> {
    b.voyages@.map_values(|v: Voyage| v.id@)
}

/// The ids of the stories, in board order.
pub open spec fn story_ids(b: Board) -> Seq<Seq<char>> {
    b.stories@.map_values(|s: Story| s.id@)
}

/// The first position holding `id`.
pub open spec fn first_index_of(ids: Seq<Seq<char>>, id: Seq<char>) -> Option<int>
    decreases ids.len(),
{
    if ids.len() == 0 {
        None
    } else if ids.last() == id {
        match first_index_of(ids.drop_last(), id) {
            Some(i) => Some(i),
            None => Some(ids.len() - 1),
        }
    } else {
        first_index_of(ids.drop_last(), id)
    }
}

proof fn lemma_first_index_of_prefix(ids: Seq<Seq<char>>, id: Seq<char>, n: int)
    requires
        0 <= n < ids.len(),
    ensures
        first_index_of(ids.take(n + 1), id) == (if first_index_of(ids.take(n), id) is Some {
            first_index_of(ids.take(n), id)
        } else if ids[n] == id {
            Some(n)
        } else {
            None
        }),
{
    assert(ids.take(n + 1).drop_last() =~= ids.take(n));
}

/// Looks `id` up among `ids`: the first position that holds it.
fn find_id(ids: &Vec<String>, id: &str) -> (r: Option<usize>)
    ensures
        match r {
            Some(i) => Some(i as int),
            None => None::<int>,
        } == first_index_of(ids@.map_values(|s: String| s@), id@),
        r matches Some(i) ==> i < ids@.len() && ids@[i as int]@ == id@,
{
    let ghost v = ids@.map_values(|s: String| s@);
    let mut k: usize = 0;
    assert(v.take(0) =~= Seq::<Seq<char>>::empty());
    while k < ids.len()
        invariant
            v == ids@.map_values(|s: String| s@),
            k <= ids.len(),
            first_index_of(v.take(k as int), id@) is None,
        decreases ids.len() - k,
    {
        proof {
            lemma_first_index_of_prefix(v, id@, k as int);
        }
        if str_eq(ids[k].as_str(), id) {
            proof {
                if k + 1 < v.len() {
                    assert(v.take(k + 1) =~= v.take((k + 1) as int));
                }
                lemma_first_index_of_take(v, id@, k as int);
            }
            proof {
                lemma_first_index_of_found(v, id@);
            }
            return Some(k);
        }
        k = k + 1;
    }
    assert(v.take(k as int) =~= v);
    None
}

/// A found position is in range and holds the id.
pub proof fn lemma_first_index_of_found(ids: Seq<Seq<char>>, id: Seq<char>)
    ensures
        first_index_of(ids, id) matches Some(i) ==> 0 <= i < ids.len() && ids[i] == id,
    decreases ids.len(),
{
    if ids.len() > 0 {
        lemma_first_index_of_found(ids.drop_last(), id);
    }
}

proof fn lemma_first_index_of_take(ids: Seq<Seq<char>>, id: Seq<char>, k: int)
    requires
        0 <= k < ids.len(),
        first_index_of(ids.take(k + 1), id) == Some(k),
    ensures
        first_index_of(ids, id) == Some(k),
    decreases ids.len(),
{
    if ids.len() == k + 1 {
        assert(ids.take(k + 1) =~= ids);
    } else {
        assert(ids.drop_last().take(k + 1) =~= ids.take(k + 1));
        lemma_first_index_of_take(ids.drop_last(), id, k);
    }
}

/// The index of the epic with `id`, if the board has one (0 otherwise).
pub open spec fn epic_index_of(b: Board, id: Option<Seq<char>>) -> int {
    match id {
        Some(e) => match first_index_of(epic_ids(b), e) {
            Some(i) => match b.epics@[i].index {
                Some(x) => x as int,
                None => 0,
            },
            None => 0,
        },
        None => 0,
    }
}

/// The index of the voyage with `id`, if the board has one (0 otherwise).
pub open spec fn voyage_index_of(b: Board, id: Option<Seq<char>>) -> int {
    match id {
        Some(v) => match first_index_of(voyage_ids(b), v) {
            Some(i) => match b.voyages@[i].index {
                Some(x) => x as int,
                None => 0,
            },
            None => 0,
        },
        None => 0,
    }
}

/// The listing rank of a story: its epic's index, its voyage's index, its
/// own index (missing ones count as 0), then its id.
pub open spec fn story_rank(b: Board, s: Story) -> KeyView {
    (
        epic_index_of(b, scope_epic(opt_view(s.scope))),
        Seq::empty(),
        voyage_index_of(b, scope_voyage(opt_view(s.scope))),
        match s.index { Some(x) => x as int, None => 0 },
        s.id@,
    )
}

/// The epic ids as a list of strings.
fn epic_id_list(b: &Board) -> (r: Vec<String>)
    ensures
        r@.map_values(|s: String| s@) == epic_ids(*b),
        r@.len() == b.epics@.len(),
{
    let mut r: Vec<String> = Vec::new();
    let mut k: usize = 0;
    while k < b.epics.len()
        invariant
            k <= b.epics.len(),
            r@.len() == k,
            forall|i: int| 0 <= i < k ==> #[trigger] r@[i]@ == b.epics@[i].id@,
        decreases b.epics.len() - k,
    {
        r.push(b.epics[k].id.clone());
        k = k + 1;
    }
    assert(r@.map_values(|s: String| s@) =~= epic_ids(*b));
    r
}

/// The voyage ids as a list of strings.
fn voyage_id_list(b: &Board) -> (r: Vec<String>)
    ensures
        r@.map_values(|s: String| s@) == voyage_ids(*b),
        r@.len() == b.voyages@.len(),
{
    let mut r: Vec<String> = Vec::new();
    let mut k: usize = 0;
    while k < b.voyages.len()
        invariant
            k <= b.voyages.len(),
            r@.len() == k,
            forall|i: int| 0 <= i < k ==> #[trigger] r@[i]@ == b.voyages@[i].id@,
        decreases b.voyages.len() - k,
    {
        r.push(b.voyages[k].id.clone());
        k = k + 1;
    }
    assert(r@.map_values(|s: String| s@) =~= voyage_ids(*b));
    r
}

/// The listing rank of every story in `stories`, as sort keys.
pub fn story_rank_keys(b: &Board, stories: &Vec<Story>) -> (r: Vec<SortKey>)
    ensures
        r@.len() == stories@.len(),
        forall|i: int| 0 <= i < r@.len() ==> #[trigger] r@[i].view() == story_rank(*b, stories@[i]),
{
    let eids = epic_id_list(b);
    let vids = voyage_id_list(b);
    let mut r: Vec<SortKey> = Vec::new();
    let mut k: usize = 0;
    while k < stories.len()
        invariant
            eids@.map_values(|s: String| s@) == epic_ids(*b),
            vids@.map_values(|s: String| s@) == voyage_ids(*b),
            eids@.len() == b.epics@.len(),
            vids@.len() == b.voyages@.len(),
            k <= stories.len(),
            r@.len() == k,
            forall|i: int| 0 <= i < k ==> #[trigger] r@[i].view() == story_rank(*b, stories@[i]),
        decreases stories.len() - k,
    {
        let s = &stories[k];
        let e = epic_of_scope(&s.scope);
        let ei: i64 = match e {
            Some(ref x) => match find_id(&eids, x.as_str()) {
                Some(i) => match b.epics[i].index {
                    Some(v) => v as i64,
                    None => 0,
                },
                None => 0,
            },
            None => 0,
        };
        let v = voyage_of_scope(&s.scope);
        let vi: i64 = match v {
            Some(ref x) => match find_id(&vids, x.as_str()) {
                Some(i) => match b.voyages[i].index {
                    Some(w) => w as i64,
                    None => 0,
                },
                None => 0,
            },
            None => 0,
        };
        let si: i64 = match s.index {
            Some(x) => x as i64,
            None => 0,
        };
        r.push(SortKey { a: ei, pre: String::new(), b: vi, c: si, name: s.id.clone() });
        k = k + 1;
    }
    r
}

} // verus!

//! The story lifecycle gates: from which stages a story may be started,
//! iced, rejected or accepted and what each transition leads to; and which
//! recorded knowledge is relevant to a story.

use vstd::prelude::*;
use crate::model::{StoryState, story_state_label};
use crate::board::{Board, Story, story_ids, first_index_of};
use crate::story::guidance::StoryLifecycleAction;
use crate::text::{str_eq, owned, concat2, concat3, char_pos};
use crate::flow_format::{lemma_first_at, lemma_first_absent};

verus! {

// ---------------------------------------------------------------------
// Stage transitions
// ---------------------------------------------------------------------

/// The stages a story may leave by `action`: a story starts from the
/// backlog or after a rejection; it can be iced unless already iced or
/// done, and only an iced story thaws; only a story awaiting verification
/// is rejected or accepted.
pub open spec fn allowed_from(action: StoryLifecycleAction, s: StoryState) -> bool {
    match action {
        StoryLifecycleAction::Start => s == StoryState::Backlog || s == StoryState::Rejected,
        StoryLifecycleAction::Ice => s != StoryState::Icebox && s != StoryState::Done,
        StoryLifecycleAction::Reject => s == StoryState::NeedsHumanVerification,
        StoryLifecycleAction::Accept => s == StoryState::NeedsHumanVerification,
        StoryLifecycleAction::Thaw => s == StoryState::Icebox,
        _ => false,
    }
}

/// The stage a transition leads to.
pub open spec fn target_of(action: StoryLifecycleAction) -> StoryState {
    match action {
        StoryLifecycleAction::Start => StoryState::InProgress,
        StoryLifecycleAction::Ice => StoryState::Icebox,
        StoryLifecycleAction::Reject => StoryState::Rejected,
        StoryLifecycleAction::Thaw => StoryState::Backlog,
        _ => StoryState::Done,
    }
}

/// The verb of an action in messages.
pub open spec fn verb_of(action: StoryLifecycleAction) -> Seq<char> {
    match action {
        StoryLifecycleAction::Start => "start"@,
        StoryLifecycleAction::Ice => "ice"@,
        StoryLifecycleAction::Reject => "reject"@,
        StoryLifecycleAction::Thaw => "thaw"@,
        _ => "accept"@,
    }
}

/// The message for a story whose stage does not allow the action.
pub open spec fn stage_refusal(action: StoryLifecycleAction, id: Seq<char>, s: StoryState) -> Seq<char> {
    "Cannot "@ + verb_of(action) + " story "@ + id + ": it is "@ + story_state_label(s)
}

/// The story with id `id` and the stage `action` moves it to, or why not.
pub open spec fn transition_spec(b: Board, action: StoryLifecycleAction, id: Seq<char>) -> Result<(int, StoryState), Seq<char>> {
    match first_index_of(story_ids(b), id) {
        None => Err("Story not found: "@ + id),
        Some(i) => {
            let s = b.stories@[i].stage;
            if allowed_from(action, s) { Ok((i, target_of(action))) } else { Err(stage_refusal(action, id, s)) }
        },
    }
}

/// A gated lifecycle action: start, ice, thaw, reject or accept.
pub open spec fn gated(action: StoryLifecycleAction) -> bool {
    action == StoryLifecycleAction::Start || action == StoryLifecycleAction::Ice
        || action == StoryLifecycleAction::Thaw
        || action == StoryLifecycleAction::Reject || action == StoryLifecycleAction::Accept
}

fn verb(action: StoryLifecycleAction) -> (r: &'static str)
    ensures
        r@ == verb_of(action),
{
    match action {
        StoryLifecycleAction::Start => "start",
        StoryLifecycleAction::Ice => "ice",
        StoryLifecycleAction::Reject => "reject",
        StoryLifecycleAction::Thaw => "thaw",
        _ => "accept",
    }
}

pub fn find_story(board: &Board, id: &str) -> (r: Option<usize>)
    ensures
        match r {
            Some(i) => first_index_of(story_ids(*board), id@) == Some(i as int) && i < board.stories@.len(),
            None => first_index_of(story_ids(*board), id@) is None,
        },
{
    let mut k: usize = 0;
    while k < board.stories.len()
        invariant
            k <= board.stories.len(),
            forall|j: int| 0 <= j < k ==> (#[trigger] board.stories@[j]).id@ != id@,
        decreases board.stories.len() - k,
    {
        if str_eq(board.stories[k].id.as_str(), id) {
            proof { lemma_first_at(story_ids(*board), id@, k as int); }
            return Some(k);
        }
        k = k + 1;
    }
    proof {
        assert forall|j: int| 0 <= j < story_ids(*board).len() implies story_ids(*board)[j] != id@ by {
            assert(board.stories@[j].id@ != id@);
        }
        lemma_first_absent(story_ids(*board), id@);
    }
    None
}

/// Checks that story `id` may take `action` (start, ice, thaw, reject or
/// accept): its position and the stage it moves to, or why not.
pub fn check_transition(board: &Board, action: StoryLifecycleAction, id: &str) -> (r: Result<(usize, StoryState), String>)
    requires
        gated(action),
    ensures
        match r {
            Ok((i, s)) => transition_spec(*board, action, id@) == Ok::<(int, StoryState), Seq<char>>((i as int, s)),
            Err(m) => transition_spec(*board, action, id@) == Err::<(int, StoryState), Seq<char>>(m@),
        },
{
    match find_story(board, id) {
        None => Err(concat2("Story not found: ", id)),
        Some(i) => {
            let s = board.stories[i].stage;
            let ok = match action {
                StoryLifecycleAction::Start => matches!(s, StoryState::Backlog | StoryState::Rejected),
                StoryLifecycleAction::Ice => !matches!(s, StoryState::Icebox | StoryState::Done),
                StoryLifecycleAction::Thaw => matches!(s, StoryState::Icebox),
                _ => matches!(s, StoryState::NeedsHumanVerification),
            };
            if ok {
                let t = match action {
                    StoryLifecycleAction::Start => StoryState::InProgress,
                    StoryLifecycleAction::Ice => StoryState::Icebox,
                    StoryLifecycleAction::Reject => StoryState::Rejected,
                    StoryLifecycleAction::Thaw => StoryState::Backlog,
                    _ => StoryState::Done,
                };
                Ok((i, t))
            } else {
                let mut m = concat3("Cannot ", verb(action), " story ");
                m.append(id);
                m.append(": it is ");
                m.append(s.label().as_str());
                Err(m)
            }
        },
    }
}

// ---------------------------------------------------------------------
// Knowledge relevance
// ---------------------------------------------------------------------

/// The epic a scope `epic/voyage` belongs to.
pub open spec fn scope_epic_of(scope: Seq<char>) -> Seq<char> {
    match char_pos(scope, '/') {
        Some(i) => scope.take(i),
        None => scope,
    }
}

/// Knowledge recorded in scope `knowledge_scope` is relevant to a story of
/// epic `epic_id` in scope `scope` when it comes from the same epic or the
/// same scope.
pub open spec fn relevant_spec(knowledge_scope: Option<Seq<char>>, epic_id: Option<Seq<char>>, scope: Option<Seq<char>>) -> bool {
    match knowledge_scope {
        None => false,
        Some(k) => (epic_id matches Some(e) && scope_epic_of(k) == e) || scope == Some(k),
    }
}

fn epic_part(scope: &str) -> (r: String)
    ensures
        r@ == scope_epic_of(scope@),
{
    let cs = crate::text::str_chars(scope);
    let mut i: usize = 0;
    while i < cs.len()
        invariant
            cs@ == scope@,
            i <= cs.len(),
            forall|j: int| 0 <= j < i ==> cs@[j] != '/',
        decreases cs.len() - i,
    {
        if cs[i] == '/' {
            proof { crate::text::lemma_char_pos_at(scope@, '/', i as int); }
            let r = scope.substring_char(0, i);
            assert(r@ =~= scope@.take(i as int));
            return owned(r);
        }
        i = i + 1;
    }
    proof { crate::text::lemma_char_pos_at(scope@, '/', i as int); }
    owned(scope)
}

/// Whether knowledge recorded in `knowledge_scope` is relevant to a story of
/// epic `epic_id` in scope `scope`.
pub fn is_relevant_knowledge(knowledge_scope: Option<&str>, epic_id: Option<&str>, scope: Option<&str>) -> (b: bool)
    ensures
        b == relevant_spec(match knowledge_scope { Some(k) => Some(k@), None => None },
            match epic_id { Some(e) => Some(e@), None => None }, match scope { Some(s) => Some(s@), None => None }),
{
    match knowledge_scope {
        None => false,
        Some(k) => {
            let same_epic = match epic_id {
                Some(e) => str_eq(epic_part(k).as_str(), e),
                None => false,
            };
            let same_scope = match scope {
                Some(s) => str_eq(s, k),
                None => false,
            };
            same_epic || same_scope
        },
    }
}


} // verus!

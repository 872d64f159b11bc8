//! Next-step and recovery guidance for story lifecycle commands.

use vstd::prelude::*;
use crate::guidance::{error_with_guidance, error_with_guidance_spec, guidance_view,
    render_command_guidance, CanonicalGuidance, CommandGuidance};
use crate::model::StoryState;
use crate::text::{ascii_lower, concat2, owned, seq_contains, str_contains, to_ascii_lowercase};

verus! {

/// A story lifecycle command.
#[derive(Clone, Copy, Debug, PartialEq, Eq, Structural)]
pub enum StoryLifecycleAction {
    Start,
    Reflect,
    Record,
    Submit,
    Accept,
    Reject,
    Ice,
    Thaw,
}

/// The next lifecycle command for a story in `state`.
pub open spec fn next_command_spec(state: StoryState, id: Seq<char>) -> Option<Seq<char>> {
    match state {
        StoryState::Backlog | StoryState::Rejected => Some("keel story start "@ + id),
        StoryState::InProgress => Some("keel story submit "@ + id),
        StoryState::NeedsHumanVerification => Some("keel story accept "@ + id),
        StoryState::Icebox => Some("keel story thaw "@ + id),
        StoryState::Done => None,
    }
}

/// The canonical next lifecycle command for a story state (none once done).
pub fn next_command_for_state(state: StoryState, story_id: &str) -> (r: Option<String>)
    ensures
        match r { Some(s) => Some(s@), None => None } == next_command_spec(state, story_id@),
{
    match state {
        StoryState::Backlog | StoryState::Rejected => Some(concat2("keel story start ", story_id)),
        StoryState::InProgress => Some(concat2("keel story submit ", story_id)),
        StoryState::NeedsHumanVerification => Some(concat2("keel story accept ", story_id)),
        StoryState::Icebox => Some(concat2("keel story thaw ", story_id)),
        StoryState::Done => None,
    }
}

/// Guidance after an action succeeded: the next command for the resulting
/// state, and none after acceptance (done is terminal).
pub open spec fn action_guidance_spec(action: StoryLifecycleAction, state: StoryState, id: Seq<char>)
    -> Option<(Option<Seq<char>>, Option<Seq<char>>)>
{
    if action == StoryLifecycleAction::Accept {
        None
    } else {
        match next_command_spec(state, id) {
            Some(c) => Some((Some(c), None)),
            None => None,
        }
    }
}

/// Builds canonical guidance for a lifecycle action after it succeeds.
pub fn guidance_for_action(action: StoryLifecycleAction, resulting_state: StoryState, story_id: &str) -> (r: Option<CanonicalGuidance>)
    ensures
        guidance_view(r) == action_guidance_spec(action, resulting_state, story_id@),
{
    if action == StoryLifecycleAction::Accept {
        return None;
    }
    let g = match next_command_for_state(resulting_state, story_id) {
        Some(c) => Some(CommandGuidance::next(c)),
        None => None,
    };
    render_command_guidance(g)
}

/// `m` mentions `p`.
pub open spec fn has(m: Seq<char>, p: Seq<char>) -> bool {
    seq_contains(m, p)
}

/// The recovery command for a failure message (matched case-insensitively).
pub open spec fn recovery_command_spec(action: StoryLifecycleAction, id: Seq<char>, message: Seq<char>) -> Option<Seq<char>> {
    let m = ascii_lower(message);
    if has(m, "not found"@) {
        Some("keel story list"@)
    } else {
        match action {
            StoryLifecycleAction::Start =>
                if has(m, "board state has changed"@) { Some("keel status"@) }
                else if has(m, "cannot start"@) { Some("keel story show "@ + id) }
                else { None },
            StoryLifecycleAction::Submit =>
                if has(m, "reflect.md missing in bundle"@) { Some("keel story reflect "@ + id) }
                else if has(m, "unchecked acceptance criteria"@)
                    || has(m, "missing verification annotations"@)
                    || has(m, "missing srs refs"@)
                    || has(m, "missing evidence chain phase markers"@)
                    || has(m, "evidence directory missing in bundle"@)
                    || has(m, "verification failed"@)
                    || has(m, "unresolved scaffold/default text"@) { Some("keel verify run "@ + id) }
                else if has(m, "cannot submit"@) { Some("keel story show "@ + id) }
                else { None },
            StoryLifecycleAction::Accept =>
                if has(m, "manual acceptance criteria"@) || has(m, "use --human"@) {
                    Some("keel story accept "@ + id + " --human"@)
                } else if has(m, "reflect.md missing in bundle"@) { Some("keel story reflect "@ + id) }
                else if has(m, "evidence directory missing in bundle"@)
                    || has(m, "unresolved scaffold/default text"@) { Some("keel verify run "@ + id) }
                else if has(m, "cannot accept"@) { Some("keel story show "@ + id) }
                else { None },
            StoryLifecycleAction::Reject =>
                if has(m, "cannot reject"@) { Some("keel story show "@ + id) } else { None },
            StoryLifecycleAction::Ice =>
                if has(m, "cannot ice"@) { Some("keel story show "@ + id) } else { None },
            StoryLifecycleAction::Thaw =>
                if has(m, "cannot thaw"@) { Some("keel story show "@ + id) } else { None },
            StoryLifecycleAction::Reflect =>
                if has(m, "in backlog status"@) { Some("keel story start "@ + id) }
                else if has(m, "in icebox status"@) { Some("keel story thaw "@ + id) }
                else if has(m, "reflect.md already exists"@) { Some("keel story submit "@ + id) }
                else { None },
            StoryLifecycleAction::Record =>
                if has(m, "no acceptance criteria with verify annotations"@)
                    || has(m, "ac index"@)
                    || has(m, "no command specified"@) { Some("keel story show "@ + id) }
                else if has(m, "command failed with exit code"@) { Some("keel verify run "@ + id) }
                else { None },
        }
    }
}

/// Chooses the recovery command for a failed lifecycle action from its message.
pub fn recovery_command_for_error(action: StoryLifecycleAction, story_id: &str, message: &str) -> (r: Option<String>)
    ensures
        match r { Some(s) => Some(s@), None => None } == recovery_command_spec(action, story_id@, message@),
{
    let lower = to_ascii_lowercase(message);
    let m = lower.as_str();
    if str_contains(m, "not found") {
        return Some(owned("keel story list"));
    }
    match action {
        StoryLifecycleAction::Start => {
            if str_contains(m, "board state has changed") {
                Some(owned("keel status"))
            } else if str_contains(m, "cannot start") {
                Some(concat2("keel story show ", story_id))
            } else {
                None
            }
        },
        StoryLifecycleAction::Submit => {
            if str_contains(m, "reflect.md missing in bundle") {
                Some(concat2("keel story reflect ", story_id))
            } else if str_contains(m, "unchecked acceptance criteria")
                || str_contains(m, "missing verification annotations")
                || str_contains(m, "missing srs refs")
                || str_contains(m, "missing evidence chain phase markers")
                || str_contains(m, "evidence directory missing in bundle")
                || str_contains(m, "verification failed")
                || str_contains(m, "unresolved scaffold/default text")
            {
                Some(concat2("keel verify run ", story_id))
            } else if str_contains(m, "cannot submit") {
                Some(concat2("keel story show ", story_id))
            } else {
                None
            }
        },
        StoryLifecycleAction::Accept => {
            if str_contains(m, "manual acceptance criteria") || str_contains(m, "use --human") {
                let mut c = concat2("keel story accept ", story_id);
                c.append(" --human");
                Some(c)
            } else if str_contains(m, "reflect.md missing in bundle") {
                Some(concat2("keel story reflect ", story_id))
            } else if str_contains(m, "evidence directory missing in bundle")
                || str_contains(m, "unresolved scaffold/default text")
            {
                Some(concat2("keel verify run ", story_id))
            } else if str_contains(m, "cannot accept") {
                Some(concat2("keel story show ", story_id))
            } else {
                None
            }
        },
        StoryLifecycleAction::Reject => {
            if str_contains(m, "cannot reject") { Some(concat2("keel story show ", story_id)) } else { None }
        },
        StoryLifecycleAction::Ice => {
            if str_contains(m, "cannot ice") { Some(concat2("keel story show ", story_id)) } else { None }
        },
        StoryLifecycleAction::Thaw => {
            if str_contains(m, "cannot thaw") { Some(concat2("keel story show ", story_id)) } else { None }
        },
        StoryLifecycleAction::Reflect => {
            if str_contains(m, "in backlog status") {
                Some(concat2("keel story start ", story_id))
            } else if str_contains(m, "in icebox status") {
                Some(concat2("keel story thaw ", story_id))
            } else if str_contains(m, "reflect.md already exists") {
                Some(concat2("keel story submit ", story_id))
            } else {
                None
            }
        },
        StoryLifecycleAction::Record => {
            if str_contains(m, "no acceptance criteria with verify annotations")
                || str_contains(m, "ac index")
                || str_contains(m, "no command specified")
            {
                Some(concat2("keel story show ", story_id))
            } else if str_contains(m, "command failed with exit code") {
                Some(concat2("keel verify run ", story_id))
            } else {
                None
            }
        },
    }
}

/// Recovery guidance for a failure: the recovery command, if one applies.
pub open spec fn recovery_guidance_spec(action: StoryLifecycleAction, id: Seq<char>, message: Seq<char>)
    -> Option<(Option<Seq<char>>, Option<Seq<char>>)>
{
    match recovery_command_spec(action, id, message) {
        Some(c) => Some((None, Some(c))),
        None => None,
    }
}

/// Builds canonical recovery guidance for a lifecycle action failure.
pub fn recovery_for_error(action: StoryLifecycleAction, story_id: &str, message: &str) -> (r: Option<CanonicalGuidance>)
    ensures
        guidance_view(r) == recovery_guidance_spec(action, story_id@, message@),
{
    let g = match recovery_command_for_error(action, story_id, message) {
        Some(c) => Some(CommandGuidance::recovery(c)),
        None => None,
    };
    render_command_guidance(g)
}

/// The failure message followed by its recovery guidance block, when a
/// recovery command applies.
pub fn error_with_recovery(action: StoryLifecycleAction, story_id: &str, message: &str) -> (r: String)
    ensures
        r@ == error_with_guidance_spec(message@, recovery_guidance_spec(action, story_id@, message@)),
{
    let g = recovery_for_error(action, story_id, message);
    match &g {
        Some(x) => error_with_guidance(message, Some(x)),
        None => error_with_guidance(message, None),
    }
}

} // verus!

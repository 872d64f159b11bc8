//! Next-step guidance for voyage lifecycle commands.

use vstd::prelude::*;
use crate::ansi::{bold, bold_spec};
use crate::guidance::{guidance_view, render_command_guidance, CanonicalGuidance, CommandGuidance};
use crate::text::{concat2, concat3};

verus! {

/// A voyage lifecycle command.
#[derive(Clone, Copy, Debug, PartialEq, Eq, Structural)]
pub enum VoyageLifecycleAction {
    Plan,
    Start,
    Done,
}

/// The next command after a voyage action: start after planning, done after
/// starting, nothing once done.
pub open spec fn voyage_next_spec(action: VoyageLifecycleAction, id: Seq<char>) -> Option<Seq<char>> {
    match action {
        VoyageLifecycleAction::Plan => Some("keel voyage start "@ + id),
        VoyageLifecycleAction::Start => Some("keel voyage done "@ + id),
        VoyageLifecycleAction::Done => None,
    }
}

/// Builds canonical guidance after a voyage action succeeds.
pub fn guidance_for_action(action: VoyageLifecycleAction, voyage_id: &str) -> (r: Option<CanonicalGuidance>)
    ensures
        guidance_view(r) == match voyage_next_spec(action, voyage_id@) {
            Some(c) => Some((Some(c), None::<Seq<char>>)),
            None => None,
        },
{
    let command = match action {
        VoyageLifecycleAction::Plan => Some(concat2("keel voyage start ", voyage_id)),
        VoyageLifecycleAction::Start => Some(concat2("keel voyage done ", voyage_id)),
        VoyageLifecycleAction::Done => None,
    };
    let g = match command {
        Some(c) => Some(CommandGuidance::next(c)),
        None => None,
    };
    render_command_guidance(g)
}

/// Renders the next-step block when the guidance has a next step.
pub fn render_human(guidance: Option<&CanonicalGuidance>) -> (r: Option<String>)
    ensures
        match guidance_view(match guidance { Some(x) => Some(*x), None => None }) {
            Some((Some(n), _)) => r is Some && r->0@ == "\nNext step:\n  "@ + bold_spec(n) + "\n"@,
            _ => r is None,
        },
{
    match guidance {
        Some(g) => match &g.next_step {
            Some(step) => Some(concat3("\nNext step:\n  ", bold(step.command.as_str()).as_str(), "\n")),
            None => None,
        },
        None => None,
    }
}

} // verus!

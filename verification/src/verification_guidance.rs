//! Guidance after `verify` and `audit` runs, and recovery for their failures.

use vstd::prelude::*;
use crate::guidance::{error_with_guidance, error_with_guidance_spec, guidance_view,
    render_command_guidance, CanonicalGuidance, CommandGuidance};
use crate::model::StoryState;
use crate::story::guidance::{next_command_for_state, next_command_spec};
use crate::text::{ascii_lower, concat2, owned, seq_contains, str_contains, to_ascii_lowercase};

verus! {

/// Outcome of one verified acceptance criterion.
pub struct VerificationResult {
    pub criterion: String,
    pub passed: bool,
    pub expected: String,
    pub actual: String,
    pub requires_human_review: bool,
}

/// Outcome of verifying a story's acceptance criteria.
pub struct VerificationReport {
    pub story_id: String,
    pub results: Vec<VerificationResult>,
}

impl VerificationReport {
    /// Every criterion passed.
    pub open spec fn passed_spec(&self) -> bool {
        forall|i: int| 0 <= i < self.results@.len() ==> #[trigger] self.results@[i].passed
    }

    /// Whether every criterion passed.
    pub fn passed(&self) -> (b: bool)
        ensures
            b == self.passed_spec(),
    {
        let mut i: usize = 0;
        while i < self.results.len()
            invariant
                i <= self.results.len(),
                forall|k: int| 0 <= k < i ==> #[trigger] self.results@[k].passed,
            decreases self.results.len() - i,
        {
            if !self.results[i].passed {
                return false;
            }
            i = i + 1;
        }
        true
    }
}

/// Guidance after verifying a story: its next lifecycle command when the
/// report passed, else a recovery step to audit it.
pub fn guidance_for_verify_story(story_id: &str, story_state: StoryState, report: &VerificationReport) -> (r: Option<CanonicalGuidance>)
    ensures
        guidance_view(r) == if report.passed_spec() {
            match next_command_spec(story_state, story_id@) {
                Some(c) => Some((Some(c), None::<Seq<char>>)),
                None => None,
            }
        } else {
            Some((None::<Seq<char>>, Some("keel story audit "@ + story_id@)))
        },
{
    let g = if report.passed() {
        match next_command_for_state(story_state, story_id) {
            Some(c) => Some(CommandGuidance::next(c)),
            None => None,
        }
    } else {
        Some(CommandGuidance::recovery(concat2("keel story audit ", story_id)))
    };
    render_command_guidance(g)
}

/// Guidance after auditing a story: its next lifecycle command.
pub fn guidance_for_audit_story(story_id: &str, story_state: StoryState) -> (r: Option<CanonicalGuidance>)
    ensures
        guidance_view(r) == match next_command_spec(story_state, story_id@) {
            Some(c) => Some((Some(c), None::<Seq<char>>)),
            None => None,
        },
{
    let g = match next_command_for_state(story_state, story_id) {
        Some(c) => Some(CommandGuidance::next(c)),
        None => None,
    };
    render_command_guidance(g)
}

/// Recovery for a failed verify run: the story list when something was not
/// found, else the story itself, else the doctor.
pub open spec fn verify_recovery_spec(story_ref: Option<Seq<char>>, message: Seq<char>) -> Seq<char> {
    if seq_contains(ascii_lower(message), "not found"@) {
        "keel story list"@
    } else {
        match story_ref {
            Some(id) => "keel story show "@ + id,
            None => "keel doctor"@,
        }
    }
}

/// Recovery for a failed audit: the story list when something was not
/// found, else the status view, else the doctor.
pub open spec fn audit_recovery_spec(entity_ref: Option<Seq<char>>, message: Seq<char>) -> Seq<char> {
    if seq_contains(ascii_lower(message), "not found"@) {
        "keel story list"@
    } else {
        match entity_ref {
            Some(_) => "keel status"@,
            None => "keel doctor"@,
        }
    }
}

/// Builds recovery guidance for a failed verify run.
pub fn recovery_for_verify_error(story_ref: Option<&str>, message: &str) -> (r: Option<CanonicalGuidance>)
    ensures
        guidance_view(r) == Some((None::<Seq<char>>,
            Some(verify_recovery_spec(match story_ref { Some(s) => Some(s@), None => None }, message@)))),
{
    let lower = to_ascii_lowercase(message);
    let command = if str_contains(lower.as_str(), "not found") {
        owned("keel story list")
    } else {
        match story_ref {
            Some(id) => concat2("keel story show ", id),
            None => owned("keel doctor"),
        }
    };
    render_command_guidance(Some(CommandGuidance::recovery(command)))
}

/// Builds recovery guidance for a failed audit.
pub fn recovery_for_audit_error(entity_ref: Option<&str>, message: &str) -> (r: Option<CanonicalGuidance>)
    ensures
        guidance_view(r) == Some((None::<Seq<char>>,
            Some(audit_recovery_spec(match entity_ref { Some(s) => Some(s@), None => None }, message@)))),
{
    let lower = to_ascii_lowercase(message);
    let command = if str_contains(lower.as_str(), "not found") {
        owned("keel story list")
    } else {
        match entity_ref {
            Some(_) => owned("keel status"),
            None => owned("keel doctor"),
        }
    };
    render_command_guidance(Some(CommandGuidance::recovery(command)))
}

/// A verify failure message followed by its recovery block.
pub fn verify_error_with_recovery(story_ref: Option<&str>, message: &str) -> (r: String)
    ensures
        r@ == error_with_guidance_spec(message@, Some((None::<Seq<char>>,
            Some(verify_recovery_spec(match story_ref { Some(s) => Some(s@), None => None }, message@))))),
{
    let g = recovery_for_verify_error(story_ref, message);
    match &g {
        Some(x) => error_with_guidance(message, Some(x)),
        None => error_with_guidance(message, None),
    }
}

/// An audit failure message followed by its recovery block.
pub fn audit_error_with_recovery(entity_ref: Option<&str>, message: &str) -> (r: String)
    ensures
        r@ == error_with_guidance_spec(message@, Some((None::<Seq<char>>,
            Some(audit_recovery_spec(match entity_ref { Some(s) => Some(s@), None => None }, message@))))),
{
    let g = recovery_for_audit_error(entity_ref, message);
    match &g {
        Some(x) => error_with_guidance(message, Some(x)),
        None => error_with_guidance(message, None),
    }
}

} // verus!

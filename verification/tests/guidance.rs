use keel::guidance::{render_human, CanonicalGuidance};
use keel::model::StoryState;
use keel::story::guidance::{error_with_recovery, guidance_for_action, recovery_for_error, StoryLifecycleAction};
use keel::verification_guidance::{
    audit_error_with_recovery, guidance_for_audit_story, guidance_for_verify_story, verify_error_with_recovery,
    VerificationReport, VerificationResult,
};
use keel::voyage::guidance::VoyageLifecycleAction;

fn json_of(g: &CanonicalGuidance) -> serde_json::Value {
    serde_json::from_str(&g.to_json()).unwrap()
}

#[test]
fn start_action_suggests_submit_for_in_progress() {
    let guidance = guidance_for_action(StoryLifecycleAction::Start, StoryState::InProgress, "S1").unwrap();
    assert_eq!(guidance.next_step.unwrap().command, "keel story submit S1".to_string());
}

#[test]
fn reflect_action_suggests_accept_for_needs_human_verification() {
    let guidance =
        guidance_for_action(StoryLifecycleAction::Reflect, StoryState::NeedsHumanVerification, "S2").unwrap();
    assert_eq!(guidance.next_step.unwrap().command, "keel story accept S2".to_string());
}

#[test]
fn record_action_suggests_start_for_rejected_story() {
    let guidance = guidance_for_action(StoryLifecycleAction::Record, StoryState::Rejected, "S3").unwrap();
    assert_eq!(guidance.next_step.unwrap().command, "keel story start S3".to_string());
}

#[test]
fn submit_action_omits_guidance_for_done_story() {
    let guidance = guidance_for_action(StoryLifecycleAction::Submit, StoryState::Done, "S4");
    assert!(guidance.is_none());
}

#[test]
fn accept_action_omits_guidance() {
    let guidance = guidance_for_action(StoryLifecycleAction::Accept, StoryState::Done, "S5");
    assert!(guidance.is_none());
}

#[test]
fn guidance_render_human_formats_next_step_block() {
    let guidance = CanonicalGuidance::next("keel story submit S1");
    let rendered = render_human(Some(&guidance));
    assert!(rendered.contains("Next step:"));
    assert!(rendered.contains("keel story submit S1"));
}

#[test]
fn guidance_serializes_with_canonical_next_step_shape() {
    let guidance = guidance_for_action(StoryLifecycleAction::Start, StoryState::InProgress, "S1").unwrap();
    let mut expected = serde_json::Map::new();
    let mut step = serde_json::Map::new();
    step.insert("command".to_string(), serde_json::Value::String("keel story submit S1".to_string()));
    expected.insert("next_step".to_string(), serde_json::Value::Object(step));
    assert_eq!(json_of(&guidance), serde_json::Value::Object(expected));
}

#[test]
fn recovery_not_found_maps_to_story_list() {
    let guidance = recovery_for_error(StoryLifecycleAction::Submit, "S404", "Story not found: S404").unwrap();
    assert_eq!(json_of(&guidance)["recovery_step"]["command"], "keel story list");
    assert!(json_of(&guidance).get("next_step").is_none());
}

#[test]
fn recovery_accept_manual_maps_to_human_flag() {
    let guidance = recovery_for_error(
        StoryLifecycleAction::Accept,
        "S6",
        "Story S6 has manual acceptance criteria. Please use --human to confirm manual verification.",
    )
    .unwrap();
    assert_eq!(json_of(&guidance)["recovery_step"]["command"], "keel story accept S6 --human");
}

#[test]
fn recovery_submit_missing_reflect_maps_to_reflect_command() {
    let guidance =
        recovery_for_error(StoryLifecycleAction::Submit, "S7", "Cannot submit story S7:\n- REFLECT.md missing in bundle")
            .unwrap();
    let rendered = render_human(Some(&guidance));
    assert!(rendered.contains("Recovery step:"));
    assert!(rendered.contains("keel story reflect S7"));
}

#[test]
fn error_with_recovery_embeds_human_recovery_block() {
    let err = error_with_recovery(
        StoryLifecycleAction::Accept,
        "S8",
        "Cannot accept story S8:\n- Story S8 has manual acceptance criteria",
    );
    assert!(err.contains("Cannot accept story S8"));
    assert!(err.contains("Recovery step:"));
    assert!(err.contains("keel story accept S8 --human"));
}

#[test]
fn plan_action_suggests_start_transition() {
    let guidance = keel::voyage::guidance::guidance_for_action(VoyageLifecycleAction::Plan, "V1").unwrap();
    assert_eq!(guidance.next_step.unwrap().command, "keel voyage start V1");
}

#[test]
fn start_action_suggests_done_transition() {
    let guidance = keel::voyage::guidance::guidance_for_action(VoyageLifecycleAction::Start, "V2").unwrap();
    assert_eq!(guidance.next_step.unwrap().command, "keel voyage done V2");
}

#[test]
fn done_action_omits_next_step_guidance() {
    assert!(keel::voyage::guidance::guidance_for_action(VoyageLifecycleAction::Done, "V3").is_none());
}

#[test]
fn serializes_plan_guidance_with_canonical_next_step_shape() {
    let guidance = keel::voyage::guidance::guidance_for_action(VoyageLifecycleAction::Plan, "V1").unwrap();
    assert_eq!(guidance.to_json(), "{\"next_step\":{\"command\":\"keel voyage start V1\"}}");
}

#[test]
fn render_human_formats_next_step_block() {
    let guidance = keel::voyage::guidance::guidance_for_action(VoyageLifecycleAction::Start, "V9").unwrap();
    let rendered = keel::voyage::guidance::render_human(Some(&guidance)).unwrap();
    assert!(rendered.contains("Next step:"));
    assert!(rendered.contains("keel voyage done V9"));
}

fn report_for(story_id: &str, passed: bool) -> VerificationReport {
    VerificationReport {
        story_id: story_id.to_string(),
        results: vec![VerificationResult {
            criterion: "AC-01".to_string(),
            passed,
            expected: "ok".to_string(),
            actual: if passed { "ok".to_string() } else { "exit code 1".to_string() },
            requires_human_review: false,
        }],
    }
}

#[test]
fn verify_success_guidance_maps_to_story_lifecycle_next_step() {
    let guidance = guidance_for_verify_story("S1", StoryState::InProgress, &report_for("S1", true)).unwrap();
    assert_eq!(guidance.to_json(), "{\"next_step\":{\"command\":\"keel story submit S1\"}}");
}

#[test]
fn verify_failed_report_maps_to_story_audit_recovery() {
    let guidance = guidance_for_verify_story("S2", StoryState::InProgress, &report_for("S2", false)).unwrap();
    assert_eq!(guidance.to_json(), "{\"recovery_step\":{\"command\":\"keel story audit S2\"}}");
}

#[test]
fn audit_story_success_guidance_maps_to_story_lifecycle_next_step() {
    let guidance = guidance_for_audit_story("S3", StoryState::Backlog).unwrap();
    assert_eq!(guidance.to_json(), "{\"next_step\":{\"command\":\"keel story start S3\"}}");
}

#[test]
fn verify_not_found_recovery_maps_to_story_list() {
    let err = verify_error_with_recovery(Some("MISSING"), "Story not found: MISSING");
    assert!(err.contains("Story not found: MISSING"));
    assert!(err.contains("Recovery step:"));
    assert!(err.contains("keel story list"));
}

#[test]
fn audit_not_found_recovery_maps_to_story_list() {
    let err = audit_error_with_recovery(Some("MISSING"), "Entity not found: MISSING");
    assert!(err.contains("Entity not found: MISSING"));
    assert!(err.contains("Recovery step:"));
    assert!(err.contains("keel story list"));
}

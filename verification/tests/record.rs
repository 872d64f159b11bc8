use keel::story::record::{
    ac_listing_lines, command_proof, files_proof, judge_proof, manual_proof, proof_filename, proof_source,
    select_ac, update_story_with_proof, ProofSource,
};

#[test]
fn test_update_story_with_proof_no_req() {
    let result = update_story_with_proof("- [ ] AC 1 <!-- verify: manual -->\n", 0, "proof.log").unwrap();
    assert!(result.contains("manual, proof: proof.log"));
    assert_eq!(result, "- [ ] AC 1 <!-- verify: manual, proof: proof.log-->\n");
}

#[test]
fn test_update_story_with_proof_with_req() {
    let result =
        update_story_with_proof("- [ ] AC 1 <!-- verify: cargo test, SRS-01:start -->\n", 0, "proof.log").unwrap();
    assert!(result.contains("cargo test, SRS-01:start, proof: proof.log"));
}

#[test]
fn test_update_story_with_proof_replace() {
    let result = update_story_with_proof(
        "- [ ] AC 1 <!-- verify: cargo test, proof: old.log, SRS-01:start -->\n",
        0,
        "new.log",
    )
    .unwrap();
    assert!(result.contains("cargo test, proof: new.log, SRS-01:start"));
    assert!(!result.contains("old.log"));
}

#[test]
fn update_story_with_proof_counts_annotations() {
    let story = "# S\n- [ ] A <!-- verify: manual -->\nplain\n- [ ] B <!-- verify: echo b -->";
    let result = update_story_with_proof(story, 1, "ac-2.log").unwrap();
    assert_eq!(result, "# S\n- [ ] A <!-- verify: manual -->\nplain\n- [ ] B <!-- verify: echo b, proof: ac-2.log-->\n");
    let missing = update_story_with_proof(story, 2, "ac-3.log");
    assert_eq!(missing, Err("Failed to find AC index 3 in file".to_string()));
}

#[test]
fn update_story_with_proof_needs_a_closed_comment() {
    let story = "- [ ] A <!-- verify: manual\n";
    assert_eq!(
        update_story_with_proof(story, 0, "p.log"),
        Err("Failed to find AC index 1 in file".to_string())
    );
}

#[test]
fn select_ac_checks_the_number() {
    assert_eq!(select_ac("S1", Some(1), 2), Ok(Some(0)));
    assert_eq!(select_ac("S1", Some(3), 2), Err("AC index 3 out of range (1-2)".to_string()));
    assert_eq!(select_ac("S1", Some(0), 2), Err("AC index 0 out of range (1-2)".to_string()));
    assert_eq!(select_ac("S1", None, 1), Ok(Some(0)));
    assert_eq!(select_ac("S1", None, 2), Ok(None));
    assert_eq!(
        select_ac("S1", Some(1), 0),
        Err("No acceptance criteria with verify annotations found in story S1".to_string())
    );
}

#[test]
fn listing_marks_linked_proofs() {
    let lines = ac_listing_lines(
        "S1",
        &vec![("First".to_string(), Some("ac-1.log".to_string())), ("Second".to_string(), None)],
    );
    assert_eq!(lines.len(), 3);
    assert!(lines[0].starts_with("Acceptance Criteria for "));
    assert!(lines[1].starts_with("  1. ["));
    assert!(lines[1].contains("First"));
    assert!(lines[1].contains("(Proof: ac-1.log)"));
    assert!(lines[2].contains("○"));
    assert!(lines[2].ends_with("Second "));
}

#[test]
fn proof_source_follows_precedence() {
    assert_eq!(proof_source(true, true, None, false, None, None), Ok(ProofSource::Judge));
    assert_eq!(proof_source(false, true, Some("m".to_string()), true, None, None), Ok(ProofSource::Files));
    assert_eq!(
        proof_source(false, false, Some("note".to_string()), true, None, None),
        Ok(ProofSource::Message("note".to_string()))
    );
    assert_eq!(proof_source(false, false, None, true, None, None), Ok(ProofSource::ManualInput));
    assert_eq!(
        proof_source(false, false, None, false, Some("cargo test".to_string()), Some("echo".to_string())),
        Ok(ProofSource::Command("cargo test".to_string()))
    );
    assert_eq!(
        proof_source(false, false, None, false, None, Some("echo 'it works'".to_string())),
        Ok(ProofSource::Command("echo 'it works'".to_string()))
    );
    assert_eq!(
        proof_source(false, false, None, false, None, None),
        Err("No command specified for this AC and no --cmd override provided".to_string())
    );
}

#[test]
fn test_record_manual_provenance() {
    let content = manual_proof("2026-01-01T00:00:00+00:00", "Manual note");
    assert!(content.contains("recorded_at:"));
    assert!(content.contains("mode: manual"));
    assert!(content.contains("Manual note"));
    assert_eq!(proof_filename(0), "ac-1.log");
    let story = update_story_with_proof("- [ ] AC 1 <!-- verify: manual, SRS-01:start -->", 0, &proof_filename(0)).unwrap();
    assert!(story.contains("proof: ac-1.log"));
}

#[test]
fn test_record_command_provenance() {
    let content = command_proof("2026-01-01T00:00:00+00:00", "echo 'it works'", "it works\n", "");
    assert!(content.contains("recorded_at:"));
    assert!(content.contains("command: echo 'it works'"));
    assert!(content.contains("it works"));
    assert!(!content.contains("stderr"));
    let noisy = command_proof("t", "c", "out", "warn");
    assert!(noisy.ends_with("out\n--- stderr ---\nwarn"));
}

#[test]
fn test_record_multiple_files() {
    let given = vec!["a/one.txt".to_string(), "two.txt".to_string()];
    let files = vec![("one.txt".to_string(), "first".to_string()), ("two.txt".to_string(), "second".to_string())];
    let content = files_proof("t", &given, &files);
    assert_eq!(
        content,
        "---\nrecorded_at: t\nmode: manual\nfiles: [\"a/one.txt\", \"two.txt\"]\n---\n\n--- File: one.txt ---\nfirst\n\n--- File: two.txt ---\nsecond\n"
    );
    assert!(judge_proof("t", "verdict").ends_with("mode: llm-judge\n---\nverdict"));
}

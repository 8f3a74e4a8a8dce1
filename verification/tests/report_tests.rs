use why_no_sound::report::build_report;
use why_no_sound::types::{CheckResult, CheckStatus};

#[test]
fn status_has_its_sign() {
    assert_eq!(CheckStatus::Okay.emoji(), "✅");
    assert_eq!(CheckStatus::Warning.emoji(), "⚠️");
    assert_eq!(CheckStatus::Error.emoji(), "❌");
}

#[test]
fn results_are_built_with_their_status() {
    let ok = CheckResult::ok("audio_stack", "fine");
    assert_eq!(ok.name, "audio_stack");
    assert_eq!(ok.status, CheckStatus::Okay);
    assert_eq!(ok.message, "fine");
    assert_eq!(ok.suggestion, None);
    assert_eq!(ok.debug_info, None);
    let warning = CheckResult::warning("mute_state", "low", "turn it up");
    assert_eq!(warning.status, CheckStatus::Warning);
    assert_eq!(warning.message, "low");
    assert_eq!(warning.suggestion, Some("turn it up".to_string()));
    assert_eq!(warning.debug_info, None);
    let error = CheckResult::error("default_sink", "gone", "pick one").with_debug("raw");
    assert_eq!(error.name, "default_sink");
    assert_eq!(error.status, CheckStatus::Error);
    assert_eq!(error.message, "gone");
    assert_eq!(error.suggestion, Some("pick one".to_string()));
    assert_eq!(error.debug_info, Some("raw".to_string()));
}

#[test]
fn healthy_report_has_no_cause_and_no_fix() {
    let report = build_report(vec![CheckResult::ok("a", "fine"), CheckResult::ok("b", "fine too")]);
    assert_eq!(
        report.summary,
        "Audio system appears healthy. If you still have no sound, the issue may be application-specific."
    );
    assert_eq!(report.probable_cause, None);
    assert!(report.suggested_fixes.is_empty());
    assert_eq!(report.checks.len(), 2);
    assert_eq!(report.checks[1].message, "fine too");
}

#[test]
fn empty_report_is_healthy() {
    let report = build_report(Vec::new());
    assert_eq!(
        report.summary,
        "Audio system appears healthy. If you still have no sound, the issue may be application-specific."
    );
    assert_eq!(report.probable_cause, None);
    assert!(report.suggested_fixes.is_empty());
    assert!(report.checks.is_empty());
}

#[test]
fn first_error_is_the_probable_cause() {
    let report = build_report(vec![
        CheckResult::ok("one", "fine"),
        CheckResult::error("two", "A", "fix A"),
        CheckResult::warning("three", "B", "fix B"),
    ]);
    assert_eq!(report.probable_cause, Some("A".to_string()));
    assert_eq!(report.suggested_fixes, vec!["A: fix A", "B: fix B"]);
    assert_eq!(report.summary, "Found 1 error(s) and 1 warning(s). Most likely cause: A");
    assert_eq!(report.checks.len(), 3);
    assert_eq!(report.checks[0].name, "one");
    assert_eq!(report.checks[1].name, "two");
    assert_eq!(report.checks[2].name, "three");
}

#[test]
fn errors_come_before_warnings_whatever_their_order() {
    let report = build_report(vec![
        CheckResult::warning("one", "W1", "w1"),
        CheckResult::error("two", "E1", "e1"),
        CheckResult::warning("three", "W2", "w2"),
        CheckResult::error("four", "E2", "e2"),
    ]);
    assert_eq!(report.probable_cause, Some("E1".to_string()));
    assert_eq!(report.suggested_fixes, vec!["E1: e1", "E2: e2", "W1: w1", "W2: w2"]);
    assert_eq!(report.summary, "Found 2 error(s) and 2 warning(s). Most likely cause: E1");
}

#[test]
fn warnings_alone_are_counted() {
    let report = build_report(vec![
        CheckResult::warning("one", "W1", "w1"),
        CheckResult::ok("two", "fine"),
        CheckResult::warning("three", "W2", "w2"),
    ]);
    assert_eq!(report.probable_cause, None);
    assert_eq!(
        report.summary,
        "No critical issues found, but 2 warning(s) detected that may affect audio."
    );
    assert_eq!(report.suggested_fixes, vec!["W1: w1", "W2: w2"]);
}

#[test]
fn equal_warnings_are_listed_once() {
    let report = build_report(vec![
        CheckResult::warning("mute_state", "No default sink", "Set one"),
        CheckResult::warning("sink_inputs", "No default sink", "Set one"),
        CheckResult::warning("other", "No default sink", "Set another"),
    ]);
    assert_eq!(report.suggested_fixes, vec!["No default sink: Set one", "No default sink: Set another"]);
    assert_eq!(
        report.summary,
        "No critical issues found, but 3 warning(s) detected that may affect audio."
    );
}

#[test]
fn equal_errors_are_both_listed() {
    let report = build_report(vec![
        CheckResult::error("one", "Broken", "Mend it"),
        CheckResult::error("two", "Broken", "Mend it"),
    ]);
    assert_eq!(report.suggested_fixes, vec!["Broken: Mend it", "Broken: Mend it"]);
    assert_eq!(report.probable_cause, Some("Broken".to_string()));
    assert_eq!(report.summary, "Found 2 error(s) and 0 warning(s). Most likely cause: Broken");
}

#[test]
fn warning_with_the_text_of_an_error_is_left_out() {
    let report = build_report(vec![
        CheckResult::warning("one", "Broken", "Mend it"),
        CheckResult::error("two", "Broken", "Mend it"),
    ]);
    assert_eq!(report.suggested_fixes, vec!["Broken: Mend it"]);
}

#[test]
fn text_split_otherwise_is_another_entry() {
    let report = build_report(vec![
        CheckResult::warning("one", "a: b", "c"),
        CheckResult::warning("two", "a", "b: c"),
    ]);
    assert_eq!(report.suggested_fixes, vec!["a: b: c"]);
}

#[test]
fn result_without_suggestion_adds_no_fix() {
    let mut bare = CheckResult::error("one", "Broken", "unused");
    bare.suggestion = None;
    let report = build_report(vec![bare, CheckResult::error("two", "Second", "fix")]);
    assert_eq!(report.probable_cause, Some("Broken".to_string()));
    assert_eq!(report.suggested_fixes, vec!["Second: fix"]);
    assert_eq!(report.summary, "Found 2 error(s) and 0 warning(s). Most likely cause: Broken");
}

#[test]
fn counts_above_nine_are_written_out() {
    let mut checks = Vec::new();
    for i in 0..12 {
        let name = format!("w{}", i);
        checks.push(CheckResult::warning(&name, &name, "x"));
    }
    let report = build_report(checks);
    assert_eq!(
        report.summary,
        "No critical issues found, but 12 warning(s) detected that may affect audio."
    );
    assert_eq!(report.suggested_fixes.len(), 12);
}

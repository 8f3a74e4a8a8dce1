use why_no_sound::output::render_human;
use why_no_sound::report::{build_report, hide_debug};
use why_no_sound::types::CheckResult;

const RULE: &str = "─────────────────────────────────────────";

#[test]
fn healthy_report_is_shown() {
    let report = build_report(vec![CheckResult::ok("a", "All good").with_debug("raw")]);
    let expected = format!(
        "\n🔊 why-no-sound — Linux Audio Diagnostic\n{}\n\n✅ All good\n\n{}\n\n✅ DIAGNOSIS: System looks healthy\n\nAudio system appears healthy. If you still have no sound, the issue may be application-specific.\n\n",
        RULE, RULE
    );
    assert_eq!(render_human(&report, false), expected);
}

#[test]
fn report_with_issues_is_shown() {
    let report = build_report(vec![
        CheckResult::ok("one", "Fine"),
        CheckResult::error("two", "A", "fix A"),
        CheckResult::warning("three", "B", "fix B"),
    ]);
    let expected = format!(
        "\n🔊 why-no-sound — Linux Audio Diagnostic\n{}\n\n✅ Fine\n❌ A\n   👉 Fix: fix A\n⚠️ B\n   👉 Fix: fix B\n\n{}\n\n❌ DIAGNOSIS: Issues detected\n\nFound 1 error(s) and 1 warning(s). Most likely cause: A\n\n🎯 Probable root cause:\n   A\n\n📋 Suggested fixes (in order):\n   1. A: fix A\n   2. B: fix B\n\n",
        RULE, RULE
    );
    assert_eq!(render_human(&report, false), expected);
    assert_eq!(render_human(&report, true), expected);
}

#[test]
fn warnings_alone_are_potential_issues() {
    let report = build_report(vec![CheckResult::warning("three", "B", "fix B")]);
    let expected = format!(
        "\n🔊 why-no-sound — Linux Audio Diagnostic\n{}\n\n⚠️ B\n   👉 Fix: fix B\n\n{}\n\n⚠️  DIAGNOSIS: Potential issues\n\nNo critical issues found, but 1 warning(s) detected that may affect audio.\n\n📋 Suggested fixes (in order):\n   1. B: fix B\n\n",
        RULE, RULE
    );
    assert_eq!(render_human(&report, false), expected);
}

#[test]
fn raw_text_is_shown_on_demand() {
    let report = build_report(vec![
        CheckResult::ok("one", "Fine").with_debug("first\nsecond\r\n\nlast"),
        CheckResult::ok("two", "Bare"),
        CheckResult::ok("three", "Empty").with_debug(""),
    ]);
    let shown = render_human(&report, true);
    let expected = format!(
        "\n🔊 why-no-sound — Linux Audio Diagnostic\n{}\n\n✅ Fine\n\n   [DEBUG: one]\n   | first\n   | second\n   | \n   | last\n\n✅ Bare\n✅ Empty\n\n   [DEBUG: three]\n\n\n{}\n\n✅ DIAGNOSIS: System looks healthy\n\nAudio system appears healthy. If you still have no sound, the issue may be application-specific.\n\n",
        RULE, RULE
    );
    assert_eq!(shown, expected);
    assert!(!render_human(&report, false).contains("DEBUG"));
}

#[test]
fn fixes_are_numbered_beyond_nine() {
    let mut checks = Vec::new();
    for i in 0..11 {
        checks.push(CheckResult::warning("w", &format!("m{}", i), "s"));
    }
    let shown = render_human(&build_report(checks), false);
    assert!(shown.contains("\n   9. m8: s\n   10. m9: s\n   11. m10: s\n\n"));
}

#[test]
fn raw_text_can_be_taken_out() {
    let report = build_report(vec![
        CheckResult::error("one", "A", "fix").with_debug("raw"),
        CheckResult::ok("two", "Fine"),
    ]);
    let quiet = hide_debug(report.clone());
    assert_eq!(quiet.checks.len(), 2);
    assert_eq!(quiet.checks[0].debug_info, None);
    assert_eq!(quiet.checks[0].name, "one");
    assert_eq!(quiet.checks[0].message, "A");
    assert_eq!(quiet.checks[0].status, report.checks[0].status);
    assert_eq!(quiet.checks[0].suggestion, Some("fix".to_string()));
    assert_eq!(quiet.checks[1].debug_info, None);
    assert_eq!(quiet.summary, report.summary);
    assert_eq!(quiet.probable_cause, report.probable_cause);
    assert_eq!(quiet.suggested_fixes, report.suggested_fixes);
    assert_eq!(render_human(&quiet, true), render_human(&report, false));
}

//! The report as text for a human reader.

use crate::report::count_of;
use crate::text::{
    chars_of, decimal, lines, push_all, push_decimal, push_str, rows, split_lines, string_of,
    texts,
};
use crate::types::{
    emoji_of, outcomes, CheckResult, CheckStatus, DiagnosticReport, Diagnosis, Outcome,
};
use vstd::prelude::*;

verus! {

/// The line that parts the sections of the text.
pub open spec fn rule() -> Seq<char> {
    "─────────────────────────────────────────\n"@
}

/// Raw text, each line behind a bar.
pub open spec fn debug_text(ls: Seq<Seq<char>>) -> Seq<char>
    decreases ls.len(),
{
    if ls.len() == 0 {
        Seq::empty()
    } else {
        debug_text(ls.drop_last()) + "   | "@ + ls.last() + "\n"@
    }
}

/// The lines that show a check: its sign and message, and its suggestion
/// where it has one.
pub open spec fn head_text(o: Outcome) -> Seq<char> {
    emoji_of(o.status) + " "@ + o.message + "\n"@ + match o.suggestion {
        Some(s) => "   👉 Fix: "@ + s + "\n"@,
        None => Seq::empty(),
    }
}

/// The lines that show the raw text a check looked at, where it kept any.
pub open spec fn raw_text(o: Outcome) -> Seq<char> {
    match o.debug_info {
        Some(d) => "\n"@ + "   [DEBUG: "@ + o.name + "]\n"@ + debug_text(lines(d)) + "\n"@,
        None => Seq::empty(),
    }
}

/// What is shown of one check; with `debug`, the raw text it looked at too.
pub open spec fn check_text(o: Outcome, debug: bool) -> Seq<char> {
    if debug {
        head_text(o) + raw_text(o)
    } else {
        head_text(o)
    }
}

/// What is shown of the checks, in order.
pub open spec fn checks_text(checks: Seq<Outcome>, debug: bool) -> Seq<char>
    decreases checks.len(),
{
    if checks.len() == 0 {
        Seq::empty()
    } else {
        checks_text(checks.drop_last(), debug) + check_text(checks.last(), debug)
    }
}

/// The numbered list of things to do.
pub open spec fn fixes_text(fixes: Seq<Seq<char>>) -> Seq<char>
    decreases fixes.len(),
{
    if fixes.len() == 0 {
        Seq::empty()
    } else {
        fixes_text(fixes.drop_last()) + "   "@ + decimal(fixes.len()) + ". "@ + fixes.last()
            + "\n"@
    }
}

/// The line that gives the diagnosis: the worst status among the checks.
pub open spec fn diagnosis_line(checks: Seq<Outcome>) -> Seq<char> {
    if count_of(checks, CheckStatus::Error) > 0 {
        "❌ DIAGNOSIS: Issues detected\n"@
    } else if count_of(checks, CheckStatus::Warning) > 0 {
        "⚠️  DIAGNOSIS: Potential issues\n"@
    } else {
        "✅ DIAGNOSIS: System looks healthy\n"@
    }
}

/// The title of the text.
pub open spec fn title_text() -> Seq<char> {
    "\n"@ + "🔊 why-no-sound — Linux Audio Diagnostic\n"@ + rule() + "\n"@
}

/// What follows the checks: the diagnosis, the summary, and the probable
/// cause where there is one.
pub open spec fn closing_text(report: Diagnosis) -> Seq<char> {
    "\n"@ + rule() + "\n"@ + diagnosis_line(report.checks) + "\n"@ + report.summary + "\n"@
        + match report.probable_cause {
        Some(cause) => "\n"@ + "🎯 Probable root cause:\n"@ + "   "@ + cause + "\n"@,
        None => Seq::empty(),
    }
}

/// The list of things to do under its heading, where the list is not empty.
pub open spec fn fixes_section(fixes: Seq<Seq<char>>) -> Seq<char> {
    if fixes.len() > 0 {
        "\n"@ + "📋 Suggested fixes (in order):\n"@ + fixes_text(fixes)
    } else {
        Seq::empty()
    }
}

/// The report as text for a human reader: a title, the checks, the
/// diagnosis, the summary, the probable cause where there is one, and the
/// list of things to do where it is not empty.
pub open spec fn human_text(report: Diagnosis, debug: bool) -> Seq<char> {
    title_text() + checks_text(report.checks, debug) + closing_text(report) + fixes_section(
        report.suggested_fixes,
    ) + "\n"@
}

/// Adds the lines that show a check.
fn push_head(out: &mut Vec<char>, check: &CheckResult)
    ensures
        final(out)@ == old(out)@ + head_text(check@),
{
    push_str(out, check.status.emoji());
    push_str(out, " ");
    push_str(out, check.message.as_str());
    push_str(out, "\n");
    match &check.suggestion {
        Some(s) => {
            push_str(out, "   👉 Fix: ");
            push_str(out, s.as_str());
            push_str(out, "\n");
        },
        None => {},
    }
    assert(out@ =~= old(out)@ + head_text(check@));
}

/// Adds raw text, each line behind a bar.
fn push_debug_lines(out: &mut Vec<char>, raw: &str)
    ensures
        final(out)@ == old(out)@ + debug_text(lines(raw@)),
{
    let ls = split_lines(&chars_of(raw));
    let ghost all = rows(ls@);
    let mut i: usize = 0;
    assert(all.take(0) == Seq::<Seq<char>>::empty());
    assert(out@ =~= old(out)@ + debug_text(all.take(0)));
    while i < ls.len()
        invariant
            i <= ls.len(),
            all == rows(ls@),
            out@ == old(out)@ + debug_text(all.take(i as int)),
        decreases ls.len() - i,
    {
        let ghost before = out@;
        assert(all.take(i + 1).drop_last() == all.take(i as int));
        assert(all.take(i + 1).last() == ls@[i as int]@);
        push_str(out, "   | ");
        push_all(out, &ls[i]);
        push_str(out, "\n");
        assert(out@ =~= before + "   | "@ + ls@[i as int]@ + "\n"@);
        assert(out@ =~= old(out)@ + debug_text(all.take(i + 1)));
        i = i + 1;
    }
    assert(all.take(ls.len() as int) == all);
}

/// Adds the lines that show the raw text a check looked at.
fn push_raw(out: &mut Vec<char>, check: &CheckResult)
    ensures
        final(out)@ == old(out)@ + raw_text(check@),
{
    match &check.debug_info {
        Some(d) => {
            push_str(out, "\n");
            push_str(out, "   [DEBUG: ");
            push_str(out, check.name.as_str());
            push_str(out, "]\n");
            push_debug_lines(out, d.as_str());
            push_str(out, "\n");
            assert(out@ =~= old(out)@ + raw_text(check@));
        },
        None => {
            assert(out@ =~= old(out)@ + raw_text(check@));
        },
    }
}

/// Adds what is shown of one check.
fn push_check(out: &mut Vec<char>, check: &CheckResult, debug: bool)
    ensures
        final(out)@ == old(out)@ + check_text(check@, debug),
{
    push_head(out, check);
    if debug {
        push_raw(out, check);
        assert(out@ =~= old(out)@ + check_text(check@, debug));
    }
}

/// How many of the results have the given status.
fn count_status(checks: &Vec<CheckResult>, status: CheckStatus) -> (n: usize)
    ensures
        n == count_of(outcomes(checks@), status),
{
    let ghost all = outcomes(checks@);
    let mut n: usize = 0;
    let mut i: usize = 0;
    assert(all.take(0) == Seq::<Outcome>::empty());
    while i < checks.len()
        invariant
            i <= checks.len(),
            all == outcomes(checks@),
            n == count_of(all.take(i as int), status),
            n <= i,
        decreases checks.len() - i,
    {
        assert(all.take(i + 1).drop_last() == all.take(i as int));
        assert(all.take(i + 1).last() == checks@[i as int]@);
        if checks[i].status == status {
            n = n + 1;
        }
        i = i + 1;
    }
    assert(all.take(checks.len() as int) == all);
    n
}

/// Adds what is shown of the checks, in order.
fn push_checks(out: &mut Vec<char>, checks: &Vec<CheckResult>, debug: bool)
    ensures
        final(out)@ == old(out)@ + checks_text(outcomes(checks@), debug),
{
    let ghost all = outcomes(checks@);
    let mut i: usize = 0;
    assert(all.take(0) == Seq::<Outcome>::empty());
    assert(out@ =~= old(out)@ + checks_text(all.take(0), debug));
    while i < checks.len()
        invariant
            i <= checks.len(),
            all == outcomes(checks@),
            out@ == old(out)@ + checks_text(all.take(i as int), debug),
        decreases checks.len() - i,
    {
        assert(all.take(i + 1).drop_last() == all.take(i as int));
        assert(all.take(i + 1).last() == checks@[i as int]@);
        push_check(out, &checks[i], debug);
        assert(out@ =~= old(out)@ + checks_text(all.take(i + 1), debug));
        i = i + 1;
    }
    assert(all.take(checks.len() as int) == all);
}

/// Adds the line that gives the diagnosis.
fn push_diagnosis(out: &mut Vec<char>, checks: &Vec<CheckResult>)
    ensures
        final(out)@ == old(out)@ + diagnosis_line(outcomes(checks@)),
{
    if count_status(checks, CheckStatus::Error) > 0 {
        push_str(out, "❌ DIAGNOSIS: Issues detected\n");
    } else if count_status(checks, CheckStatus::Warning) > 0 {
        push_str(out, "⚠️  DIAGNOSIS: Potential issues\n");
    } else {
        push_str(out, "✅ DIAGNOSIS: System looks healthy\n");
    }
}

/// Adds what follows the checks.
fn push_closing(out: &mut Vec<char>, report: &DiagnosticReport)
    ensures
        final(out)@ == old(out)@ + closing_text(report@),
{
    push_str(out, "\n");
    push_str(out, "─────────────────────────────────────────\n");
    push_str(out, "\n");
    push_diagnosis(out, &report.checks);
    push_str(out, "\n");
    push_str(out, report.summary.as_str());
    push_str(out, "\n");
    let ghost middle = out@;
    assert(middle =~= old(out)@ + ("\n"@ + rule() + "\n"@ + diagnosis_line(report@.checks) + "\n"@
        + report@.summary + "\n"@));
    match &report.probable_cause {
        Some(cause) => {
            push_str(out, "\n");
            push_str(out, "🎯 Probable root cause:\n");
            push_str(out, "   ");
            push_str(out, cause.as_str());
            push_str(out, "\n");
            assert(out@ =~= middle + ("\n"@ + "🎯 Probable root cause:\n"@ + "   "@ + cause@
                + "\n"@));
        },
        None => {},
    }
    assert(out@ =~= old(out)@ + closing_text(report@));
}

/// Adds the list of things to do under its heading.
fn push_fixes(out: &mut Vec<char>, list: &Vec<String>)
    ensures
        final(out)@ == old(out)@ + fixes_section(texts(list@)),
{
    let ghost fixes = texts(list@);
    if list.len() > 0 {
        push_str(out, "\n");
        push_str(out, "📋 Suggested fixes (in order):\n");
        let ghost base = out@;
        let mut k: usize = 0;
        assert(fixes.take(0) == Seq::<Seq<char>>::empty());
        assert(out@ =~= base + fixes_text(fixes.take(0)));
        while k < list.len()
            invariant
                k <= list.len(),
                fixes == texts(list@),
                out@ == base + fixes_text(fixes.take(k as int)),
            decreases list.len() - k,
        {
            let ghost before = out@;
            assert(fixes.take(k + 1).drop_last() == fixes.take(k as int));
            assert(fixes.take(k + 1).last() == list@[k as int]@);
            push_str(out, "   ");
            push_decimal(out, (k + 1) as u64);
            push_str(out, ". ");
            push_str(out, list[k].as_str());
            push_str(out, "\n");
            assert(out@ =~= before + "   "@ + decimal((k + 1) as nat) + ". "@ + list@[k as int]@
                + "\n"@);
            assert(out@ =~= base + fixes_text(fixes.take(k + 1)));
            k = k + 1;
        }
        assert(fixes.take(list.len() as int) == fixes);
        assert(out@ =~= old(out)@ + fixes_section(fixes));
    } else {
        assert(out@ =~= old(out)@ + fixes_section(fixes));
    }
}

/// The report as text for a human reader. With `debug` the raw text that
/// each check looked at is shown below the check.
pub fn render_human(report: &DiagnosticReport, debug: bool) -> (text: String)
    ensures
        text@ == human_text(report@, debug),
{
    let mut out: Vec<char> = Vec::new();
    push_str(&mut out, "\n");
    push_str(&mut out, "🔊 why-no-sound — Linux Audio Diagnostic\n");
    push_str(&mut out, "─────────────────────────────────────────\n");
    push_str(&mut out, "\n");
    assert(out@ =~= title_text());
    push_checks(&mut out, &report.checks, debug);
    push_closing(&mut out, report);
    push_fixes(&mut out, &report.suggested_fixes);
    push_str(&mut out, "\n");
    string_of(&out)
}

} // verus!

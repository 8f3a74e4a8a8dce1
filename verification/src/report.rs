//! The report: what the checks found, summed up, with the likely cause and
//! the list of things to do.

use crate::text::{decimal, push_decimal, push_str, string_of, texts};
use crate::types::{CheckResult, CheckStatus, DiagnosticReport, Diagnosis, Outcome, outcomes};
use vstd::prelude::*;

verus! {

/// How many of the outcomes have the given status.
pub open spec fn count_of(checks: Seq<Outcome>, status: CheckStatus) -> nat
    decreases checks.len(),
{
    if checks.len() == 0 {
        0
    } else {
        count_of(checks.drop_last(), status) + if checks.last().status == status {
            1nat
        } else {
            0nat
        }
    }
}

/// The message of the first error among the outcomes.
pub open spec fn first_error(checks: Seq<Outcome>) -> Option<Seq<char>>
    decreases checks.len(),
{
    if checks.len() == 0 {
        None
    } else {
        match first_error(checks.drop_last()) {
            Some(m) => Some(m),
            None => if checks.last().status == CheckStatus::Error {
                Some(checks.last().message)
            } else {
                None
            },
        }
    }
}

/// The entry that an outcome adds to the list of things to do: its message,
/// a colon and its suggestion.
pub open spec fn fix_of(o: Outcome) -> Option<Seq<char>> {
    match o.suggestion {
        Some(s) => Some(o.message + ": "@ + s),
        None => None,
    }
}

/// The entries of all errors that carry a suggestion, in order.
pub open spec fn error_fixes(checks: Seq<Outcome>) -> Seq<Seq<char>>
    decreases checks.len(),
{
    if checks.len() == 0 {
        Seq::empty()
    } else {
        let before = error_fixes(checks.drop_last());
        let o = checks.last();
        if o.status == CheckStatus::Error && fix_of(o) is Some {
            before.push(fix_of(o).unwrap())
        } else {
            before
        }
    }
}

/// `base`, then the entries of the warnings in order, each left out where the
/// list holds the same text already.
pub open spec fn with_warning_fixes(base: Seq<Seq<char>>, checks: Seq<Outcome>) -> Seq<
    Seq<char>,
>
    decreases checks.len(),
{
    if checks.len() == 0 {
        base
    } else {
        let before = with_warning_fixes(base, checks.drop_last());
        let o = checks.last();
        if o.status == CheckStatus::Warning && fix_of(o) is Some && !before.contains(
            fix_of(o).unwrap(),
        ) {
            before.push(fix_of(o).unwrap())
        } else {
            before
        }
    }
}

/// The list of things to do: the errors' entries, then the warnings'.
pub open spec fn fixes_of(checks: Seq<Outcome>) -> Seq<Seq<char>> {
    with_warning_fixes(error_fixes(checks), checks)
}

/// The sentence that sums the outcomes up.
pub open spec fn summary_of(checks: Seq<Outcome>) -> Seq<char> {
    let errors = count_of(checks, CheckStatus::Error);
    let warnings = count_of(checks, CheckStatus::Warning);
    if errors == 0 && warnings == 0 {
        "Audio system appears healthy. If you still have no sound, the issue may be application-specific."@
    } else if errors == 0 {
        "No critical issues found, but "@ + decimal(warnings)
            + " warning(s) detected that may affect audio."@
    } else {
        "Found "@ + decimal(errors) + " error(s) and "@ + decimal(warnings)
            + " warning(s). Most likely cause: "@ + match first_error(checks) {
            Some(m) => m,
            None => "unknown"@,
        }
    }
}

/// The report on the given outcomes.
pub open spec fn report_of(checks: Seq<Outcome>) -> Diagnosis {
    Diagnosis {
        checks,
        summary: summary_of(checks),
        probable_cause: first_error(checks),
        suggested_fixes: fixes_of(checks),
    }
}

/// Whether the list holds the text of `fix`.
fn listed(fixes: &Vec<String>, fix: &String) -> (b: bool)
    ensures
        b == texts(fixes@).contains(fix@),
{
    let mut i: usize = 0;
    while i < fixes.len()
        invariant
            i <= fixes.len(),
            forall|k: int| 0 <= k < i ==> texts(fixes@)[k] != fix@,
        decreases fixes.len() - i,
    {
        if fixes[i] == *fix {
            assert(texts(fixes@)[i as int] == fix@);
            return true;
        }
        i = i + 1;
    }
    false
}

/// The entry that a result adds to the list of things to do.
fn fix_entry(check: &CheckResult) -> (r: Option<String>)
    ensures
        match r {
            Some(s) => fix_of(check@) == Some(s@),
            None => fix_of(check@) is None,
        },
{
    match &check.suggestion {
        Some(suggestion) => {
            let mut fix = check.message.clone();
            fix.append(": ");
            fix.append(suggestion.as_str());
            Some(fix)
        },
        None => None,
    }
}

/// Builds the report from the results of the checks, which stay in their
/// order. The probable cause is the message of the first error. The list of
/// things to do holds every error's entry, then every warning's entry that
/// the list does not hold yet.
pub fn build_report(checks: Vec<CheckResult>) -> (report: DiagnosticReport)
    ensures
        report.checks == checks,
        report@ == report_of(outcomes(checks@)),
{
    let ghost all = outcomes(checks@);
    let mut errors: usize = 0;
    let mut warnings: usize = 0;
    let mut probable_cause: Option<String> = None;
    let mut suggested_fixes: Vec<String> = Vec::new();
    let mut i: usize = 0;
    assert(all.take(0) == Seq::<Outcome>::empty());
    assert(texts(suggested_fixes@) =~= Seq::<Seq<char>>::empty());
    while i < checks.len()
        invariant
            i <= checks.len(),
            all == outcomes(checks@),
            errors == count_of(all.take(i as int), CheckStatus::Error),
            warnings == count_of(all.take(i as int), CheckStatus::Warning),
            errors <= i,
            warnings <= i,
            crate::types::opt_text(probable_cause) == first_error(all.take(i as int)),
            texts(suggested_fixes@) == error_fixes(all.take(i as int)),
        decreases checks.len() - i,
    {
        let check = &checks[i];
        let ghost before = texts(suggested_fixes@);
        assert(all.take(i + 1).drop_last() == all.take(i as int));
        assert(all.take(i + 1).last() == check@);
        match check.status {
            CheckStatus::Error => {
                errors = errors + 1;
                if probable_cause.is_none() {
                    probable_cause = Some(check.message.clone());
                }
                match fix_entry(check) {
                    Some(fix) => {
                        suggested_fixes.push(fix);
                        assert(texts(suggested_fixes@) =~= before.push(fix@));
                    },
                    None => {},
                }
            },
            CheckStatus::Warning => {
                warnings = warnings + 1;
            },
            CheckStatus::Okay => {},
        }
        i = i + 1;
    }
    assert(all.take(checks.len() as int) == all);
    let mut j: usize = 0;
    while j < checks.len()
        invariant
            j <= checks.len(),
            all == outcomes(checks@),
            texts(suggested_fixes@) == with_warning_fixes(error_fixes(all), all.take(j as int)),
        decreases checks.len() - j,
    {
        let check = &checks[j];
        let ghost before = texts(suggested_fixes@);
        assert(all.take(j + 1).drop_last() == all.take(j as int));
        assert(all.take(j + 1).last() == check@);
        match check.status {
            CheckStatus::Warning => {
                match fix_entry(check) {
                    Some(fix) => {
                        if !listed(&suggested_fixes, &fix) {
                            suggested_fixes.push(fix);
                            assert(texts(suggested_fixes@) =~= before.push(fix@));
                        }
                    },
                    None => {},
                }
            },
            _ => {},
        }
        j = j + 1;
    }
    assert(all.take(checks.len() as int) == all);
    let mut summary: Vec<char> = Vec::new();
    if errors == 0 && warnings == 0 {
        push_str(
            &mut summary,
            "Audio system appears healthy. If you still have no sound, the issue may be application-specific.",
        );
    } else if errors == 0 {
        push_str(&mut summary, "No critical issues found, but ");
        push_decimal(&mut summary, warnings as u64);
        push_str(&mut summary, " warning(s) detected that may affect audio.");
    } else {
        push_str(&mut summary, "Found ");
        push_decimal(&mut summary, errors as u64);
        push_str(&mut summary, " error(s) and ");
        push_decimal(&mut summary, warnings as u64);
        push_str(&mut summary, " warning(s). Most likely cause: ");
        match &probable_cause {
            Some(cause) => push_str(&mut summary, cause.as_str()),
            None => push_str(&mut summary, "unknown"),
        }
    }
    assert(summary@ =~= summary_of(all));
    DiagnosticReport { checks, summary: string_of(&summary), probable_cause, suggested_fixes }
}

/// The probable cause is the message of the first error in the order of the
/// checks, whatever follows it.
pub proof fn law_first_error_wins(checks: Seq<Outcome>, i: int)
    requires
        0 <= i < checks.len(),
        checks[i].status == CheckStatus::Error,
        forall|j: int| 0 <= j < i ==> checks[j].status != CheckStatus::Error,
    ensures
        first_error(checks) == Some(checks[i].message),
    decreases checks.len(),
{
    if i == checks.len() - 1 {
        lemma_no_error(checks.drop_last());
    } else {
        law_first_error_wins(checks.drop_last(), i);
    }
}

/// Without an error there is no probable cause.
pub proof fn lemma_no_error(checks: Seq<Outcome>)
    requires
        forall|j: int| 0 <= j < checks.len() ==> checks[j].status != CheckStatus::Error,
    ensures
        first_error(checks) is None,
    decreases checks.len(),
{
    if checks.len() > 0 {
        lemma_no_error(checks.drop_last());
    }
}

/// Adding warnings' entries to a list keeps the list as its beginning.
pub proof fn lemma_base_kept(base: Seq<Seq<char>>, checks: Seq<Outcome>)
    ensures
        base.is_prefix_of(with_warning_fixes(base, checks)),
    decreases checks.len(),
{
    if checks.len() > 0 {
        lemma_base_kept(base, checks.drop_last());
    }
}

/// The list of things to do begins with the errors' entries: every entry of
/// an error stands before every entry that a warning added.
pub proof fn law_errors_first(checks: Seq<Outcome>)
    ensures
        error_fixes(checks).is_prefix_of(fixes_of(checks)),
{
    lemma_base_kept(error_fixes(checks), checks);
}

/// The errors' entries only grow as more outcomes are looked at.
pub proof fn lemma_error_fixes_grow(checks: Seq<Outcome>, i: int)
    requires
        0 <= i <= checks.len(),
    ensures
        error_fixes(checks.take(i)).is_prefix_of(error_fixes(checks)),
    decreases checks.len() - i,
{
    if i == checks.len() {
        assert(checks.take(i) == checks);
    } else {
        assert(checks.take(i + 1).drop_last() == checks.take(i));
        lemma_error_fixes_grow(checks, i + 1);
    }
}

/// Every error that carries a suggestion has an entry of its own in the list
/// of things to do, after the entries of the errors before it: errors are
/// listed even where their texts are the same.
pub proof fn law_every_error_listed(checks: Seq<Outcome>, i: int)
    requires
        0 <= i < checks.len(),
        checks[i].status == CheckStatus::Error,
        checks[i].suggestion is Some,
    ensures
        error_fixes(checks.take(i)).len() < fixes_of(checks).len(),
        fixes_of(checks)[error_fixes(checks.take(i)).len() as int] == fix_of(checks[i]).unwrap(),
{
    assert(checks.take(i + 1).drop_last() == checks.take(i));
    assert(checks.take(i + 1).last() == checks[i]);
    lemma_error_fixes_grow(checks, i + 1);
    law_errors_first(checks);
    let k = error_fixes(checks.take(i)).len() as int;
    let upto = error_fixes(checks.take(i + 1));
    let errors = error_fixes(checks);
    assert(upto[k] == fix_of(checks[i]).unwrap());
    assert(errors.subrange(0, upto.len() as int)[k] == upto[k]);
    assert(fixes_of(checks).subrange(0, errors.len() as int)[k] == errors[k]);
}

/// An entry that a warning added stands nowhere earlier in the list.
pub proof fn lemma_added_once(base: Seq<Seq<char>>, checks: Seq<Outcome>)
    ensures
        forall|a: int, b: int|
            0 <= a < b < with_warning_fixes(base, checks).len() && base.len() <= b
                ==> with_warning_fixes(base, checks)[a] != with_warning_fixes(base, checks)[b],
    decreases checks.len(),
{
    if checks.len() > 0 {
        lemma_added_once(base, checks.drop_last());
        lemma_base_kept(base, checks.drop_last());
    }
}

/// The entry of a warning is in the list once warnings' entries are added.
pub proof fn lemma_warning_added(base: Seq<Seq<char>>, checks: Seq<Outcome>, i: int)
    requires
        0 <= i < checks.len(),
        checks[i].status == CheckStatus::Warning,
        checks[i].suggestion is Some,
    ensures
        with_warning_fixes(base, checks).contains(fix_of(checks[i]).unwrap()),
    decreases checks.len(),
{
    let fix = fix_of(checks[i]).unwrap();
    let before = with_warning_fixes(base, checks.drop_last());
    let after = with_warning_fixes(base, checks);
    if i == checks.len() - 1 {
        if before.contains(fix) {
        } else {
            assert(after[before.len() as int] == fix);
        }
    } else {
        lemma_warning_added(base, checks.drop_last(), i);
        let k = choose|k: int| 0 <= k < before.len() && before[k] == fix;
        assert(after[k] == fix);
    }
}

/// Every warning that carries a suggestion is in the list of things to do,
/// and a text that a warning added stands nowhere earlier in the list: of
/// warnings with the same text, and of a warning with the text of an error,
/// only the first entry is there.
pub proof fn law_warnings_listed_once(checks: Seq<Outcome>)
    ensures
        forall|i: int|
            0 <= i < checks.len() && checks[i].status == CheckStatus::Warning
                && checks[i].suggestion is Some ==> fixes_of(checks).contains(
                fix_of(#[trigger] checks[i]).unwrap(),
            ),
        forall|a: int, b: int|
            0 <= a < b < fixes_of(checks).len() && error_fixes(checks).len() <= b ==> fixes_of(
                checks,
            )[a] != fixes_of(checks)[b],
{
    lemma_added_once(error_fixes(checks), checks);
    assert forall|i: int|
        0 <= i < checks.len() && checks[i].status == CheckStatus::Warning
            && checks[i].suggestion is Some implies fixes_of(checks).contains(
        fix_of(#[trigger] checks[i]).unwrap(),
    ) by {
        lemma_warning_added(error_fixes(checks), checks, i);
    }
}

/// An outcome without the raw text it looked at.
pub open spec fn without_debug(o: Outcome) -> Outcome {
    Outcome { debug_info: None, ..o }
}

/// A report whose checks do not show the raw text they looked at.
pub open spec fn quiet(report: Diagnosis) -> Diagnosis {
    Diagnosis {
        checks: Seq::new(report.checks.len(), |i: int| without_debug(report.checks[i])),
        ..report
    }
}

/// The report without the raw text that the checks looked at.
pub fn hide_debug(report: DiagnosticReport) -> (r: DiagnosticReport)
    ensures
        r@ == quiet(report@),
{
    let mut checks: Vec<CheckResult> = Vec::new();
    let mut i: usize = 0;
    while i < report.checks.len()
        invariant
            i <= report.checks.len(),
            checks.len() == i,
            forall|k: int| 0 <= k < i ==> (#[trigger] checks@[k])@ == without_debug(report.checks@[k]@),
        decreases report.checks.len() - i,
    {
        let check = &report.checks[i];
        checks.push(
            CheckResult {
                name: check.name.clone(),
                status: check.status,
                message: check.message.clone(),
                suggestion: match &check.suggestion {
                    Some(s) => Some(s.clone()),
                    None => None,
                },
                debug_info: None,
            },
        );
        i = i + 1;
    }
    assert(outcomes(checks@) =~= quiet(report@).checks);
    DiagnosticReport {
        checks,
        summary: report.summary,
        probable_cause: report.probable_cause,
        suggested_fixes: report.suggested_fixes,
    }
}

} // verus!

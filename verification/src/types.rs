//! The outcome of a check and the report built from all of them.

use crate::text::texts;
use vstd::prelude::*;

verus! {

/// How a check ended.
#[derive(Debug, Clone, Copy, PartialEq, Eq, Structural)]
pub enum CheckStatus {
    Okay,
    Warning,
    Error,
}

/// The sign shown for a status in human-readable output.
pub open spec fn emoji_of(status: CheckStatus) -> Seq<char> {
    match status {
        CheckStatus::Okay => "✅"@,
        CheckStatus::Warning => "⚠️"@,
        CheckStatus::Error => "❌"@,
    }
}

impl CheckStatus {
    /// The sign shown for this status in human-readable output.
    pub fn emoji(&self) -> (r: &'static str)
        ensures
            r@ == emoji_of(*self),
    {
        match self {
            CheckStatus::Okay => "✅",
            CheckStatus::Warning => "⚠️",
            CheckStatus::Error => "❌",
        }
    }
}

/// The result of one check.
#[derive(Debug, Clone)]
pub struct CheckResult {
    /// The check's name, a stable key.
    pub name: String,
    pub status: CheckStatus,
    /// What was found, for a human reader.
    pub message: String,
    /// How to mend it, where something can be done.
    pub suggestion: Option<String>,
    /// The raw text the check looked at.
    pub debug_info: Option<String>,
}

/// The result of one check as plain values.
pub struct Outcome {
    pub name: Seq<char>,
    pub status: CheckStatus,
    pub message: Seq<char>,
    pub suggestion: Option<Seq<char>>,
    pub debug_info: Option<Seq<char>>,
}

/// The characters of an optional string.
pub open spec fn opt_text(s: Option<String>) -> Option<Seq<char>> {
    match s {
        Some(t) => Some(t@),
        None => None,
    }
}

impl View for CheckResult {
    type V = Outcome;

    open spec fn view(&self) -> Outcome {
        Outcome {
            name: self.name@,
            status: self.status,
            message: self.message@,
            suggestion: opt_text(self.suggestion),
            debug_info: opt_text(self.debug_info),
        }
    }
}

/// An outcome without suggestion.
pub open spec fn ok_outcome(name: Seq<char>, message: Seq<char>) -> Outcome {
    Outcome { name, status: CheckStatus::Okay, message, suggestion: None, debug_info: None }
}

/// A warning with its suggestion.
pub open spec fn warning_outcome(
    name: Seq<char>,
    message: Seq<char>,
    suggestion: Seq<char>,
) -> Outcome {
    Outcome {
        name,
        status: CheckStatus::Warning,
        message,
        suggestion: Some(suggestion),
        debug_info: None,
    }
}

/// An error with its suggestion.
pub open spec fn error_outcome(
    name: Seq<char>,
    message: Seq<char>,
    suggestion: Seq<char>,
) -> Outcome {
    Outcome {
        name,
        status: CheckStatus::Error,
        message,
        suggestion: Some(suggestion),
        debug_info: None,
    }
}

/// The outcome `o` with `debug` as the raw text it looked at.
pub open spec fn debugged(o: Outcome, debug: Seq<char>) -> Outcome {
    Outcome { debug_info: Some(debug), ..o }
}

impl CheckResult {
    /// A result that found nothing wrong.
    pub fn ok(name: &str, message: &str) -> (r: CheckResult)
        ensures
            r@ == ok_outcome(name@, message@),
    {
        CheckResult {
            name: String::from_str(name),
            status: CheckStatus::Okay,
            message: String::from_str(message),
            suggestion: None,
            debug_info: None,
        }
    }

    /// A result that found something that may matter.
    pub fn warning(name: &str, message: &str, suggestion: &str) -> (r: CheckResult)
        ensures
            r@ == warning_outcome(name@, message@, suggestion@),
    {
        CheckResult {
            name: String::from_str(name),
            status: CheckStatus::Warning,
            message: String::from_str(message),
            suggestion: Some(String::from_str(suggestion)),
            debug_info: None,
        }
    }

    /// A result that found a fault.
    pub fn error(name: &str, message: &str, suggestion: &str) -> (r: CheckResult)
        ensures
            r@ == error_outcome(name@, message@, suggestion@),
    {
        CheckResult {
            name: String::from_str(name),
            status: CheckStatus::Error,
            message: String::from_str(message),
            suggestion: Some(String::from_str(suggestion)),
            debug_info: None,
        }
    }

    /// This result with `debug` as the raw text it looked at.
    pub fn with_debug(self, debug: &str) -> (r: CheckResult)
        ensures
            r@ == debugged(self@, debug@),
    {
        CheckResult {
            name: self.name,
            status: self.status,
            message: self.message,
            suggestion: self.suggestion,
            debug_info: Some(String::from_str(debug)),
        }
    }
}

/// The outcomes held by a list of results.
pub open spec fn outcomes(v: Seq<CheckResult>) -> Seq<Outcome> {
    Seq::new(v.len(), |i: int| v[i]@)
}

/// The diagnosis of one run.
#[derive(Debug, Clone)]
pub struct DiagnosticReport {
    /// The results of all checks, in the order the checks ran.
    pub checks: Vec<CheckResult>,
    pub summary: String,
    /// The message of the first error, where there is one.
    pub probable_cause: Option<String>,
    /// What to do, most urgent first.
    pub suggested_fixes: Vec<String>,
}

/// A report as plain values.
pub struct Diagnosis {
    pub checks: Seq<Outcome>,
    pub summary: Seq<char>,
    pub probable_cause: Option<Seq<char>>,
    pub suggested_fixes: Seq<Seq<char>>,
}

impl View for DiagnosticReport {
    type V = Diagnosis;

    open spec fn view(&self) -> Diagnosis {
        Diagnosis {
            checks: outcomes(self.checks@),
            summary: self.summary@,
            probable_cause: opt_text(self.probable_cause),
            suggested_fixes: texts(self.suggested_fixes@),
        }
    }
}

} // verus!

//! Classification of decoded report lines by severity.  A line that holds the
//! error marker is an error; otherwise one that holds the warning marker is a
//! warning; every other line is ordinary output.  This is a heuristic over
//! interpreter-echoed text, not a structured protocol: a line that merely
//! mentions the marker — a path, say — is tagged by design.

use crate::text::{
    chars_of_str, contains_pattern, has_substring, split_lines, split_lines_chars,
    string_from_chars,
};
use vstd::prelude::*;

verus! {

/// Severity of one decoded output line.
#[derive(Clone, Copy, Debug, PartialEq, Eq, Structural)]
pub enum Severity {
    Okay,
    Warning,
    Error,
}

/// One classified line of a report.
#[derive(Clone, Debug)]
pub struct LogLine {
    pub severity: Severity,
    pub text: String,
}

/// The marker whose presence tags a line as an error.
pub open spec fn error_marker() -> Seq<char> {
    "Error"@
}

/// The marker whose presence tags a line as a warning.
pub open spec fn warning_marker() -> Seq<char> {
    "Warning"@
}

/// Severity of one line: the error check precedes the warning check, and a
/// line with neither marker is ordinary output.
pub open spec fn line_severity(line: Seq<char>) -> Severity {
    if has_substring(line, error_marker()) {
        Severity::Error
    } else if has_substring(line, warning_marker()) {
        Severity::Warning
    } else {
        Severity::Okay
    }
}

/// Tags one line with its severity.
pub fn severity_of(line: &Vec<char>) -> (s: Severity)
    ensures
        s == line_severity(line@),
{
    let error_pat = chars_of_str("Error");
    let warning_pat = chars_of_str("Warning");
    if contains_pattern(line, &error_pat) {
        Severity::Error
    } else if contains_pattern(line, &warning_pat) {
        Severity::Warning
    } else {
        Severity::Okay
    }
}

/// Splits a decoded report into lines and tags each with its severity.
pub fn classify(report: &str) -> (r: Vec<LogLine>)
    ensures
        r@.len() == split_lines(report@).len(),
        forall|i: int|
            0 <= i < r@.len() ==> r@[i].severity == line_severity(split_lines(report@)[i])
                && r@[i].text@ == split_lines(report@)[i],
{
    let chars = chars_of_str(report);
    let lines = split_lines_chars(&chars);
    let n = lines.len();
    let mut r: Vec<LogLine> = Vec::new();
    let mut i: usize = 0;
    while i < n
        invariant
            i <= n,
            n == lines@.len(),
            n == split_lines(report@).len(),
            forall|k: int| 0 <= k < n ==> lines@[k]@ == split_lines(report@)[k],
            r@.len() == i,
            forall|k: int|
                0 <= k < i ==> r@[k].severity == line_severity(split_lines(report@)[k])
                    && r@[k].text@ == split_lines(report@)[k],
        decreases n - i,
    {
        let severity = severity_of(&lines[i]);
        let text = string_from_chars(&lines[i]);
        r.push(LogLine { severity, text });
        i += 1;
    }
    r
}

/// Classification precedence: a line that holds both the error marker and the
/// warning marker is always classified an error, never a warning.
pub proof fn lemma_error_precedes_warning(line: Seq<char>)
    requires
        has_substring(line, error_marker()),
        has_substring(line, warning_marker()),
    ensures
        line_severity(line) == Severity::Error,
{
}

} // verus!

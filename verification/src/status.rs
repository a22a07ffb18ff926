//! Status-line messages and their severity.
use vstd::prelude::*;

verus! {

/// How serious a status message is.
#[derive(Debug, Clone, Copy, Eq, PartialEq, Structural, PartialOrd, Ord)]
pub enum Severity {
    Hint,
    Info,
    Warning,
    Error,
}

/// A message for the status line.
pub struct StatusMessage {
    pub severity: Severity,
    pub message: String,
}

impl StatusMessage {
    /// A message with the given severity.
    pub fn new(severity: Severity, message: String) -> (r: StatusMessage)
        ensures
            r.severity == severity,
            r.message@ == message@,
    {
        StatusMessage { severity, message }
    }
}

} // verus!

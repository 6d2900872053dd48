//! Why the uptime of a process could not be worked out.

use crate::procfs::PseudoFile;
use vstd::prelude::*;

verus! {

/// What is wrong with a field of a pseudo-file.
#[derive(Debug, Clone, Copy, PartialEq, Eq, Hash, Structural)]
pub enum FieldFault {
    /// The text has too few fields.
    Missing,
    /// The field does not write a number.
    NotANumber,
}

/// The failures of a resolution.
#[derive(Debug, Clone, Copy, PartialEq, Eq, Hash, Structural)]
pub enum UptimeError {
    /// The pseudo-file could not be read: the process does not exist, or
    /// the caller may not look at it.
    NotFound { file: PseudoFile },
    /// The field at position `index`, counted from zero, of the
    /// pseudo-file is missing or is no number.
    MalformedData { file: PseudoFile, index: usize, fault: FieldFault },
    /// The process-listing tool did not run, failed, or printed something
    /// other than a number.
    ToolFailure,
    /// The system did not tell how many clock ticks make a second.
    SystemQueryFailure,
    /// The process would have started after the moment of the reading.
    ClockFailure,
}

impl UptimeError {
    /// The words that describe the failure.
    pub open spec fn description_text(self) -> Seq<char> {
        match self {
            UptimeError::NotFound { .. } => "pseudo-file not found"@,
            UptimeError::MalformedData { fault: FieldFault::Missing, .. } => "expected field not found"@,
            UptimeError::MalformedData { fault: FieldFault::NotANumber, .. } => "could not parse value as a number"@,
            UptimeError::ToolFailure => "process-listing tool failed"@,
            UptimeError::SystemQueryFailure => "clock ticks per second not available"@,
            UptimeError::ClockFailure => "process started after the time of reading"@,
        }
    }

    /// Describes the failure in a few words.
    pub fn description(&self) -> (words: &'static str)
        ensures
            words@ == self.description_text(),
    {
        match self {
            UptimeError::NotFound { .. } => "pseudo-file not found",
            UptimeError::MalformedData { fault: FieldFault::Missing, .. } => "expected field not found",
            UptimeError::MalformedData { fault: FieldFault::NotANumber, .. } => "could not parse value as a number",
            UptimeError::ToolFailure => "process-listing tool failed",
            UptimeError::SystemQueryFailure => "clock ticks per second not available",
            UptimeError::ClockFailure => "process started after the time of reading",
        }
    }
}

} // verus!

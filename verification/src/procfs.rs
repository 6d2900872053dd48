//! The kernel's pseudo-files: where they are, and the numbers in their
//! fields.

use crate::error::{FieldFault, UptimeError};
use crate::number::{append_decimal, decimal_text, floor_value, parse_floor};
use crate::text::{chars_of, field, find_field};
use vstd::prelude::*;
use vstd::slice::slice_subrange;
use vstd::string::StringExecFns;

verus! {

/// The position, counted from zero, of the seconds since boot in the
/// system's uptime file.
pub const SYSTEM_UPTIME_FIELD: usize = 0;

/// The position, counted from zero, of the start time in the status line
/// of a process: its twenty-second field.
pub const START_TIME_FIELD: usize = 21;

/// A pseudo-file in which the kernel reports on the system or on a
/// process.
#[derive(Debug, Clone, Copy, PartialEq, Eq, Hash, Structural)]
pub enum PseudoFile {
    /// The file that holds the seconds since boot.
    SystemUptime,
    /// The status line of the process `pid`.
    ProcessStat { pid: u32 },
    /// The entry of the process `pid` in the process tree.
    ProcessEntry { pid: u32 },
}

impl PseudoFile {
    /// Where the pseudo-file is found.
    pub open spec fn path_text(self) -> Seq<char> {
        match self {
            PseudoFile::SystemUptime => "/proc/uptime"@,
            PseudoFile::ProcessStat { pid } => "/proc/"@ + decimal_text(pid as nat) + "/stat"@,
            PseudoFile::ProcessEntry { pid } => "/proc/"@ + decimal_text(pid as nat),
        }
    }

    /// The path of the pseudo-file.
    pub fn path(&self) -> (path: String)
        ensures
            path@ == self.path_text(),
    {
        match self {
            PseudoFile::SystemUptime => String::from_str("/proc/uptime"),
            PseudoFile::ProcessStat { pid } => {
                let mut path = String::from_str("/proc/");
                append_decimal(&mut path, *pid);
                path.append("/stat");
                path
            },
            PseudoFile::ProcessEntry { pid } => {
                let mut path = String::from_str("/proc/");
                append_decimal(&mut path, *pid);
                path
            },
        }
    }
}

/// The number in the field of `content` at position `index`, rounded down,
/// or what is wrong with that field of `file`.
pub open spec fn field_floor(file: PseudoFile, index: usize, content: Seq<char>) -> Result<
    u64,
    UptimeError,
> {
    match field(content, index as nat) {
        None => Err(UptimeError::MalformedData { file, index, fault: FieldFault::Missing }),
        Some(word) => match floor_value(word) {
            None => Err(UptimeError::MalformedData { file, index, fault: FieldFault::NotANumber }),
            Some(value) => Ok(value),
        },
    }
}

/// Reads the field of `content` at position `index` as a decimal and rounds
/// it down. `file` is the pseudo-file that `content` was read from: an
/// error names it.
pub fn read_field_floor(file: PseudoFile, index: usize, content: &str) -> (value: Result<
    u64,
    UptimeError,
>)
    ensures
        value == field_floor(file, index, content@),
{
    let chars = chars_of(content);
    match find_field(chars.as_slice(), index) {
        None => Err(UptimeError::MalformedData { file, index, fault: FieldFault::Missing }),
        Some((start, end)) => {
            let word = slice_subrange(chars.as_slice(), start, end);
            match parse_floor(word) {
                None => Err(
                    UptimeError::MalformedData { file, index, fault: FieldFault::NotANumber },
                ),
                Some(value) => Ok(value),
            }
        },
    }
}

} // verus!

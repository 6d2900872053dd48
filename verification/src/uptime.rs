//! The uptime of a process, from the readings that the system offers.
//!
//! Two readings give it. The process-listing tool prints the seconds since
//! the process started. Failing that, the kernel's pseudo-files give the
//! seconds since boot and the clock ticks between boot and the start of the
//! process: the difference, in seconds, is the uptime.

use crate::error::{FieldFault, UptimeError};
use crate::number::{decimal_floor, is_decimal, is_digit, parse_unsigned, saturate, unsigned_value};
use crate::procfs::{
    field_floor, read_field_floor, PseudoFile, START_TIME_FIELD, SYSTEM_UPTIME_FIELD,
};
use crate::resolver::{clock_ticks, file_content, tool_seconds, Reply, Resolver, Step};
use crate::text::{
    bytes_as_chars, chars_of_bytes, fields, is_whitespace, is_word, lemma_fields_first_word,
    line_end, strip_line_ending,
};
use vstd::pervasive::unreached;
use vstd::prelude::*;
use vstd::slice::slice_subrange;

verus! {

/// A process and the time it has been running.
#[derive(Debug, Clone, Copy, PartialEq, Eq, Hash, Structural)]
pub struct ProcessUptime {
    /// The identifier of the process.
    pub pid: u32,
    /// The whole seconds that the process has been running.
    pub uptime: u64,
}

impl ProcessUptime {
    /// The seconds since boot that the uptime file's `content` reports: its
    /// first field, rounded down.
    pub open spec fn system_uptime_in(content: Seq<char>) -> Result<u64, UptimeError> {
        field_floor(PseudoFile::SystemUptime, SYSTEM_UPTIME_FIELD, content)
    }

    /// The clock ticks between boot and the start of the process `pid` that
    /// its status line `content` reports: its twenty-second field.
    pub open spec fn start_ticks_in(pid: u32, content: Seq<char>) -> Result<u64, UptimeError> {
        field_floor(PseudoFile::ProcessStat { pid }, START_TIME_FIELD, content)
    }

    /// The seconds that the process-listing tool reports in `output`: the
    /// unsigned integer that is left once the line ending is taken off.
    pub open spec fn etime_in(output: Seq<u8>) -> Result<u64, UptimeError> {
        match unsigned_value(strip_line_ending(bytes_as_chars(output))) {
            Some(seconds) => Ok(seconds),
            None => Err(UptimeError::ToolFailure),
        }
    }

    /// The uptime of a process that started `start_ticks` clock ticks
    /// after boot, `system_uptime` seconds after boot, where
    /// `ticks_per_second` clock ticks make a second.
    pub open spec fn uptime_at(system_uptime: u64, start_ticks: u64, ticks_per_second: i64) -> Result<
        u64,
        UptimeError,
    > {
        if ticks_per_second <= 0 {
            Err(UptimeError::SystemQueryFailure)
        } else if start_ticks as int / ticks_per_second as int > system_uptime {
            Err(UptimeError::ClockFailure)
        } else {
            Ok((system_uptime - start_ticks as int / ticks_per_second as int) as u64)
        }
    }

    /// The uptime of the process `pid` that follows from the content of
    /// the uptime file, the content of the status line and the clock ticks
    /// per second. The first reading that fails decides the error.
    pub open spec fn proc_stat_uptime_in(
        pid: u32,
        uptime_content: Seq<char>,
        stat_content: Seq<char>,
        ticks_per_second: i64,
    ) -> Result<u64, UptimeError> {
        match Self::system_uptime_in(uptime_content) {
            Err(e) => Err(e),
            Ok(system_uptime) => match Self::start_ticks_in(pid, stat_content) {
                Err(e) => Err(e),
                Ok(start_ticks) => Self::uptime_at(system_uptime, start_ticks, ticks_per_second),
            },
        }
    }

    /// The uptime of the process `pid` whose entry in the process tree was
    /// last modified at `modified`, at the time `now`, both in seconds
    /// since the same epoch.
    pub open spec fn since_modified_at(pid: u32, modified: u64, now: u64) -> Result<
        ProcessUptime,
        UptimeError,
    > {
        if now < modified {
            Err(UptimeError::ClockFailure)
        } else {
            Ok(ProcessUptime { pid, uptime: (now - modified) as u64 })
        }
    }

    /// The record that the four readings give for the process `pid`: the
    /// number of the process-listing tool where it gives one, and else
    /// what the kernel's readings give, the first of them that fails
    /// deciding the error.
    pub open spec fn resolved(pid: u32, tool: Reply, uptime: Reply, stat: Reply, ticks: Reply) -> Result<
        ProcessUptime,
        UptimeError,
    > {
        match tool_seconds(tool) {
            Ok(seconds) => Ok(ProcessUptime { pid, uptime: seconds }),
            Err(_) => match file_content(PseudoFile::SystemUptime, uptime) {
                Err(e) => Err(e),
                Ok(uptime_content) => match Self::system_uptime_in(uptime_content) {
                    Err(e) => Err(e),
                    Ok(system_uptime) => match file_content(
                        PseudoFile::ProcessStat { pid },
                        stat,
                    ) {
                        Err(e) => Err(e),
                        Ok(stat_content) => match Self::start_ticks_in(pid, stat_content) {
                            Err(e) => Err(e),
                            Ok(start_ticks) => match Self::uptime_at(
                                system_uptime,
                                start_ticks,
                                clock_ticks(ticks),
                            ) {
                                Err(e) => Err(e),
                                Ok(uptime) => Ok(ProcessUptime { pid, uptime }),
                            },
                        },
                    },
                },
            },
        }
    }

    /// Reads the seconds since boot from the content of the system's
    /// uptime file.
    ///
    /// The first field of `content` is read as a non-negative decimal and
    /// rounded down. The error says whether the field is missing or is no
    /// number.
    pub fn system_uptime(content: &str) -> (seconds: Result<u64, UptimeError>)
        ensures
            seconds == Self::system_uptime_in(content@),
    {
        read_field_floor(PseudoFile::SystemUptime, SYSTEM_UPTIME_FIELD, content)
    }

    /// Reads the start time of the process `pid`, in clock ticks since
    /// boot, from the content of its status line.
    ///
    /// The twenty-second field of `content` is read as a non-negative
    /// decimal and rounded down. The error says whether the field is
    /// missing or is no number.
    pub fn process_uptime(pid: u32, content: &str) -> (ticks: Result<u64, UptimeError>)
        ensures
            ticks == Self::start_ticks_in(pid, content@),
    {
        read_field_floor(PseudoFile::ProcessStat { pid }, START_TIME_FIELD, content)
    }

    /// Reads the seconds since the start of a process from what the
    /// process-listing tool printed.
    ///
    /// A line feed at the end of `output`, and a carriage return before
    /// it, are taken off. What is left has to be a run of digits that fits
    /// in 64 bits; anything else is a failure of the tool.
    pub fn get_ps_etime(output: &[u8]) -> (seconds: Result<u64, UptimeError>)
        ensures
            seconds == Self::etime_in(output@),
    {
        let chars = chars_of_bytes(output);
        let end = line_end(chars.as_slice());
        match parse_unsigned(slice_subrange(chars.as_slice(), 0, end)) {
            Some(seconds) => Ok(seconds),
            None => Err(UptimeError::ToolFailure),
        }
    }

    /// Works out the uptime from the seconds since boot, the start time
    /// in clock ticks since boot and the clock ticks per second.
    ///
    /// The start time is turned into whole seconds and taken from the
    /// seconds since boot. Clock ticks per second that are not positive
    /// are a failed query of the system; a start after the reading is a
    /// failure of the clock, not an uptime of zero.
    pub fn uptime_since_start(system_uptime: u64, start_ticks: u64, ticks_per_second: i64) -> (uptime:
        Result<u64, UptimeError>)
        ensures
            uptime == Self::uptime_at(system_uptime, start_ticks, ticks_per_second),
    {
        if ticks_per_second <= 0 {
            return Err(UptimeError::SystemQueryFailure);
        }
        let started: u64 = start_ticks / (ticks_per_second as u64);
        if started > system_uptime {
            Err(UptimeError::ClockFailure)
        } else {
            Ok(system_uptime - started)
        }
    }

    /// Works out the uptime of the process `pid` from the kernel's
    /// readings: the content of the system's uptime file, the content of
    /// the status line of the process, and the clock ticks per second.
    ///
    /// The readings are taken in this order, and the first that fails
    /// decides the error.
    pub fn proc_stat_uptime(
        pid: u32,
        uptime_content: &str,
        stat_content: &str,
        ticks_per_second: i64,
    ) -> (uptime: Result<u64, UptimeError>)
        ensures
            uptime == Self::proc_stat_uptime_in(
                pid,
                uptime_content@,
                stat_content@,
                ticks_per_second,
            ),
    {
        let system_uptime = match Self::system_uptime(uptime_content) {
            Ok(seconds) => seconds,
            Err(e) => {
                return Err(e);
            },
        };
        let start_ticks = match Self::process_uptime(pid, stat_content) {
            Ok(ticks) => ticks,
            Err(e) => {
                return Err(e);
            },
        };
        Self::uptime_since_start(system_uptime, start_ticks, ticks_per_second)
    }

    /// Estimates the uptime of the process `pid` from the time at which
    /// its entry in the process tree was last modified.
    ///
    /// `modified` and `now` are seconds since the same epoch. The estimate
    /// is `now - modified`. It may fall short of the true uptime: the
    /// kernel makes the entry when it is first looked at, which may be
    /// long after the process started. A `modified` that lies after `now`
    /// is a failure of the clock, not an uptime of zero.
    pub fn since_modified(pid: u32, modified: u64, now: u64) -> (record: Result<
        ProcessUptime,
        UptimeError,
    >)
        ensures
            record == Self::since_modified_at(pid, modified, now),
    {
        if now < modified {
            Err(UptimeError::ClockFailure)
        } else {
            Ok(ProcessUptime { pid, uptime: now - modified })
        }
    }

    /// Resolves the uptime of the process `pid` from the replies to the
    /// four readings of a resolution: the process-listing tool, the
    /// system's uptime file, the status line of the process and the clock
    /// ticks per second.
    ///
    /// The tool's number is the uptime where there is one; the other
    /// replies are then not looked at. Otherwise the kernel's readings
    /// give it, and the first of them that fails decides the error.
    pub fn new(pid: u32, tool: &Reply, uptime: &Reply, stat: &Reply, ticks: &Reply) -> (record:
        Result<ProcessUptime, UptimeError>)
        ensures
            record == Self::resolved(pid, *tool, *uptime, *stat, *ticks),
    {
        let resolver = Resolver::start(Some(pid), pid);
        let resolver = match resolver.advance(tool) {
            Step::Continue(resolver) => resolver,
            Step::Done(record) => {
                return Ok(record);
            },
            Step::Failed(e) => {
                return Err(e);
            },
        };
        let resolver = match resolver.advance(uptime) {
            Step::Continue(resolver) => resolver,
            Step::Done(record) => {
                return Ok(record);
            },
            Step::Failed(e) => {
                return Err(e);
            },
        };
        let resolver = match resolver.advance(stat) {
            Step::Continue(resolver) => resolver,
            Step::Done(record) => {
                return Ok(record);
            },
            Step::Failed(e) => {
                return Err(e);
            },
        };
        match resolver.advance(ticks) {
            Step::Continue(_) => unreached(),
            Step::Done(record) => Ok(record),
            Step::Failed(e) => Err(e),
        }
    }
}

/// A decimal is a word: it is not empty and holds no white space.
pub proof fn lemma_decimal_is_word(s: Seq<char>)
    requires
        is_decimal(s),
    ensures
        is_word(s),
{
    assert forall|i: int| 0 <= i < s.len() implies !is_whitespace(#[trigger] s[i]) by {
        assert(is_digit(s[i]) || s[i] == '.');
    }
}

/// A text that starts with a decimal, followed by nothing or by white
/// space and anything, reports the whole part of that decimal as the
/// seconds since boot.
pub proof fn lemma_system_uptime_reads_first_decimal(a: Seq<char>, rest: Seq<char>)
    requires
        is_decimal(a),
        rest.len() > 0 ==> is_whitespace(rest[0]),
    ensures
        ProcessUptime::system_uptime_in(a + rest) == Ok::<u64, UptimeError>(
            saturate(decimal_floor(a)),
        ),
{
    let s = a + rest;
    lemma_decimal_is_word(a);
    assert forall|i: int| 0 <= i < a.len() implies !is_whitespace(#[trigger] s[i]) by {
        assert(s[i] == a[i]);
    }
    if rest.len() > 0 {
        assert(s[a.len() as int] == rest[0]);
    }
    lemma_fields_first_word(s, a.len());
    assert(s.take(a.len() as int) == a);
}

/// The uptime file's line, two non-negative decimals `a` and `b` with a
/// space between them and a line feed at the end, reports `a` rounded down
/// as the seconds since boot, for every `a` and `b`. Where the whole part
/// of `a` is beyond 64 bits, the greatest 64-bit number is reported.
pub proof fn lemma_system_uptime_of_uptime_line(a: Seq<char>, b: Seq<char>)
    requires
        is_decimal(a),
        is_decimal(b),
    ensures
        ProcessUptime::system_uptime_in(a + seq![' '] + b + seq!['\n']) == Ok::<u64, UptimeError>(
            saturate(decimal_floor(a)),
        ),
        decimal_floor(a) <= u64::MAX ==> ProcessUptime::system_uptime_in(
            a + seq![' '] + b + seq!['\n'],
        ) == Ok::<u64, UptimeError>(decimal_floor(a) as u64),
{
    let rest = seq![' '] + b + seq!['\n'];
    assert(rest[0] == ' ');
    lemma_system_uptime_reads_first_decimal(a, rest);
    assert(a + seq![' '] + b + seq!['\n'] == a + rest);
}

/// A status line with fewer than twenty-two fields is malformed: the
/// error names the status line of the process and the missing field.
pub proof fn lemma_short_status_line_is_malformed(pid: u32, content: Seq<char>)
    requires
        fields(content).len() < 22,
    ensures
        ProcessUptime::start_ticks_in(pid, content) == Err::<u64, UptimeError>(
            UptimeError::MalformedData {
                file: PseudoFile::ProcessStat { pid },
                index: 21,
                fault: FieldFault::Missing,
            },
        ),
{
}

/// A line feed and a carriage return with a line feed are taken off
/// alike: a line reads the same with either ending. The one line of which
/// this does not hold is a number followed by a carriage return, which
/// the line feed alone turns into that number.
pub proof fn lemma_line_endings_read_alike(line: Seq<u8>)
    requires
        line.len() > 0 && line.last() == 13 ==> unsigned_value(
            bytes_as_chars(line.drop_last()),
        ) is None,
    ensures
        ProcessUptime::etime_in(line + seq![10u8]) == ProcessUptime::etime_in(
            line + seq![13u8, 10u8],
        ),
{
    let text = bytes_as_chars(line);
    let unix = bytes_as_chars(line + seq![10u8]);
    let dos = bytes_as_chars(line + seq![13u8, 10u8]);
    assert(10u8 as char == '\n');
    assert(13u8 as char == '\r');
    assert(unix.drop_last() == text);
    assert(dos.drop_last().drop_last() == text);
    assert(dos.drop_last().last() == '\r');
    assert(strip_line_ending(dos) == text);
    if line.len() > 0 && line.last() == 13 {
        assert(text.last() == '\r');
        assert(text.drop_last() == bytes_as_chars(line.drop_last()));
        assert(strip_line_ending(unix) == text.drop_last());
        assert(!is_digit(text[text.len() - 1]));
    } else {
        if line.len() > 0 {
            assert(text.last() == line.last() as char);
        }
        assert(strip_line_ending(unix) == text);
    }
}

/// A line that ends in neither a line feed nor a carriage return reads
/// the same with a line ending as without one.
pub proof fn lemma_line_ending_adds_nothing(line: Seq<u8>)
    requires
        line.len() > 0 ==> line.last() != 10 && line.last() != 13,
    ensures
        ProcessUptime::etime_in(line + seq![10u8]) == ProcessUptime::etime_in(line),
        ProcessUptime::etime_in(line + seq![13u8, 10u8]) == ProcessUptime::etime_in(line),
{
    lemma_line_endings_read_alike(line);
    let text = bytes_as_chars(line);
    let unix = bytes_as_chars(line + seq![10u8]);
    assert(10u8 as char == '\n');
    assert(unix.drop_last() == text);
    if line.len() > 0 {
        assert(text.last() == line.last() as char);
    }
    assert(strip_line_ending(unix) == text);
    assert(strip_line_ending(text) == text);
}

/// Only digits give a number: where the tool's output reads as one, it is
/// made of the bytes of the digits `0` to `9` and of the line ending that
/// was taken off, so output that is no text never reads as a number.
pub proof fn lemma_etime_of_digits_only(output: Seq<u8>)
    requires
        ProcessUptime::etime_in(output) is Ok,
    ensures
        0 < strip_line_ending(bytes_as_chars(output)).len() <= output.len(),
        forall|i: int|
            0 <= i < strip_line_ending(bytes_as_chars(output)).len() ==> 48 <= #[trigger] output[i]
                <= 57,
        forall|i: int| 0 <= i < output.len() ==> #[trigger] output[i] < 128,
{
    let text = bytes_as_chars(output);
    let line = strip_line_ending(text);
    assert forall|i: int| 0 <= i < line.len() implies 48 <= #[trigger] output[i] <= 57 by {
        assert(is_digit(line[i]));
        assert(line[i] == text[i]);
    }
    assert forall|i: int| 0 <= i < output.len() implies #[trigger] output[i] < 128 by {
        if i >= line.len() {
            assert(text[i] == '\n' || text[i] == '\r');
        }
    }
}

/// An uptime is the seconds since boot less the whole seconds between
/// boot and the start of the process. It is never negative and never
/// wraps around: where the start lies after the reading, there is no
/// uptime.
pub proof fn lemma_uptime_is_difference(system_uptime: u64, start_ticks: u64, ticks_per_second: i64)
    requires
        ticks_per_second > 0,
    ensures
        match ProcessUptime::uptime_at(system_uptime, start_ticks, ticks_per_second) {
            Ok(uptime) => 0 <= uptime <= system_uptime && uptime + start_ticks as int
                / ticks_per_second as int == system_uptime,
            Err(e) => e == UptimeError::ClockFailure && start_ticks as int / ticks_per_second as int
                > system_uptime,
        },
{
}

/// The uptime of a process grows as the system's does: a reading taken
/// `later - earlier` seconds after another, of the same process with the
/// same clock, gives an uptime that is greater by exactly that many
/// seconds. So a second resolution never reports less than the first.
pub proof fn lemma_uptime_follows_the_clock(
    earlier: u64,
    later: u64,
    start_ticks: u64,
    ticks_per_second: i64,
)
    requires
        earlier <= later,
        ProcessUptime::uptime_at(earlier, start_ticks, ticks_per_second) is Ok,
    ensures
        ProcessUptime::uptime_at(later, start_ticks, ticks_per_second) is Ok,
        ProcessUptime::uptime_at(later, start_ticks, ticks_per_second).unwrap()
            - ProcessUptime::uptime_at(earlier, start_ticks, ticks_per_second).unwrap() == later
            - earlier,
        ProcessUptime::uptime_at(later, start_ticks, ticks_per_second).unwrap()
            >= ProcessUptime::uptime_at(earlier, start_ticks, ticks_per_second).unwrap(),
{
}

} // verus!

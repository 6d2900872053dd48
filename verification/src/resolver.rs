//! The resolution of an uptime, one reading at a time.
//!
//! A resolution asks for readings of the system and decides after each
//! what comes next. It first asks for the output of the process-listing
//! tool. Only where that gives no number does it ask for the kernel's
//! pseudo-files and for the clock ticks per second. The caller performs
//! each request and hands back the reply.

use crate::error::UptimeError;
use crate::number::{append_decimal, decimal_text};
use crate::procfs::PseudoFile;
use crate::text::bytes_as_chars;
use crate::uptime::ProcessUptime;
use vstd::prelude::*;
use vstd::string::StringExecFns;

verus! {

/// The reading that a resolution waits for.
#[derive(Debug, Clone, Copy, PartialEq, Eq, Hash, Structural)]
pub enum Phase {
    /// The output of the process-listing tool.
    Tool,
    /// The content of the system's uptime file.
    SystemUptime,
    /// The content of the status line of the process, `system_uptime`
    /// seconds after boot.
    ProcessStat { system_uptime: u64 },
    /// The clock ticks per second, for a process that started
    /// `start_ticks` clock ticks after boot.
    ClockTicks { system_uptime: u64, start_ticks: u64 },
}

/// A resolution under way: the process it is about and the reading it
/// waits for.
#[derive(Debug, Clone, Copy, PartialEq, Eq, Hash, Structural)]
pub struct Resolver {
    /// The identifier of the process.
    pub pid: u32,
    /// The reading that is awaited.
    pub phase: Phase,
}

/// What a resolution asks its caller to do.
#[derive(Debug, PartialEq, Eq)]
pub enum Request {
    /// Run `command` in a shell and hand back its exit code and what it
    /// printed.
    RunShell { command: String },
    /// Read the file at `path` and hand back its content.
    ReadFile { path: String },
    /// Ask the system how many clock ticks make a second.
    QueryClockTicks,
}

/// A request, with its texts as sequences of characters.
pub enum RequestView {
    RunShell { command: Seq<char> },
    ReadFile { path: Seq<char> },
    QueryClockTicks,
}

impl View for Request {
    type V = RequestView;

    open spec fn view(&self) -> RequestView {
        match self {
            Request::RunShell { command } => RequestView::RunShell { command: command@ },
            Request::ReadFile { path } => RequestView::ReadFile { path: path@ },
            Request::QueryClockTicks => RequestView::QueryClockTicks,
        }
    }
}

/// What the caller hands back for a request.
#[derive(Debug, PartialEq, Eq)]
pub enum Reply {
    /// The command ran: its exit code, if it ended by itself, and what it
    /// printed.
    ToolExited { code: Option<i32>, output: Vec<u8> },
    /// The command could not be run.
    ToolNotRun,
    /// The content of the file.
    FileContent { content: String },
    /// The file could not be read.
    FileNotRead,
    /// The clock ticks per second as the system gave them; not positive
    /// where the query failed.
    ClockTicks { per_second: i64 },
}

/// Where a resolution stands after a reply.
#[derive(Debug, Clone, Copy, PartialEq, Eq, Hash, Structural)]
pub enum Step {
    /// Another reading is needed.
    Continue(Resolver),
    /// The uptime is known.
    Done(ProcessUptime),
    /// The uptime cannot be known.
    Failed(UptimeError),
}

/// The command that lists the seconds since the start of the process
/// `pid`, and nothing else.
pub open spec fn ps_command_text(pid: u32) -> Seq<char> {
    "ps -o etimes -p "@ + decimal_text(pid as nat) + " --no-headers"@
}

/// The seconds since the start of the process that `reply` reports: the
/// number that the tool printed, where it ran and ended with exit code
/// zero.
pub open spec fn tool_seconds(reply: Reply) -> Result<u64, UptimeError> {
    match reply {
        Reply::ToolExited { code: Some(0), output } => ProcessUptime::etime_in(output@),
        _ => Err(UptimeError::ToolFailure),
    }
}

/// The content of `file` that `reply` hands back.
pub open spec fn file_content(file: PseudoFile, reply: Reply) -> Result<Seq<char>, UptimeError> {
    match reply {
        Reply::FileContent { content } => Ok(content@),
        _ => Err(UptimeError::NotFound { file }),
    }
}

/// The clock ticks per second that `reply` hands back; zero where it is no
/// such reply.
pub open spec fn clock_ticks(reply: Reply) -> i64 {
    match reply {
        Reply::ClockTicks { per_second } => per_second,
        _ => 0,
    }
}

impl Phase {
    /// How many readings came before the one awaited.
    pub open spec fn rank(self) -> nat {
        match self {
            Phase::Tool => 0,
            Phase::SystemUptime => 1,
            Phase::ProcessStat { .. } => 2,
            Phase::ClockTicks { .. } => 3,
        }
    }
}

impl Resolver {
    /// The resolution for the process `pid`, or for the caller's own
    /// process `own_pid` where `pid` is not given, before any reading.
    pub open spec fn started(pid: Option<u32>, own_pid: u32) -> Resolver {
        Resolver {
            pid: match pid {
                Some(pid) => pid,
                None => own_pid,
            },
            phase: Phase::Tool,
        }
    }

    /// What the resolution asks for.
    pub open spec fn request_view(self) -> RequestView {
        match self.phase {
            Phase::Tool => RequestView::RunShell { command: ps_command_text(self.pid) },
            Phase::SystemUptime => RequestView::ReadFile {
                path: PseudoFile::SystemUptime.path_text(),
            },
            Phase::ProcessStat { .. } => RequestView::ReadFile {
                path: (PseudoFile::ProcessStat { pid: self.pid }).path_text(),
            },
            Phase::ClockTicks { .. } => RequestView::QueryClockTicks,
        }
    }

    /// Where the resolution stands after `reply`.
    ///
    /// A tool that gives no number is no failure of the resolution: the
    /// kernel's readings are taken instead. Once they are, the first
    /// reading that fails ends the resolution. A reply of another kind
    /// than the one awaited counts as the failure of the awaited reading.
    pub open spec fn next(self, reply: Reply) -> Step {
        match self.phase {
            Phase::Tool => match tool_seconds(reply) {
                Ok(seconds) => Step::Done(ProcessUptime { pid: self.pid, uptime: seconds }),
                Err(_) => Step::Continue(Resolver { pid: self.pid, phase: Phase::SystemUptime }),
            },
            Phase::SystemUptime => match file_content(PseudoFile::SystemUptime, reply) {
                Err(e) => Step::Failed(e),
                Ok(content) => match ProcessUptime::system_uptime_in(content) {
                    Err(e) => Step::Failed(e),
                    Ok(system_uptime) => Step::Continue(
                        Resolver { pid: self.pid, phase: Phase::ProcessStat { system_uptime } },
                    ),
                },
            },
            Phase::ProcessStat { system_uptime } => match file_content(
                PseudoFile::ProcessStat { pid: self.pid },
                reply,
            ) {
                Err(e) => Step::Failed(e),
                Ok(content) => match ProcessUptime::start_ticks_in(self.pid, content) {
                    Err(e) => Step::Failed(e),
                    Ok(start_ticks) => Step::Continue(
                        Resolver {
                            pid: self.pid,
                            phase: Phase::ClockTicks { system_uptime, start_ticks },
                        },
                    ),
                },
            },
            Phase::ClockTicks { system_uptime, start_ticks } => match ProcessUptime::uptime_at(
                system_uptime,
                start_ticks,
                clock_ticks(reply),
            ) {
                Err(e) => Step::Failed(e),
                Ok(uptime) => Step::Done(ProcessUptime { pid: self.pid, uptime }),
            },
        }
    }

    /// Where the resolution stands after the replies `replies`, taken in
    /// order until the resolution ends.
    pub open spec fn run(self, replies: Seq<Reply>) -> Step
        decreases replies.len(),
    {
        if replies.len() == 0 {
            Step::Continue(self)
        } else {
            match self.next(replies[0]) {
                Step::Continue(resolver) => resolver.run(replies.drop_first()),
                ended => ended,
            }
        }
    }

    /// Starts the resolution for the process `pid`, or for the caller's
    /// own process `own_pid` where `pid` is `None`.
    pub fn start(pid: Option<u32>, own_pid: u32) -> (resolver: Resolver)
        ensures
            resolver == Self::started(pid, own_pid),
    {
        let pid = match pid {
            Some(pid) => pid,
            None => own_pid,
        };
        Resolver { pid, phase: Phase::Tool }
    }

    /// Says what the caller has to do next.
    pub fn request(&self) -> (request: Request)
        ensures
            request@ == self.request_view(),
    {
        match self.phase {
            Phase::Tool => {
                let mut command = String::from_str("ps -o etimes -p ");
                append_decimal(&mut command, self.pid);
                command.append(" --no-headers");
                Request::RunShell { command }
            },
            Phase::SystemUptime => Request::ReadFile { path: PseudoFile::SystemUptime.path() },
            Phase::ProcessStat { .. } => Request::ReadFile {
                path: (PseudoFile::ProcessStat { pid: self.pid }).path(),
            },
            Phase::ClockTicks { .. } => Request::QueryClockTicks,
        }
    }

    /// Takes the reply to the request and decides what comes next.
    pub fn advance(self, reply: &Reply) -> (step: Step)
        ensures
            step == self.next(*reply),
    {
        match self.phase {
            Phase::Tool => {
                let seconds = match reply {
                    Reply::ToolExited { code: Some(0), output } => ProcessUptime::get_ps_etime(
                        output.as_slice(),
                    ),
                    _ => Err(UptimeError::ToolFailure),
                };
                match seconds {
                    Ok(seconds) => Step::Done(ProcessUptime { pid: self.pid, uptime: seconds }),
                    Err(_) => Step::Continue(
                        Resolver { pid: self.pid, phase: Phase::SystemUptime },
                    ),
                }
            },
            Phase::SystemUptime => match reply {
                Reply::FileContent { content } => match ProcessUptime::system_uptime(
                    content.as_str(),
                ) {
                    Err(e) => Step::Failed(e),
                    Ok(system_uptime) => Step::Continue(
                        Resolver { pid: self.pid, phase: Phase::ProcessStat { system_uptime } },
                    ),
                },
                _ => Step::Failed(UptimeError::NotFound { file: PseudoFile::SystemUptime }),
            },
            Phase::ProcessStat { system_uptime } => match reply {
                Reply::FileContent { content } => match ProcessUptime::process_uptime(
                    self.pid,
                    content.as_str(),
                ) {
                    Err(e) => Step::Failed(e),
                    Ok(start_ticks) => Step::Continue(
                        Resolver {
                            pid: self.pid,
                            phase: Phase::ClockTicks { system_uptime, start_ticks },
                        },
                    ),
                },
                _ => Step::Failed(
                    UptimeError::NotFound { file: PseudoFile::ProcessStat { pid: self.pid } },
                ),
            },
            Phase::ClockTicks { system_uptime, start_ticks } => {
                let per_second: i64 = match reply {
                    Reply::ClockTicks { per_second } => *per_second,
                    _ => 0,
                };
                match ProcessUptime::uptime_since_start(system_uptime, start_ticks, per_second) {
                    Err(e) => Step::Failed(e),
                    Ok(uptime) => Step::Done(ProcessUptime { pid: self.pid, uptime }),
                }
            },
        }
    }
}

/// The step that ends a resolution with `outcome`.
pub open spec fn ended_with(pid: u32, outcome: Result<u64, UptimeError>) -> Step {
    match outcome {
        Ok(uptime) => Step::Done(ProcessUptime { pid, uptime }),
        Err(e) => Step::Failed(e),
    }
}

/// A tool that gives no number never ends the resolution: whatever the
/// reply to the first request, the resolution either is done with the
/// number that the tool printed, or goes on to read the system's uptime
/// file.
pub proof fn lemma_tool_failure_falls_back(pid: u32, reply: Reply)
    ensures
        (Resolver { pid, phase: Phase::Tool }).next(reply) == match tool_seconds(reply) {
            Ok(seconds) => Step::Done(ProcessUptime { pid, uptime: seconds }),
            Err(_) => Step::Continue(Resolver { pid, phase: Phase::SystemUptime }),
        },
        !((Resolver { pid, phase: Phase::Tool }).next(reply) is Failed),
        (Resolver { pid, phase: Phase::SystemUptime }).request_view() == (RequestView::ReadFile {
            path: "/proc/uptime"@,
        }),
{
}

/// A tool that prints nothing, as it does where no process matches, gives
/// no number, whatever its exit code: the resolution goes on to the
/// kernel's readings.
pub proof fn lemma_empty_output_falls_back(pid: u32, reply: Reply)
    requires
        reply matches Reply::ToolExited { output, .. } && output@.len() == 0,
    ensures
        (Resolver { pid, phase: Phase::Tool }).next(reply) == Step::Continue(
            Resolver { pid, phase: Phase::SystemUptime },
        ),
{
    let output = reply->output;
    assert(bytes_as_chars(output@).len() == 0);
}

/// Each reply that does not end a resolution takes it to the next
/// reading of the same process, so no resolution asks for more than four
/// readings and none is asked for twice.
pub proof fn lemma_advance_moves_on(resolver: Resolver, reply: Reply)
    ensures
        resolver.next(reply) matches Step::Continue(after) ==> after.pid == resolver.pid
            && after.phase.rank() == resolver.phase.rank() + 1,
        resolver.next(reply) matches Step::Done(record) ==> record.pid == resolver.pid,
{
}

/// Four replies end every resolution.
pub proof fn lemma_four_replies_end(resolver: Resolver, replies: Seq<Reply>)
    requires
        replies.len() == 4,
    ensures
        !(resolver.run(replies) is Continue),
{
    let r0 = resolver;
    let s1 = replies.drop_first();
    let s2 = s1.drop_first();
    let s3 = s2.drop_first();
    let s4 = s3.drop_first();
    assert(s4.len() == 0);
    lemma_advance_moves_on(r0, replies[0]);
    if let Step::Continue(r1) = r0.next(replies[0]) {
        lemma_advance_moves_on(r1, s1[0]);
        if let Step::Continue(r2) = r1.next(s1[0]) {
            lemma_advance_moves_on(r2, s2[0]);
            if let Step::Continue(r3) = r2.next(s2[0]) {
                lemma_advance_moves_on(r3, s3[0]);
                assert(r3.run(s3) == r3.next(s3[0]));
                assert(r2.run(s2) == r3.run(s3));
            }
            assert(r1.run(s1) == r2.run(s2) || r1.run(s1) == r1.next(s1[0]));
        }
    }
}

/// Once the tool has given no number, the kernel's three readings decide:
/// where both pseudo-files are read, the resolution ends as
/// `proc_stat_uptime` does on their contents and the clock ticks per
/// second.
pub proof fn lemma_fallback_is_proc_stat_uptime(pid: u32, uptime: Reply, stat: Reply, ticks: Reply)
    requires
        uptime is FileContent,
        stat is FileContent,
        ticks is ClockTicks,
    ensures
        (Resolver { pid, phase: Phase::SystemUptime }).run(seq![uptime, stat, ticks]) == ended_with(
            pid,
            ProcessUptime::proc_stat_uptime_in(
                pid,
                uptime->content@,
                stat->content@,
                ticks->per_second,
            ),
        ),
{
    let replies = seq![uptime, stat, ticks];
    let r1 = Resolver { pid, phase: Phase::SystemUptime };
    let s2 = replies.drop_first();
    let s3 = s2.drop_first();
    assert(replies[0] == uptime);
    assert(s2[0] == stat);
    assert(s3[0] == ticks);
    assert(s3.drop_first().len() == 0);
    if let Step::Continue(r2) = r1.next(uptime) {
        assert(r1.run(replies) == r2.run(s2));
        if let Step::Continue(r3) = r2.next(stat) {
            assert(r2.run(s2) == r3.run(s3));
            assert(r3.run(s3) == r3.next(ticks));
        }
    }
}

/// Taking the four replies one by one ends where `ProcessUptime::new` ends
/// on the four together.
pub proof fn lemma_run_is_resolved(pid: u32, tool: Reply, uptime: Reply, stat: Reply, ticks: Reply)
    ensures
        Resolver::started(Some(pid), pid).run(seq![tool, uptime, stat, ticks]) == match ProcessUptime::resolved(
            pid,
            tool,
            uptime,
            stat,
            ticks,
        ) {
            Ok(record) => Step::Done(record),
            Err(e) => Step::Failed(e),
        },
{
    let replies = seq![tool, uptime, stat, ticks];
    let r0 = Resolver::started(Some(pid), pid);
    let s1 = replies.drop_first();
    let s2 = s1.drop_first();
    let s3 = s2.drop_first();
    assert(replies[0] == tool);
    assert(s1[0] == uptime);
    assert(s2[0] == stat);
    assert(s3[0] == ticks);
    assert(s3.drop_first().len() == 0);
    if let Step::Continue(r1) = r0.next(tool) {
        assert(r0.run(replies) == r1.run(s1));
        if let Step::Continue(r2) = r1.next(uptime) {
            assert(r1.run(s1) == r2.run(s2));
            if let Step::Continue(r3) = r2.next(stat) {
                assert(r2.run(s2) == r3.run(s3));
                assert(r3.run(s3) == r3.next(ticks));
            }
        }
    }
}

/// A pseudo-file that cannot be read ends the resolution with an error
/// that names it.
pub proof fn lemma_unread_file_is_not_found(resolver: Resolver, reply: Reply)
    requires
        reply is FileNotRead,
    ensures
        resolver.phase is SystemUptime ==> resolver.next(reply) == Step::Failed(
            UptimeError::NotFound { file: PseudoFile::SystemUptime },
        ),
        resolver.phase is ProcessStat ==> resolver.next(reply) == Step::Failed(
            UptimeError::NotFound { file: PseudoFile::ProcessStat { pid: resolver.pid } },
        ),
{
}

} // verus!

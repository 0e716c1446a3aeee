//! What the launcher decides when it starts a command: where the child's
//! standard streams go, what the user is told when a step fails, and what
//! becomes of a child once the job table has answered.
//!
//! Opening files and starting processes is the caller's work. It runs one step,
//! hands the outcome to a function here, and does what the answer says.

use crate::shell::job_list::{JobError, JobList, State, Table};
use crate::shell::text::{decimal, push_decimal};
use vstd::prelude::*;
use vstd::string::StringExecFns;

verus! {

/// What a standard stream of a child is connected to.
#[derive(Debug, PartialEq, Eq)]
pub enum Stream {
    /// The file at this path, created if it is missing and emptied if not.
    File(String),
    /// The shell's own stream: the terminal.
    Inherit,
    /// Nothing: input ends at once, output is thrown away.
    Null,
}

/// What becomes of a child that was started and offered to the job table.
#[derive(Debug, PartialEq, Eq)]
pub enum Registration {
    /// The job `jid` runs in the foreground: wait for it before reading on.
    /// It is known to the table as the process `pid`.
    Foreground { jid: usize, pid: u32 },
    /// The job `jid` runs in the background: show `notice` and leave the job
    /// to a monitor of its own. It is known to the table as the process
    /// `pid`.
    Background { jid: usize, pid: u32, notice: String },
    /// The table turned the job away: kill the child, wait for its exit, and
    /// report `error`.
    Rejected { error: JobError },
}

/// Picks the stream for a job in `state` that asked for `redirect`.
///
/// A path that was asked for wins. Without one a foreground job shares the
/// terminal and a background job is cut off from it.
pub fn resolve_stream(redirect: Option<String>, state: State) -> (stream: Stream)
    ensures
        stream == match redirect {
            Some(path) => Stream::File(path),
            None => match state {
                State::FG => Stream::Inherit,
                State::BG => Stream::Null,
            },
        },
{
    match redirect {
        Some(path) => Stream::File(path),
        None => match state {
            State::FG => Stream::Inherit,
            State::BG => Stream::Null,
        },
    }
}

/// The message for a redirect file that could not be opened.
pub open spec fn redirect_failure_text(reason: Seq<char>) -> Seq<char> {
    "Error opening file: "@ + reason
}

/// The message for a redirect file that could not be opened, with the
/// system's `reason`. No process is started after it.
pub fn redirect_failure(reason: &str) -> (message: String)
    ensures
        message@ == redirect_failure_text(reason@),
{
    let mut message = String::from_str("Error opening file: ");
    message.append(reason);
    message
}

/// The message for a command that could not be started.
pub open spec fn spawn_failure_text(command: Seq<char>, reason: Seq<char>) -> Seq<char> {
    command + " errored: "@ + reason
}

/// The message for a command that could not be started, with the system's
/// `reason`. The job table is not touched for it.
pub fn spawn_failure(command: &str, reason: &str) -> (message: String)
    ensures
        message@ == spawn_failure_text(command@, reason@),
{
    let mut message = String::from_str(command);
    message.append(" errored: ");
    message.append(reason);
    message
}

/// The process id under which a child is registered: its own, or 0 where the
/// system no longer tells it.
pub open spec fn known_pid(pid: Option<u32>) -> u32 {
    match pid {
        Some(p) => p,
        None => 0,
    }
}

/// The line shown when a background job starts: `[id] (pid) command`.
pub open spec fn start_notice(jid: usize, pid: u32, cmdline: Seq<char>) -> Seq<char> {
    "["@ + decimal(jid as nat) + "] ("@ + decimal(pid as nat) + ") "@ + cmdline
}

/// The mathematical value of a [`Registration`].
pub enum RegistrationView {
    Foreground { jid: usize, pid: u32 },
    Background { jid: usize, pid: u32, notice: Seq<char> },
    Rejected { error: JobError },
}

impl View for Registration {
    type V = RegistrationView;

    open spec fn view(&self) -> RegistrationView {
        match self {
            Registration::Foreground { jid, pid } => RegistrationView::Foreground {
                jid: *jid,
                pid: *pid,
            },
            Registration::Background { jid, pid, notice } => RegistrationView::Background {
                jid: *jid,
                pid: *pid,
                notice: notice@,
            },
            Registration::Rejected { error } => RegistrationView::Rejected { error: *error },
        }
    }
}

/// What becomes of a child that is offered to `table`: it is turned away
/// where it asks for the foreground while another job holds it, and else
/// gets the next id and is waited for or left to a monitor.
pub open spec fn registration(
    table: Table,
    pid: Option<u32>,
    state: State,
    cmdline: Seq<char>,
) -> RegistrationView {
    if table.conflicts(state) {
        RegistrationView::Rejected { error: JobError::ForegroundConflict }
    } else {
        let jid = table.next_id() as usize;
        match state {
            State::FG => RegistrationView::Foreground { jid, pid: known_pid(pid) },
            State::BG => RegistrationView::Background {
                jid,
                pid: known_pid(pid),
                notice: start_notice(jid, known_pid(pid), cmdline),
            },
        }
    }
}

/// The table after a child was offered to it: as it was where the child is
/// turned away, else with the child registered.
pub open spec fn after_registration(
    table: Table,
    pid: Option<u32>,
    state: State,
    cmdline: Seq<char>,
) -> Table {
    if table.conflicts(state) {
        table
    } else {
        table.registered(known_pid(pid), state, cmdline)
    }
}

/// Offers a child that was just started to the job table and says what to do
/// with it.
///
/// A child that is turned away is not in the table: it must be killed and
/// reaped by the caller, so that no process runs untracked.
pub fn register(
    table: &mut JobList,
    pid: Option<u32>,
    state: State,
    cmdline: String,
) -> (outcome: Registration)
    requires
        old(table).wf(),
        old(table)@.conflicts(state) || old(table)@.next_id() <= usize::MAX,
    ensures
        final(table).wf(),
        final(table)@ == after_registration(old(table)@, pid, state, cmdline@),
        outcome@ == registration(old(table)@, pid, state, cmdline@),
{
    let pid: u32 = match pid {
        Some(p) => p,
        None => 0,
    };
    match table.add(pid, state, cmdline) {
        Ok(jid) => match state {
            State::FG => Registration::Foreground { jid, pid },
            State::BG => {
                let mut notice = String::from_str("[");
                push_decimal(&mut notice, jid as u64);
                notice.append("] (");
                push_decimal(&mut notice, pid as u64);
                notice.append(") ");
                match table.get_cmdline(jid) {
                    Some(text) => notice.append(text.as_str()),
                    None => {},
                }
                assert(notice@ =~= start_notice(jid, pid, cmdline@));
                Registration::Background { jid, pid, notice }
            },
        },
        Err(error) => Registration::Rejected { error },
    }
}

} // verus!

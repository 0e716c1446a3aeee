//! What a monitor decides once the process of its job has exited.
//!
//! Waiting for the process is the caller's work, and it holds no lock on the
//! table while it waits. When the process is gone the caller takes the table
//! for one call of [`settle`].

use crate::shell::job_list::{JobList, State, Table};
use crate::shell::text::{decimal, push_decimal};
use vstd::prelude::*;
use vstd::string::StringExecFns;

verus! {

/// What a monitor has to print after its job was settled.
#[derive(Debug, PartialEq, Eq)]
pub struct Settlement {
    /// Whether the job was still in the table.
    pub removed: bool,
    /// The line that tells the user that a background job has ended.
    pub notice: Option<String>,
    /// The complaint for a job that was no longer in the table.
    pub complaint: Option<&'static str>,
}

/// The line shown when a background job has ended.
pub open spec fn termination_notice(jid: usize, pid: u32) -> Seq<char> {
    "Job ["@ + decimal(jid as nat) + "] ("@ + decimal(pid as nat) + ") terminated"@
}

/// The complaint for a job that was no longer in the table when its monitor
/// came to remove it.
pub open spec fn removal_complaint() -> Seq<char> {
    "Failed to remove job"@
}

/// The mathematical value of a [`Settlement`].
pub struct SettlementView {
    pub removed: bool,
    pub notice: Option<Seq<char>>,
    pub complaint: Option<Seq<char>>,
}

impl View for Settlement {
    type V = SettlementView;

    open spec fn view(&self) -> SettlementView {
        SettlementView {
            removed: self.removed,
            notice: self.notice.deep_view(),
            complaint: self.complaint.deep_view(),
        }
    }
}

/// What a monitor has to print after the job `jid` of `table`, which ran as
/// the process `pid` in `state`, was settled: a notice for a background job,
/// and a complaint where the job was not in the table.
pub open spec fn settlement(table: Table, jid: usize, pid: u32, state: State) -> SettlementView {
    SettlementView {
        removed: table.jobs.contains_key(jid),
        notice: match state {
            State::FG => None,
            State::BG => Some(termination_notice(jid, pid)),
        },
        complaint: if table.jobs.contains_key(jid) {
            None
        } else {
            Some(removal_complaint())
        },
    }
}

/// Takes the job `jid` out of the table after its process `pid` has exited.
///
/// Only the row of `jid` leaves the table. A background job gets a line that
/// announces its end; a foreground job ends silently.
pub fn settle(table: &mut JobList, jid: usize, pid: u32, state: State) -> (outcome: Settlement)
    requires
        old(table).wf(),
    ensures
        final(table).wf(),
        final(table)@ == old(table)@.removed(jid),
        outcome@ == settlement(old(table)@, jid, pid, state),
{
    let removed = table.delete(jid);
    let complaint = if removed {
        None
    } else {
        Some("Failed to remove job")
    };
    let notice = match state {
        State::FG => None,
        State::BG => {
            let mut line = String::from_str("Job [");
            push_decimal(&mut line, jid as u64);
            line.append("] (");
            push_decimal(&mut line, pid as u64);
            line.append(") terminated");
            assert(line@ =~= termination_notice(jid, pid));
            Some(line)
        },
    };
    Settlement { removed, notice, complaint }
}

} // verus!

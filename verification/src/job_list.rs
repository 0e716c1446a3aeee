//! A job table of fixed size: at most [`MAXJOBS`] jobs, held in place, with
//! command lines that are borrowed rather than owned.

use crate::keys::{highest_below, lemma_highest_below};
use vstd::prelude::*;

verus! {

/// The number of slots in the table. Job ids are the slots' numbers.
pub const MAXJOBS: usize = 64;

/// The state of a job. `NT` marks a slot that holds no job.
#[derive(Clone, Copy, PartialEq, Eq, Debug, Structural)]
pub enum State {
    /// Running in the background.
    BG,
    /// Running in the foreground.
    FG,
    /// Stopped.
    ST,
    /// No job.
    NT,
}

/// Why a job could not be registered.
#[derive(Clone, Copy, PartialEq, Eq, Debug, Structural)]
pub enum JobError {
    /// The job was offered in the state that marks an empty slot.
    InvalidState,
    /// The slot after the watermark does not exist.
    TooManyJobs,
    /// A foreground job was offered while another one is registered.
    ForegroundConflict,
}

impl JobError {
    /// The text that tells the user about the error.
    pub open spec fn message_spec(self) -> Seq<char> {
        match self {
            JobError::InvalidState => "Invalid state for new job"@,
            JobError::TooManyJobs => "Too many jobs"@,
            JobError::ForegroundConflict =>
                "Can't add a foreground job if a foreground job already exists"@,
        }
    }

    /// The text that tells the user about the error.
    pub fn message(&self) -> (text: &'static str)
        ensures
            text@ == self.message_spec(),
    {
        match self {
            JobError::InvalidState => "Invalid state for new job",
            JobError::TooManyJobs => "Too many jobs",
            JobError::ForegroundConflict =>
                "Can't add a foreground job if a foreground job already exists",
        }
    }
}

/// The mathematical value of a [`Job`].
pub struct JobView {
    pub pid: usize,
    pub state: State,
    pub cmdline: Seq<char>,
}

/// One slot of the table: a tracked process, or nothing where the state is
/// `NT`.
#[derive(Clone, Copy)]
pub struct Job<'a> {
    pid: usize,
    state: State,
    cmdline: &'a str,
}

impl<'a> View for Job<'a> {
    type V = JobView;

    closed spec fn view(&self) -> JobView {
        JobView { pid: self.pid, state: self.state, cmdline: self.cmdline@ }
    }
}

/// The smallest id from `from` on whose job runs as the process `pid`, if
/// there is one under [`MAXJOBS`].
pub open spec fn first_with_pid(jobs: Map<usize, JobView>, pid: usize, from: usize) -> Option<usize>
    decreases MAXJOBS - from,
{
    if from >= MAXJOBS {
        None
    } else if jobs.contains_key(from) && jobs[from].pid == pid {
        Some(from)
    } else {
        first_with_pid(jobs, pid, (from + 1) as usize)
    }
}

/// The mathematical value of a [`JobList`].
pub struct Table {
    /// The jobs in the table, by job id.
    pub jobs: Map<usize, JobView>,
    /// The id of the job that runs in the foreground, if there is one.
    pub foreground_job: Option<usize>,
    /// The id from which the next one is counted: no job has a higher one.
    pub high_watermark: Option<usize>,
}

impl Table {
    /// The table without any job.
    pub open spec fn empty() -> Table {
        Table { jobs: Map::empty(), foreground_job: None, high_watermark: None }
    }

    /// Every job sits in a slot, and none is in the state of an empty slot.
    pub open spec fn jobs_in_slots(self) -> bool {
        forall|j: usize| #[trigger]
            self.jobs.contains_key(j) ==> j < MAXJOBS && self.jobs[j].state != State::NT
    }

    /// `foreground_job` names the one job in the foreground, and no other job
    /// is in the foreground.
    pub open spec fn one_foreground(self) -> bool {
        &&& self.foreground_job matches Some(f) ==> self.jobs.contains_key(f) && self.jobs[f].state
            == State::FG
        &&& forall|j: usize| #[trigger]
            self.jobs.contains_key(j) && self.jobs[j].state == State::FG
                ==> self.foreground_job == Some(j)
    }

    /// No job has an id above the watermark, and the watermark names a slot.
    pub open spec fn watermark_bounds(self) -> bool {
        match self.high_watermark {
            Some(w) => w < MAXJOBS && forall|j: usize| #[trigger]
                self.jobs.contains_key(j) ==> j <= w,
            None => forall|j: usize| !#[trigger] self.jobs.contains_key(j),
        }
    }

    /// What holds of the table between any two operations.
    pub open spec fn inv(self) -> bool {
        self.jobs_in_slots() && self.one_foreground() && self.watermark_bounds()
    }

    /// The id that the next registered job gets: one past the watermark.
    pub open spec fn next_id(self) -> nat {
        match self.high_watermark {
            Some(w) => (w + 1) as nat,
            None => 0,
        }
    }

    /// Why a job in `state` is turned away, if it is. The first reason that
    /// applies is given.
    pub open spec fn refusal(self, state: State) -> Option<JobError> {
        if state == State::NT {
            Some(JobError::InvalidState)
        } else if self.next_id() >= MAXJOBS {
            Some(JobError::TooManyJobs)
        } else if state == State::FG && self.foreground_job is Some {
            Some(JobError::ForegroundConflict)
        } else {
            None
        }
    }

    /// The table after a job was registered under `next_id`.
    pub open spec fn registered(self, pid: usize, state: State, cmdline: Seq<char>) -> Table {
        let jid = self.next_id() as usize;
        Table {
            jobs: self.jobs.insert(jid, JobView { pid, state, cmdline }),
            foreground_job: if state == State::FG {
                Some(jid)
            } else {
                self.foreground_job
            },
            high_watermark: Some(jid),
        }
    }

    /// The table after the job `jid` was taken out. A table without that job
    /// stays as it is.
    pub open spec fn removed(self, jid: usize) -> Table {
        if self.jobs.contains_key(jid) {
            Table {
                jobs: self.jobs.remove(jid),
                foreground_job: if self.foreground_job == Some(jid) {
                    None
                } else {
                    self.foreground_job
                },
                high_watermark: if self.high_watermark == Some(jid) {
                    highest_below(self.jobs.dom(), jid)
                } else {
                    self.high_watermark
                },
            }
        } else {
            self
        }
    }

    /// Whether the job `jid` can be put into `state`: it is in the table, and
    /// the foreground is free for it or already its own.
    pub open spec fn admits_state(self, jid: usize, state: State) -> bool {
        self.jobs.contains_key(jid) && (state == State::FG ==> self.foreground_job is None
            || self.foreground_job == Some(jid))
    }

    /// The table after the job `jid` was put into `state`. The state `NT`
    /// empties the slot and leaves the watermark where it is. A table that
    /// does not admit the change stays as it is.
    pub open spec fn with_state(self, jid: usize, state: State) -> Table {
        if self.admits_state(jid, state) {
            let job = self.jobs[jid];
            Table {
                jobs: if state == State::NT {
                    self.jobs.remove(jid)
                } else {
                    self.jobs.insert(jid, JobView { pid: job.pid, state, cmdline: job.cmdline })
                },
                foreground_job: if state == State::FG {
                    Some(jid)
                } else if self.foreground_job == Some(jid) {
                    None
                } else {
                    self.foreground_job
                },
                high_watermark: self.high_watermark,
            }
        } else {
            self
        }
    }
}

/// `first_with_pid` names the smallest id from `from` on whose job has the
/// process id, and is absent only when no job from there on has it.
pub proof fn lemma_first_with_pid(jobs: Map<usize, JobView>, pid: usize, from: usize)
    ensures
        match first_with_pid(jobs, pid, from) {
            Some(k) => from <= k < MAXJOBS && jobs.contains_key(k) && jobs[k].pid == pid
                && forall|j: usize|
                from <= j < k && jobs.contains_key(j) ==> jobs[j].pid != pid,
            None => forall|j: usize|
                from <= j < MAXJOBS && jobs.contains_key(j) ==> jobs[j].pid != pid,
        },
    decreases MAXJOBS - from,
{
    if from < MAXJOBS {
        lemma_first_with_pid(jobs, pid, (from + 1) as usize);
    }
}

/// The registry of the jobs in flight, with room for [`MAXJOBS`] of them.
pub struct JobList<'a> {
    jobs: [Job<'a>; MAXJOBS],
    fg_job: Option<usize>,
    max_jid: Option<usize>,
}

impl<'a> View for JobList<'a> {
    type V = Table;

    closed spec fn view(&self) -> Table {
        Table {
            jobs: Map::new(
                |j: usize| j < MAXJOBS && self.jobs[j as int].state != State::NT,
                |j: usize| self.jobs[j as int]@,
            ),
            foreground_job: self.fg_job,
            high_watermark: self.max_jid,
        }
    }
}

impl<'a> JobList<'a> {
    /// Whether the table is in a state that its operations can start from.
    pub open spec fn wf(&self) -> bool {
        self@.inv()
    }

    /// Creates an empty job table.
    pub fn new() -> (list: JobList<'a>)
        ensures
            list.wf(),
            list@ == Table::empty(),
    {
        let list = JobList {
            jobs: [Job { pid: 0, state: State::NT, cmdline: "" };MAXJOBS],
            fg_job: None,
            max_jid: None,
        };
        assert(list@.jobs =~= Map::empty());
        list
    }

    /// The job with the id `jid`, if the table holds one.
    pub fn get(&self, jid: usize) -> (job: Option<Job<'a>>)
        ensures
            self@.jobs.contains_key(jid) ==> job is Some && job->0@ == self@.jobs[jid],
            !self@.jobs.contains_key(jid) ==> job is None,
    {
        if jid >= MAXJOBS {
            return None;
        }
        let job = self.jobs[jid];
        if job.state == State::NT {
            return None;
        }
        Some(job)
    }

    /// Registers a job and returns its id.
    ///
    /// A job is turned away, and the table stays as it was, when it comes in
    /// the state `NT`, when the slot after the watermark does not exist, or
    /// when it asks for the foreground while another job holds it. Any other
    /// job gets the id after the watermark, which becomes the new watermark.
    pub fn add(&mut self, pid: usize, state: State, cmdline: &'a str) -> (result: Result<
        usize,
        JobError,
    >)
        requires
            old(self).wf(),
        ensures
            final(self).wf(),
            match old(self)@.refusal(state) {
                Some(error) => {
                    &&& result == Err::<usize, JobError>(error)
                    &&& final(self)@ == old(self)@
                },
                None => {
                    &&& result == Ok::<usize, JobError>(old(self)@.next_id() as usize)
                    &&& final(self)@ == old(self)@.registered(pid, state, cmdline@)
                },
            },
    {
        if let State::NT = state {
            return Err(JobError::InvalidState);
        }
        let jid: usize = match self.max_jid {
            None => 0,
            Some(id) => {
                if id + 1 >= MAXJOBS {
                    return Err(JobError::TooManyJobs);
                }
                id + 1
            },
        };
        if let State::FG = state {
            if let Some(_) = self.fg_job {
                return Err(JobError::ForegroundConflict);
            } else {
                self.fg_job = Some(jid);
            }
        }
        self.max_jid = Some(jid);
        let job = Job { pid, state, cmdline };
        self.jobs[jid] = job;
        assert(self@.jobs =~= old(self)@.jobs.insert(jid, job@));
        Ok(jid)
    }

    /// Takes the job `jid` out of the table and says whether it was there.
    ///
    /// Where the job held the watermark, the watermark falls to the highest
    /// id that is left; where it ran in the foreground, no job does now.
    pub fn delete(&mut self, jid: usize) -> (found: bool)
        requires
            old(self).wf(),
        ensures
            final(self).wf(),
            found == old(self)@.jobs.contains_key(jid),
            final(self)@ == old(self)@.removed(jid),
    {
        if jid >= MAXJOBS {
            return false;
        }
        let job = self.jobs[jid];
        if let State::NT = job.state {
            return false;
        }
        self.jobs[jid] = Job { pid: job.pid, state: State::NT, cmdline: job.cmdline };
        assert(self@.jobs =~= old(self)@.jobs.remove(jid));
        if let Some(id) = self.max_jid {
            if jid == id {
                self.max_jid = self.highest_job();
                proof {
                    let keys = old(self)@.jobs.dom();
                    lemma_highest_below(keys, jid);
                    match highest_below(keys, jid) {
                        Some(k) => {
                            assert(self@.jobs.contains_key(k));
                        },
                        None => {},
                    }
                    match self.max_jid {
                        Some(b) => {
                            assert(self@.jobs.contains_key(b));
                            assert(keys.contains(b));
                        },
                        None => {},
                    }
                }
            }
        }
        if let Some(id) = self.fg_job {
            if id == jid {
                self.fg_job = None;
            }
        }
        true
    }

    /// The highest id that a job of the table has.
    fn highest_job(&self) -> (best: Option<usize>)
        ensures
            match best {
                Some(k) => self@.jobs.contains_key(k) && forall|j: usize|
                    self@.jobs.contains_key(j) ==> j <= k,
                None => forall|j: usize| !self@.jobs.contains_key(j),
            },
    {
        let mut slot: usize = MAXJOBS;
        while slot > 0
            invariant
                slot <= MAXJOBS,
                forall|j: usize| self@.jobs.contains_key(j) ==> j < slot,
            decreases slot,
        {
            slot = slot - 1;
            if self.jobs[slot].state != State::NT {
                assert(self@.jobs.contains_key(slot));
                return Some(slot);
            }
        }
        None
    }

    /// The id of the job that runs in the foreground, if there is one.
    pub fn fg_job(&self) -> (jid: Option<usize>)
        ensures
            jid == self@.foreground_job,
    {
        self.fg_job
    }

    /// The lowest id of a job that runs as the process `pid`, if there is one.
    pub fn pid_to_jid(&self, pid: usize) -> (jid: Option<usize>)
        ensures
            jid == first_with_pid(self@.jobs, pid, 0),
    {
        let mut slot: usize = 0;
        while slot < MAXJOBS
            invariant
                slot <= MAXJOBS,
                first_with_pid(self@.jobs, pid, 0) == first_with_pid(self@.jobs, pid, slot),
            decreases MAXJOBS - slot,
        {
            let job = self.jobs[slot];
            if job.state != State::NT && job.pid == pid {
                assert(self@.jobs.contains_key(slot));
                return Some(slot);
            }
            slot = slot + 1;
        }
        None
    }

    /// The state of the job `jid`, if the table holds it.
    pub fn get_state(&self, jid: usize) -> (state: Option<State>)
        ensures
            state == if self@.jobs.contains_key(jid) {
                Some(self@.jobs[jid].state)
            } else {
                None
            },
    {
        match self.get(jid) {
            Some(job) => Some(job.state),
            None => None,
        }
    }

    /// Puts the job `jid` into `state` and says whether it is in that state
    /// now.
    ///
    /// The answer is no, and nothing changes, for an id without a job, and
    /// for the foreground while another job holds it. Putting a job into the
    /// state `NT` empties its slot; the watermark stays.
    pub fn set_state(&mut self, jid: usize, state: State) -> (done: bool)
        requires
            old(self).wf(),
        ensures
            final(self).wf(),
            done == old(self)@.admits_state(jid, state),
            final(self)@ == old(self)@.with_state(jid, state),
    {
        if jid >= MAXJOBS || self.jobs[jid].state == State::NT {
            return false;
        }
        let job = self.jobs[jid];
        if state == State::FG {
            if let Some(x) = self.fg_job {
                proof {
                    if jid == x {
                        assert(self@.jobs =~= old(self)@.with_state(jid, state).jobs);
                    }
                }
                return jid == x;
            } else {
                self.fg_job = Some(jid);
            }
        }
        if state != job.state {
            if job.state == State::FG {
                self.fg_job = None;
            }
            self.jobs[jid] = Job { pid: job.pid, state, cmdline: job.cmdline };
        }
        assert(self@.jobs =~= old(self)@.with_state(jid, state).jobs);
        true
    }

    /// The process id of the job `jid`, if the table holds it.
    pub fn get_pid(&self, jid: usize) -> (pid: Option<usize>)
        ensures
            pid == if self@.jobs.contains_key(jid) {
                Some(self@.jobs[jid].pid)
            } else {
                None
            },
    {
        match self.get(jid) {
            Some(job) => Some(job.pid),
            None => None,
        }
    }

    /// The command line of the job `jid`, if the table holds it.
    pub fn get_cmdline(&self, jid: usize) -> (cmdline: Option<&str>)
        ensures
            self@.jobs.contains_key(jid) ==> cmdline is Some && cmdline->0@
                == self@.jobs[jid].cmdline,
            !self@.jobs.contains_key(jid) ==> cmdline is None,
    {
        match self.get(jid) {
            Some(job) => Some(job.cmdline),
            None => None,
        }
    }
}

} // verus!

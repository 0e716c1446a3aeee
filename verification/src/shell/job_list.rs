//! The job table: every process the shell is tracking, under a job id.
//!
//! The table is a plain value. Tasks that share it wrap it in a lock and hold
//! the lock for one call at a time; every method here completes without
//! waiting on anything.

use crate::keys::{highest_below, lemma_highest_below};
use crate::shell::text::{decimal, push_decimal};
use std::collections::HashMap;
use vstd::prelude::*;
use vstd::std_specs::iter::IteratorSpec;
use vstd::string::StringExecFns;

verus! {

/// How a job runs: in the background, or in the foreground, where the shell
/// waits for it before it reads the next command.
#[derive(Clone, Copy, PartialEq, Eq, Debug, Structural)]
pub enum State {
    BG,
    FG,
}

impl State {
    /// The word that stands for the state in a listing.
    pub open spec fn name_spec(self) -> Seq<char> {
        match self {
            State::BG => "Background"@,
            State::FG => "Foreground"@,
        }
    }

    /// The word that stands for the state in a listing.
    pub fn name(&self) -> (word: &'static str)
        ensures
            word@ == self.name_spec(),
    {
        match self {
            State::BG => "Background",
            State::FG => "Foreground",
        }
    }
}

/// What went wrong when a job could not be registered.
#[derive(Clone, Copy, PartialEq, Eq, Debug, Structural)]
pub enum JobError {
    /// A foreground job was offered while another one is still registered.
    ForegroundConflict,
}

impl JobError {
    /// The text that tells the user about the error.
    pub open spec fn message_spec(self) -> Seq<char> {
        match self {
            JobError::ForegroundConflict =>
                "Can't add a foreground job if a foreground job already exists"@,
        }
    }

    /// The text that tells the user about the error.
    pub fn message(&self) -> (text: &'static str)
        ensures
            text@ == self.message_spec(),
    {
        match self {
            JobError::ForegroundConflict =>
                "Can't add a foreground job if a foreground job already exists",
        }
    }
}

/// The mathematical value of a [`Job`].
pub struct JobView {
    pub pid: u32,
    pub state: State,
    pub cmdline: Seq<char>,
}

/// One tracked process.
pub struct Job {
    pid: u32,
    state: State,
    cmdline: String,
}

impl View for Job {
    type V = JobView;

    closed spec fn view(&self) -> JobView {
        JobView { pid: self.pid, state: self.state, cmdline: self.cmdline@ }
    }
}

/// The line that a listing shows for a job: `[id] (pid) state command`.
pub open spec fn job_line(jid: usize, job: JobView) -> Seq<char> {
    "["@ + decimal(jid as nat) + "] ("@ + decimal(job.pid as nat) + ") "@ + job.state.name_spec()
        + " "@ + job.cmdline
}

/// The mathematical value of a [`JobList`].
pub struct Table {
    /// The registered jobs, by job id.
    pub jobs: Map<usize, JobView>,
    /// The id of the job that runs in the foreground, if there is one.
    pub foreground_job: Option<usize>,
    /// The highest id in `jobs`, if there is one.
    pub high_watermark: Option<usize>,
}

impl Table {
    /// The table without any job.
    pub open spec fn empty() -> Table {
        Table { jobs: Map::empty(), foreground_job: None, high_watermark: None }
    }

    /// `foreground_job` names the one job in the foreground, and no other job
    /// is in the foreground.
    pub open spec fn one_foreground(self) -> bool {
        &&& self.foreground_job matches Some(f) ==> self.jobs.contains_key(f) && self.jobs[f].state
            == State::FG
        &&& forall|j: usize| #[trigger]
            self.jobs.contains_key(j) && self.jobs[j].state == State::FG
                ==> self.foreground_job == Some(j)
    }

    /// `high_watermark` is the largest id in the table, and is absent exactly
    /// when the table is empty.
    pub open spec fn watermark_is_highest(self) -> bool {
        match self.high_watermark {
            Some(w) => self.jobs.contains_key(w) && forall|j: usize| #[trigger]
                self.jobs.contains_key(j) ==> j <= w,
            None => forall|j: usize| !#[trigger] self.jobs.contains_key(j),
        }
    }

    /// What holds of the table between any two operations.
    pub open spec fn inv(self) -> bool {
        self.one_foreground() && self.watermark_is_highest()
    }

    /// The id that the next registered job gets: one past the watermark.
    pub open spec fn next_id(self) -> nat {
        match self.high_watermark {
            Some(w) => (w + 1) as nat,
            None => 0,
        }
    }

    /// Whether a job in `state` has to be turned away.
    pub open spec fn conflicts(self, state: State) -> bool {
        state == State::FG && self.foreground_job is Some
    }

    /// The table after a job was registered under `next_id`.
    pub open spec fn registered(self, pid: u32, state: State, cmdline: Seq<char>) -> Table {
        let jid = self.next_id() as usize;
        Table {
            jobs: self.jobs.insert(jid, JobView { pid, state, cmdline }),
            foreground_job: if state == State::FG {
                Some(jid)
            } else {
                self.foreground_job
            },
            high_watermark: Some(jid),
        }
    }

    /// Whether `order` names every job of the table once.
    pub open spec fn lists_in(self, order: Seq<usize>) -> bool {
        order.no_duplicates() && order.to_set() == self.jobs.dom()
    }

    /// The lines of the jobs that `order` names, one after the other.
    pub open spec fn listing(self, order: Seq<usize>) -> Seq<char>
        decreases order.len(),
    {
        if order.len() == 0 {
            Seq::empty()
        } else {
            self.listing(order.drop_last()) + job_line(order.last(), self.jobs[order.last()])
        }
    }

    /// The table after the job `jid` was taken out.
    pub open spec fn removed(self, jid: usize) -> Table {
        Table {
            jobs: self.jobs.remove(jid),
            foreground_job: if self.foreground_job == Some(jid) {
                None
            } else {
                self.foreground_job
            },
            high_watermark: if self.high_watermark == Some(jid) {
                highest_below(self.jobs.dom(), jid)
            } else {
                self.high_watermark
            },
        }
    }
}

/// The largest key of the map, found in one pass over its keys.
fn highest_key(jobs: &HashMap<usize, Job>) -> (best: Option<usize>)
    ensures
        match best {
            Some(k) => jobs@.contains_key(k) && forall|j: usize|
                jobs@.contains_key(j) ==> j <= k,
            None => forall|j: usize| !jobs@.contains_key(j),
        },
{
    let mut best: Option<usize> = None;
    for key in it: jobs.keys()
        invariant
            match best {
                Some(k) => jobs@.contains_key(k) && forall|i: int|
                    0 <= i < it.index() ==> *it.seq()[i] <= k,
                None => it.index() == 0,
            },
    {
        let k: usize = *key;
        best = match best {
            Some(b) => if b < k { Some(k) } else { Some(b) },
            None => Some(k),
        };
    }
    best
}

/// The registry of the jobs in flight.
pub struct JobList {
    jobs: HashMap<usize, Job>,
    fg_job: Option<usize>,
    max_jid: Option<usize>,
}

impl View for JobList {
    type V = Table;

    closed spec fn view(&self) -> Table {
        Table {
            jobs: Map::new(|j: usize| self.jobs@.contains_key(j), |j: usize| self.jobs@[j]@),
            foreground_job: self.fg_job,
            high_watermark: self.max_jid,
        }
    }
}

impl JobList {
    /// Whether the table is in a state that its operations can start from.
    pub open spec fn wf(&self) -> bool {
        self@.inv()
    }

    /// Creates an empty job table.
    pub fn new() -> (list: JobList)
        ensures
            list.wf(),
            list@ == Table::empty(),
    {
        let list = JobList { jobs: HashMap::new(), fg_job: None, max_jid: None };
        assert(list@.jobs =~= Map::empty());
        list
    }

    /// Registers a job and returns its id.
    ///
    /// A foreground job is turned away while another one is registered, and
    /// the table stays as it was. Any other job gets the id after the
    /// watermark, which becomes the new watermark.
    pub fn add(&mut self, pid: u32, state: State, cmdline: String) -> (result: Result<
        usize,
        JobError,
    >)
        requires
            old(self).wf(),
            old(self)@.conflicts(state) || old(self)@.next_id() <= usize::MAX,
        ensures
            final(self).wf(),
            result is Err <==> old(self)@.conflicts(state),
            old(self)@.conflicts(state) ==> result == Err::<usize, JobError>(
                JobError::ForegroundConflict,
            ) && final(self)@ == old(self)@,
            !old(self)@.conflicts(state) ==> result == Ok::<usize, JobError>(
                old(self)@.next_id() as usize,
            ) && final(self)@ == old(self)@.registered(pid, state, cmdline@),
    {
        if let State::FG = state {
            if let Some(_) = self.fg_job {
                return Err(JobError::ForegroundConflict);
            }
        }
        let jid: usize = match self.max_jid {
            None => 0,
            Some(id) => id + 1,
        };
        if let State::FG = state {
            self.fg_job = Some(jid);
        }
        self.max_jid = Some(jid);
        let ghost view = JobView { pid, state, cmdline: cmdline@ };
        let job = Job { pid, state, cmdline };
        assert(job@ == view);
        self.jobs.insert(jid, job);
        assert(self@.jobs =~= old(self)@.jobs.insert(jid, view));
        Ok(jid)
    }

    /// The highest id in the table, if it holds any job.
    pub fn high_watermark(&self) -> (w: Option<usize>)
        ensures
            w == self@.high_watermark,
    {
        self.max_jid
    }

    /// Takes the job `jid` out of the table and says whether it was there.
    ///
    /// Where the job held the watermark, the watermark falls to the highest
    /// id that is left; where it ran in the foreground, no job does now.
    pub fn delete(&mut self, jid: usize) -> (found: bool)
        requires
            old(self).wf(),
        ensures
            final(self).wf(),
            found == old(self)@.jobs.contains_key(jid),
            final(self)@ == old(self)@.removed(jid),
            !found ==> final(self)@ == old(self)@,
    {
        let removed = self.jobs.remove(&jid);
        assert(self@.jobs =~= old(self)@.jobs.remove(jid));
        if let Some(id) = self.max_jid {
            if jid == id {
                self.max_jid = highest_key(&self.jobs);
                proof {
                    let keys = old(self)@.jobs.dom();
                    lemma_highest_below(keys, jid);
                    assert forall|j: usize| self.jobs@.contains_key(j) implies keys.contains(j)
                        && j < jid by {
                        assert(old(self)@.jobs.contains_key(j));
                    }
                    if let Some(k) = highest_below(keys, jid) {
                        assert(self.jobs@.contains_key(k));
                    }
                    if let Some(b) = self.max_jid {
                        assert(keys.contains(b));
                    }
                }
            }
        }
        if let Some(id) = self.fg_job {
            if id == jid {
                self.fg_job = None;
            }
        }
        proof {
            if removed is None {
                old(self)@.lemma_removing_absent_changes_nothing(jid);
            }
        }
        removed.is_some()
    }

    /// The state of the job `jid`, if it is registered.
    pub fn get_state(&self, jid: usize) -> (state: Option<State>)
        ensures
            state == if self@.jobs.contains_key(jid) {
                Some(self@.jobs[jid].state)
            } else {
                None
            },
    {
        match self.jobs.get(&jid) {
            Some(job) => Some(job.state),
            None => None,
        }
    }

    /// The process id of the job `jid`, if it is registered.
    pub fn get_pid(&self, jid: usize) -> (pid: Option<u32>)
        ensures
            pid == if self@.jobs.contains_key(jid) {
                Some(self@.jobs[jid].pid)
            } else {
                None
            },
    {
        match self.jobs.get(&jid) {
            Some(job) => Some(job.pid),
            None => None,
        }
    }

    /// The command line of the job `jid`, if it is registered.
    pub fn get_cmdline(&self, jid: usize) -> (cmdline: Option<String>)
        ensures
            self@.jobs.contains_key(jid) ==> cmdline is Some && cmdline->0@
                == self@.jobs[jid].cmdline,
            !self@.jobs.contains_key(jid) ==> cmdline is None,
    {
        match self.jobs.get(&jid) {
            Some(job) => Some(job.cmdline.clone()),
            None => None,
        }
    }

    /// Appends the line of every job to `writer`, in the order in which the
    /// table hands its jobs out. Nothing is put between two jobs: a line ends
    /// where the command line of its job ends, which for a line that was
    /// typed is a line break.
    pub fn print_jobs(&self, writer: &mut String)
        ensures
            exists|order: Seq<usize>|
                self@.lists_in(order) && final(writer)@ == old(writer)@ + #[trigger] self@.listing(
                    order,
                ),
    {
        let ghost mut order: Seq<usize> = Seq::empty();
        let ghost entries = self.jobs.iter().remaining();
        for entry in it: self.jobs.iter()
            invariant
                it.seq() == entries,
                entries.no_duplicates(),
                order.len() == it.index(),
                forall|i: int| 0 <= i < order.len() ==> order[i] == *it.seq()[i].0,
                writer@ == old(writer)@ + self@.listing(order),
        {
            let (jid, job) = entry;
            let ghost before = writer@;
            writer.append("[");
            push_decimal(writer, *jid as u64);
            writer.append("] (");
            push_decimal(writer, job.pid as u64);
            writer.append(") ");
            writer.append(job.state.name());
            writer.append(" ");
            writer.append(job.cmdline.as_str());
            proof {
                assert(self.jobs@.contains_key(*jid));
                assert(self@.jobs[*jid] == job@);
                assert(writer@ =~= before + job_line(*jid, job@));
                let longer = order.push(*jid);
                assert(longer.drop_last() =~= order);
                order = longer;
            }
        }
        proof {
            assert(order.len() == entries.len());
            assert forall|i: int, j: int|
                0 <= i < order.len() && 0 <= j < order.len() && i != j implies order[i]
                != order[j] by {
                assert(self.jobs@.contains_key(*entries[i].0));
                assert(self.jobs@.contains_key(*entries[j].0));
                if order[i] == order[j] {
                    assert(entries[i] == entries[j]);
                }
            }
            assert forall|k: usize| order.to_set().contains(k) <==> self@.jobs.dom().contains(
                k,
            ) by {
                if order.to_set().contains(k) {
                    let i = choose|i: int| 0 <= i < order.len() && order[i] == k;
                    assert(self.jobs@.contains_key(*entries[i].0));
                }
                if self@.jobs.dom().contains(k) {
                    assert(self.jobs@.contains_key(k));
                    let e = (&k, &self.jobs@[k]);
                    assert(entries.contains(e));
                    let i = choose|i: int| 0 <= i < entries.len() && entries[i] == e;
                    assert(order[i] == k);
                }
            }
            assert(order.to_set() =~= self@.jobs.dom());
            assert(self@.lists_in(order));
        }
    }
}

impl Table {
    /// Every id in the table lies under the id that is handed out next, so a
    /// new job never takes the id of a registered one.
    pub proof fn lemma_next_id_is_free(self)
        requires
            self.inv(),
        ensures
            forall|j: usize| self.jobs.contains_key(j) ==> j < self.next_id(),
    {
    }

    /// A job is turned away exactly when it asks for the foreground while
    /// some job of the table runs there.
    pub proof fn lemma_conflict_is_second_foreground(self, state: State)
        requires
            self.inv(),
        ensures
            self.conflicts(state) <==> state == State::FG && exists|f: usize|
                self.jobs.contains_key(f) && self.jobs[f].state == State::FG,
    {
        if let Some(f) = self.foreground_job {
            assert(self.jobs.contains_key(f) && self.jobs[f].state == State::FG);
        }
    }

    /// Registering a job that is not turned away keeps the table in order:
    /// still at most one foreground job, and the watermark on the highest id.
    pub proof fn lemma_registered_keeps_inv(self, pid: u32, state: State, cmdline: Seq<char>)
        requires
            self.inv(),
            !self.conflicts(state),
            self.next_id() <= usize::MAX,
        ensures
            self.registered(pid, state, cmdline).inv(),
    {
    }

    /// A job that is registered and taken out again leaves no trace: the
    /// table is as it was before, watermark and foreground included.
    pub proof fn lemma_registered_then_removed(self, pid: u32, state: State, cmdline: Seq<char>)
        requires
            self.inv(),
            !self.conflicts(state),
            self.next_id() <= usize::MAX,
        ensures
            self.registered(pid, state, cmdline).removed(self.next_id() as usize) == self,
    {
        let jid = self.next_id() as usize;
        let after = self.registered(pid, state, cmdline);
        assert(after.jobs.remove(jid) =~= self.jobs);
        lemma_highest_below(after.jobs.dom(), jid);
        if let Some(k) = highest_below(after.jobs.dom(), jid) {
            assert(self.jobs.contains_key(k));
        }
    }

    /// Taking a job out keeps the table in order, whether or not it was there.
    pub proof fn lemma_removed_keeps_inv(self, jid: usize)
        requires
            self.inv(),
        ensures
            self.removed(jid).inv(),
    {
        lemma_highest_below(self.jobs.dom(), jid);
    }

    /// A job that was taken out is gone, and if it ran in the foreground then
    /// no job runs there afterwards.
    pub proof fn lemma_removed_is_gone(self, jid: usize)
        requires
            self.inv(),
        ensures
            !self.removed(jid).jobs.contains_key(jid),
            self.foreground_job == Some(jid) ==> self.removed(jid).foreground_job is None,
    {
    }

    /// Taking out a job that is not in the table changes nothing.
    pub proof fn lemma_removing_absent_changes_nothing(self, jid: usize)
        requires
            self.inv(),
            !self.jobs.contains_key(jid),
        ensures
            self.removed(jid) == self,
    {
        assert(self.jobs.remove(jid) =~= self.jobs);
    }

    /// Taking out a job other than the one at the watermark leaves the next
    /// id as it was: the gap is not handed out again.
    pub proof fn lemma_gap_is_not_reused(self, jid: usize)
        requires
            self.inv(),
            self.high_watermark != Some(jid),
        ensures
            self.removed(jid).next_id() == self.next_id(),
    {
    }

    /// Taking out the job at the watermark makes its id free again: the next
    /// id is at most that id, and is that id when the id before it is taken.
    pub proof fn lemma_watermark_is_reused(self, jid: usize)
        requires
            self.inv(),
            self.high_watermark == Some(jid),
        ensures
            self.removed(jid).next_id() <= jid,
            jid == 0 || self.jobs.contains_key((jid - 1) as usize) ==> self.removed(jid).next_id()
                == jid,
    {
        lemma_highest_below(self.jobs.dom(), jid);
    }

    /// Taking out one job leaves every other job as it was.
    pub proof fn lemma_removal_spares_others(self, jid: usize, other: usize)
        requires
            jid != other,
        ensures
            self.removed(jid).jobs.contains_key(other) == self.jobs.contains_key(other),
            self.jobs.contains_key(other) ==> self.removed(jid).jobs[other] == self.jobs[other],
    {
    }

    /// Two jobs can be taken out in either order: the table that is left is
    /// the same.
    pub proof fn lemma_removals_commute(self, a: usize, b: usize)
        requires
            self.inv(),
            a != b,
        ensures
            self.removed(a).removed(b) == self.removed(b).removed(a),
    {
        let ab = self.removed(a).removed(b);
        let ba = self.removed(b).removed(a);
        assert(ab.jobs =~= ba.jobs);
        self.lemma_removed_keeps_inv(a);
        self.lemma_removed_keeps_inv(b);
        self.removed(a).lemma_removed_keeps_inv(b);
        self.removed(b).lemma_removed_keeps_inv(a);
        assert(ab.high_watermark == ba.high_watermark) by {
            match ab.high_watermark {
                Some(w) => {
                    assert(ba.jobs.contains_key(w));
                },
                None => {},
            }
            match ba.high_watermark {
                Some(w) => {
                    assert(ab.jobs.contains_key(w));
                },
                None => {},
            }
        }
    }
}

} // verus!

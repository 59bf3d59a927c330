//! The job manager's bookkeeping and the decisions taken while a command
//! tree is run. The caller makes the system calls: it starts the children
//! that are planned here and reports back what `wait` returned.

use crate::env::functions::Functions;
use crate::env::variables::{value_in, Variables};
use crate::jobs::spawn::{FdOp, FdOpView, OpenMode, ProcessOptions, ProcessOptionsView};
use crate::lang::ast::{CommandView, ConditionOperator, IoOperation};
use crate::lang::errors::{Error, ErrorKind, ErrorKindView, ErrorView};
use crate::expr::lexer::{number_value, radix_value, run_end, scan_run, CharClass};
use crate::text::{append_chars, chars_of, copy_chars, pieces, split, string_of};
use std::collections::BTreeMap;
use vstd::prelude::*;

verus! {

/// The number of a job. No two jobs of one manager have the same number.
#[derive(Debug, Copy, Clone, Eq, Ord, PartialEq, PartialOrd, Structural)]
pub struct Jid(pub u32);

/// How a child ended.
#[derive(Copy, Clone, Debug, PartialEq, Eq, Structural)]
pub struct ExitStatus {
    /// The process id of the child.
    pub pid: i32,
    /// The exit code; -1 for a child that a signal ended.
    pub exit_code: i32,
    pub core_dumped: bool,
    /// The number of the signal that ended the child, if one did.
    pub signal: Option<i32>,
}

/// Whether a job is still running.
#[derive(Copy, Clone, Debug, PartialEq, Eq, Structural)]
pub enum JobStatus {
    Running,
    Complete(ExitStatus),
}

/// What `wait` reported.
#[derive(Copy, Clone, Debug, PartialEq, Eq, Structural)]
pub enum WaitEvent {
    /// A child exited with a code.
    Exited { pid: i32, code: i32 },
    /// A signal ended a child.
    Signaled { pid: i32, signal: i32, core_dumped: bool },
    /// Anything else: a child stopped or went on.
    Other,
}

impl WaitEvent {
    /// The exit record that the event gives rise to, if it ends a child: the
    /// code of a child that exited; the code -1, the signal and the core
    /// flag of a child that a signal ended.
    pub open spec fn record(self) -> Option<ExitStatus> {
        match self {
            WaitEvent::Exited { pid, code } => Some(
                ExitStatus { pid, exit_code: code, core_dumped: false, signal: None },
            ),
            WaitEvent::Signaled { pid, signal, core_dumped } => Some(
                ExitStatus { pid, exit_code: -1i32, core_dumped, signal: Some(signal) },
            ),
            WaitEvent::Other => None,
        }
    }

    pub fn exit_status(self) -> (r: Option<ExitStatus>)
        ensures
            r == self.record(),
    {
        match self {
            WaitEvent::Exited { pid, code } => Some(
                ExitStatus { pid, exit_code: code, core_dumped: false, signal: None },
            ),
            WaitEvent::Signaled { pid, signal, core_dumped } => Some(
                ExitStatus { pid, exit_code: -1, core_dumped, signal: Some(signal) },
            ),
            WaitEvent::Other => None,
        }
    }
}

/// The jobs of a shell: which process runs which job, and how the jobs that
/// are over have ended.
pub struct JobManager {
    next_jid: u32,
    running_jobs: BTreeMap<i32, u32>,
    running_pids: BTreeMap<u32, i32>,
    completed_jobs: BTreeMap<u32, ExitStatus>,
}

/// The state of a job manager: the number that the next job gets, the jobs
/// of the processes that run, and the exit records of the jobs that are
/// over.
pub struct JobManagerView {
    pub next: nat,
    pub running: Map<i32, u32>,
    pub completed: Map<u32, ExitStatus>,
}

impl JobManagerView {
    /// Whether some process runs the job `jid`.
    pub open spec fn is_running(self, jid: u32) -> bool {
        exists|pid: i32| self.running.contains_key(pid) && self.running[pid] == jid
    }

    /// Whether the manager has given out the number `jid`.
    pub open spec fn knows(self, jid: u32) -> bool {
        self.is_running(jid) || self.completed.contains_key(jid)
    }

    /// The state after the process `pid` has been started as a new job.
    pub open spec fn added(self, pid: i32) -> JobManagerView {
        JobManagerView {
            next: self.next + 1,
            running: self.running.insert(pid, self.next as u32),
            completed: self.completed,
        }
    }

    /// The state after `wait` has reported `event`: the job of a process
    /// that has ended leaves the running jobs, and its exit record is
    /// stored. An event of a process that runs no job changes nothing.
    pub open spec fn reaped(self, event: WaitEvent) -> JobManagerView {
        match event.record() {
            Some(status) => if self.running.contains_key(status.pid) {
                JobManagerView {
                    next: self.next,
                    running: self.running.remove(status.pid),
                    completed: self.completed.insert(self.running[status.pid], status),
                }
            } else {
                self
            },
            None => self,
        }
    }

    /// What holds of the jobs of every manager: every job that runs or is
    /// over has a number that was given out; no job runs in two processes;
    /// and no job both runs and is over.
    pub open spec fn well_formed(self) -> bool {
        &&& forall|pid: i32| #[trigger]
            self.running.contains_key(pid) ==> self.running[pid] < self.next
        &&& forall|jid: u32| #[trigger] self.completed.contains_key(jid) ==> jid < self.next
        &&& forall|p: i32, q: i32|
            #![trigger self.running[p], self.running[q]]
            self.running.contains_key(p) && self.running.contains_key(q) && p != q
                ==> self.running[p] != self.running[q]
        &&& forall|pid: i32| #[trigger]
            self.running.contains_key(pid) ==> !self.completed.contains_key(self.running[pid])
    }

    /// Whether the job `jid` is running, over, or unknown.
    pub open spec fn status(self, jid: u32) -> Option<JobStatus> {
        if self.completed.contains_key(jid) {
            Some(JobStatus::Complete(self.completed[jid]))
        } else if self.is_running(jid) {
            Some(JobStatus::Running)
        } else {
            None
        }
    }
}

impl JobManager {
    #[verifier::type_invariant]
    spec fn consistent(self) -> bool {
        &&& forall|pid: i32| #[trigger]
            self.running_jobs@.contains_key(pid) ==> self.running_pids@.contains_key(
                self.running_jobs@[pid],
            ) && self.running_pids@[self.running_jobs@[pid]] == pid
        &&& forall|jid: u32| #[trigger]
            self.running_pids@.contains_key(jid) ==> self.running_jobs@.contains_key(
                self.running_pids@[jid],
            ) && self.running_jobs@[self.running_pids@[jid]] == jid
        &&& forall|jid: u32| #[trigger] self.running_pids@.contains_key(jid) ==> jid < self.next_jid
        &&& forall|jid: u32| #[trigger]
            self.completed_jobs@.contains_key(jid) ==> jid < self.next_jid
        &&& forall|jid: u32|
            !(#[trigger] self.running_pids@.contains_key(jid)
                && self.completed_jobs@.contains_key(jid))
    }

    pub closed spec fn view(&self) -> JobManagerView {
        JobManagerView {
            next: self.next_jid as nat,
            running: self.running_jobs@,
            completed: self.completed_jobs@,
        }
    }

    /// A manager without jobs.
    pub fn new() -> (m: JobManager)
        ensures
            m.view() == (JobManagerView { next: 0, running: Map::empty(), completed: Map::empty() }),
            m.view().well_formed(),
    {
        JobManager {
            next_jid: 0,
            running_jobs: BTreeMap::new(),
            running_pids: BTreeMap::new(),
            completed_jobs: BTreeMap::new(),
        }
    }

    /// The number that the next job gets.
    pub fn next_jid(&self) -> (n: u32)
        ensures
            n == self.view().next,
            self.view().well_formed(),
    {
        proof {
            use_type_invariant(self);
            self.lemma_well_formed();
        }
        self.next_jid
    }

    proof fn lemma_well_formed(self)
        requires
            self.consistent(),
        ensures
            self.view().well_formed(),
    {
        let v = self.view();
        assert forall|pid: i32| #[trigger] v.running.contains_key(pid) implies v.running[pid]
            < v.next && !v.completed.contains_key(v.running[pid]) by {
            assert(self.running_pids@.contains_key(self.running_jobs@[pid]));
        }
        assert forall|p: i32, q: i32|
            #![trigger v.running[p], v.running[q]]
            v.running.contains_key(p) && v.running.contains_key(q) && p != q
                implies v.running[p] != v.running[q] by {
            assert(self.running_pids@.contains_key(self.running_jobs@[p]));
            assert(self.running_pids@.contains_key(self.running_jobs@[q]));
        }
    }

    /// Takes the process `pid` as a new job. The job's number has never
    /// been given out before. If the manager still held `pid` as the
    /// process of another job, that job is forgotten.
    pub fn add_job(&mut self, pid: i32) -> (jid: Jid)
        requires
            old(self).view().next < u32::MAX,
        ensures
            final(self).view() == old(self).view().added(pid),
            final(self).view().well_formed(),
            jid.0 == old(self).view().next,
            !old(self).view().knows(jid.0),
    {
        proof {
            use_type_invariant(&*self);
        }
        let ghost before = *self;
        let mut taken = JobManager::new();
        std::mem::swap(self, &mut taken);
        let JobManager {
            next_jid: jid,
            running_jobs: mut jobs,
            running_pids: mut pids,
            completed_jobs: completed,
        } = taken;
        match jobs.insert(pid, jid) {
            Some(displaced) => {
                pids.remove(&displaced);
            },
            None => {},
        }
        pids.insert(jid, pid);
        proof {
            assert forall|p: i32| #[trigger] jobs@.contains_key(p) implies pids@.contains_key(
                jobs@[p],
            ) && pids@[jobs@[p]] == p by {
                if p != pid {
                    assert(before.running_jobs@.contains_key(p));
                }
            }
            assert forall|j: u32| #[trigger] pids@.contains_key(j) implies jobs@.contains_key(
                pids@[j],
            ) && jobs@[pids@[j]] == j by {
                if j != jid {
                    assert(before.running_pids@.contains_key(j));
                }
            }
            assert(!before.view().is_running(jid)) by {
                if before.view().is_running(jid) {
                    let p = choose|p: i32|
                        before.running_jobs@.contains_key(p) && before.running_jobs@[p] == jid;
                    assert(before.running_pids@.contains_key(before.running_jobs@[p]));
                }
            }
        }
        *self = JobManager {
            next_jid: jid + 1,
            running_jobs: jobs,
            running_pids: pids,
            completed_jobs: completed,
        };
        proof {
            use_type_invariant(&*self);
            self.lemma_well_formed();
        }
        Jid(jid)
    }

    /// Takes note of what `wait` reported. Returns the job that has ended
    /// and its exit record, or `None` if the event ends no job of this
    /// manager.
    pub fn reap(&mut self, event: WaitEvent) -> (r: Option<(Jid, ExitStatus)>)
        ensures
            final(self).view() == old(self).view().reaped(event),
            final(self).view().well_formed(),
            match r {
                Some((jid, status)) => event.record() == Some(status) && old(
                    self,
                ).view().running.contains_key(status.pid) && old(self).view().running[status.pid]
                    == jid.0,
                None => event.record() is None || !old(self).view().running.contains_key(
                    event.record()->0.pid,
                ),
            },
    {
        proof {
            use_type_invariant(&*self);
        }
        let ghost before = *self;
        let status = match event.exit_status() {
            Some(status) => status,
            None => {
                proof {
                    self.lemma_well_formed();
                }
                return None;
            },
        };
        let mut taken = JobManager::new();
        std::mem::swap(self, &mut taken);
        let JobManager {
            next_jid,
            running_jobs: mut jobs,
            running_pids: mut pids,
            completed_jobs: mut completed,
        } = taken;
        let r = match jobs.remove(&status.pid) {
            Some(jid) => {
                pids.remove(&jid);
                completed.insert(jid, status);
                proof {
                    assert forall|p: i32| #[trigger] jobs@.contains_key(p) implies pids@.contains_key(
                        jobs@[p],
                    ) && pids@[jobs@[p]] == p by {
                        assert(before.running_jobs@.contains_key(p));
                    }
                    assert forall|j: u32| #[trigger] pids@.contains_key(j) implies jobs@.contains_key(
                        pids@[j],
                    ) && jobs@[pids@[j]] == j by {
                        assert(before.running_pids@.contains_key(j));
                    }
                    assert(before.running_pids@.contains_key(jid));
                }
                Some((Jid(jid), status))
            },
            None => {
                assert(jobs@ =~= before.running_jobs@);
                None
            },
        };
        assert(event.record() == Some(status));
        *self = JobManager {
            next_jid,
            running_jobs: jobs,
            running_pids: pids,
            completed_jobs: completed,
        };
        proof {
            use_type_invariant(&*self);
            self.lemma_well_formed();
        }
        r
    }

    /// Whether the job `jid` is running or over; the failure `InvalidJobId`
    /// for a number that names no job of this manager.
    pub fn stat(&self, jid: Jid) -> (r: Result<JobStatus, Error>)
        ensures
            match r {
                Ok(status) => self.view().status(jid.0) == Some(status),
                Err(e) => self.view().status(jid.0) is None && e@ == (ErrorView {
                    kind: ErrorKindView::InvalidJobId(jid.0),
                    cause: None,
                }),
            },
    {
        proof {
            use_type_invariant(self);
        }
        match self.completed_jobs.get(&jid.0) {
            Some(status) => Ok(JobStatus::Complete(*status)),
            None => match self.running_pids.get(&jid.0) {
                Some(pid) => {
                    assert(self.running_pids@.contains_key(jid.0));
                    assert(self.view().running.contains_key(*pid) && self.view().running[*pid]
                        == jid.0);
                    assert(self.view().is_running(jid.0));
                    Ok(JobStatus::Running)
                },
                None => {
                    proof {
                        if self.view().is_running(jid.0) {
                            let p = choose|p: i32|
                                self.running_jobs@.contains_key(p) && self.running_jobs@[p]
                                    == jid.0;
                            assert(self.running_pids@.contains_key(self.running_jobs@[p]));
                        }
                    }
                    Err(Error::new(ErrorKind::InvalidJobId(jid.0)))
                },
            },
        }
    }

    /// The exit record of the job `jid`, if the job is over.
    pub fn exit_status(&self, jid: Jid) -> (r: Option<ExitStatus>)
        ensures
            r == if self.view().completed.contains_key(jid.0) {
                Some(self.view().completed[jid.0])
            } else {
                None
            },
    {
        match self.completed_jobs.get(&jid.0) {
            Some(status) => Some(*status),
            None => None,
        }
    }

    /// Whether the job `jid` is over.
    pub fn is_complete(&self, jid: Jid) -> (b: bool)
        ensures
            b == self.view().completed.contains_key(jid.0),
    {
        self.completed_jobs.contains_key(&jid.0)
    }

    /// Whether all of the jobs `jids` are over, so that nothing is left to
    /// wait for.
    pub fn all_complete(&self, jids: &Vec<Jid>) -> (b: bool)
        ensures
            b == forall|i: int| 0 <= i < jids@.len() ==> self.view().completed.contains_key(jids@[i].0),
    {
        let mut i: usize = 0;
        while i < jids.len()
            invariant
                i <= jids.len(),
                forall|k: int| 0 <= k < i ==> self.view().completed.contains_key(jids@[k].0),
            decreases jids.len() - i,
        {
            if !self.is_complete(jids[i]) {
                return false;
            }
            i += 1;
        }
        true
    }

    /// How a command that started the jobs `jids`, in this order, has ended:
    /// with the exit record of the last job. A command that started no job
    /// has ended with the code 0; `own_pid` stands in its record. `None`
    /// while the last job still runs.
    pub fn outcome(&self, jids: &Vec<Jid>, own_pid: i32) -> (r: Option<ExitStatus>)
        ensures
            r == self.view().outcome(jids@, own_pid),
    {
        if jids.len() == 0 {
            Some(ExitStatus { exit_code: 0, core_dumped: false, pid: own_pid, signal: None })
        } else {
            self.exit_status(jids[jids.len() - 1])
        }
    }
}

impl Default for JobManager {
    fn default() -> (m: JobManager)
        ensures
            m.view() == (JobManagerView { next: 0, running: Map::empty(), completed: Map::empty() }),
    {
        JobManager::new()
    }
}

impl JobManagerView {
    /// How a command that started the jobs `jids` has ended.
    pub open spec fn outcome(self, jids: Seq<Jid>, own_pid: i32) -> Option<ExitStatus> {
        if jids.len() == 0 {
            Some(ExitStatus { exit_code: 0, core_dumped: false, pid: own_pid, signal: None })
        } else if self.completed.contains_key(jids.last().0) {
            Some(self.completed[jids.last().0])
        } else {
            None
        }
    }
}

impl ConditionOperator {
    /// Whether the right side of a pair runs after the left side has ended
    /// with `exit_code`: after a success for `&&`, after a failure for `||`.
    pub open spec fn continues(self, exit_code: i32) -> bool {
        (self == ConditionOperator::AndIf && exit_code == 0) || (self == ConditionOperator::OrIf
            && exit_code != 0)
    }

    /// Whether the right side of a pair runs after the left side has ended
    /// with `exit_code`.
    pub fn runs_right(self, exit_code: i32) -> (b: bool)
        ensures
            b == self.continues(exit_code),
    {
        match self {
            ConditionOperator::AndIf => exit_code == 0,
            ConditionOperator::OrIf => exit_code != 0,
        }
    }
}

/// What a command passes down to the commands inside it: the descriptors
/// that every child has to close, what to add to the environment, the
/// descriptors to read from and to write to, and the redirections.
pub struct ProcOptions {
    pub close_fds: Vec<i32>,
    pub env: Vec<(String, String)>,
    pub stdin: Option<i32>,
    pub stdout: Option<i32>,
    pub redirects: Vec<(i32, FdOp)>,
}

pub struct ProcOptionsView {
    pub close_fds: Seq<i32>,
    pub env: Seq<(Seq<char>, Seq<char>)>,
    pub stdin: Option<i32>,
    pub stdout: Option<i32>,
    pub redirects: Seq<(i32, FdOpView)>,
}

/// One descriptor, if there is one.
pub open spec fn optional(fd: Option<i32>) -> Seq<i32> {
    match fd {
        Some(fd) => seq![fd],
        None => Seq::empty(),
    }
}

/// The operations that put `source` in the place of the standard
/// descriptor `standard`: copy it there, then close it.
pub open spec fn standard_ops(source: Option<i32>, standard: i32) -> Seq<(i32, FdOpView)> {
    match source {
        Some(fd) => seq![(fd, FdOpView::Redirect(standard)), (fd, FdOpView::Close)],
        None => Seq::empty(),
    }
}

impl View for ProcOptions {
    type V = ProcOptionsView;

    open spec fn view(&self) -> ProcOptionsView {
        ProcOptionsView {
            close_fds: self.close_fds@,
            env: Seq::new(self.env@.len(), |i: int| (self.env@[i].0@, self.env@[i].1@)),
            stdin: self.stdin,
            stdout: self.stdout,
            redirects: Seq::new(
                self.redirects@.len(),
                |i: int| (self.redirects@[i].0, self.redirects@[i].1@),
            ),
        }
    }
}

impl ProcOptionsView {
    /// What the left side of a pipeline gets, where `read_end` and
    /// `write_end` are the ends of the pipe: it reads what its parent reads
    /// and writes to the pipe, and it closes the read end and the descriptor
    /// that its parent writes to.
    pub open spec fn left_of_pipe(self, read_end: i32, write_end: i32) -> ProcOptionsView {
        ProcOptionsView {
            close_fds: self.close_fds + seq![read_end] + optional(self.stdout),
            stdout: Some(write_end),
            ..self
        }
    }

    /// What the right side of a pipeline gets: it reads from the pipe and
    /// writes where its parent writes, and it closes the write end and the
    /// descriptor that its parent reads from.
    pub open spec fn right_of_pipe(self, read_end: i32, write_end: i32) -> ProcOptionsView {
        ProcOptionsView {
            close_fds: self.close_fds + seq![write_end] + optional(self.stdin),
            stdin: Some(read_end),
            ..self
        }
    }

    /// The plan of a child that runs `executable` with the arguments `argv`
    /// in the directory `cwd`: the descriptor to read from goes to 0 and the
    /// one to write to goes to 1, each closed afterwards; then the
    /// descriptors to close are closed; then the redirections follow in
    /// their order.
    pub open spec fn plan(
        self,
        executable: Seq<char>,
        argv: Seq<Seq<char>>,
        cwd: Seq<char>,
    ) -> ProcessOptionsView {
        ProcessOptionsView {
            executable,
            args: argv,
            wd: Some(cwd),
            env: self.env,
            fd: standard_ops(self.stdin, 0) + standard_ops(self.stdout, 1) + Seq::new(
                self.close_fds.len(),
                |i: int| (self.close_fds[i], FdOpView::Close),
            ) + self.redirects,
        }
    }
}

fn copy_fds(fds: &Vec<i32>) -> (r: Vec<i32>)
    ensures
        r@ == fds@,
{
    let mut r: Vec<i32> = Vec::new();
    let mut i: usize = 0;
    while i < fds.len()
        invariant
            i <= fds.len(),
            r@ == fds@.take(i as int),
        decreases fds.len() - i,
    {
        r.push(fds[i]);
        i += 1;
        assert(fds@.take(i as int) =~= fds@.take(i - 1).push(fds@[i - 1]));
    }
    assert(fds@.take(fds.len() as int) =~= fds@);
    r
}

impl Clone for ProcOptions {
    fn clone(&self) -> (r: Self)
        ensures
            r@ == self@,
    {
        let mut env: Vec<(String, String)> = Vec::new();
        let mut i: usize = 0;
        while i < self.env.len()
            invariant
                i <= self.env.len(),
                env@.len() == i,
                forall|k: int|
                    0 <= k < i ==> env@[k].0@ == self.env@[k].0@ && env@[k].1@ == self.env@[k].1@,
            decreases self.env.len() - i,
        {
            env.push((self.env[i].0.clone(), self.env[i].1.clone()));
            i += 1;
        }
        let mut redirects: Vec<(i32, FdOp)> = Vec::new();
        let mut j: usize = 0;
        while j < self.redirects.len()
            invariant
                j <= self.redirects.len(),
                redirects@.len() == j,
                forall|k: int|
                    0 <= k < j ==> redirects@[k].0 == self.redirects@[k].0 && redirects@[k].1@
                        == self.redirects@[k].1@,
            decreases self.redirects.len() - j,
        {
            redirects.push((self.redirects[j].0, self.redirects[j].1.clone()));
            j += 1;
        }
        let r = ProcOptions {
            close_fds: copy_fds(&self.close_fds),
            env,
            stdin: self.stdin,
            stdout: self.stdout,
            redirects,
        };
        assert(r@.env =~= self@.env);
        assert(r@.redirects =~= self@.redirects);
        r
    }
}

impl ProcOptions {
    /// Nothing to close, to add or to redirect.
    pub fn new() -> (o: ProcOptions)
        ensures
            o@ == (ProcOptionsView {
                close_fds: Seq::empty(),
                env: Seq::empty(),
                stdin: None,
                stdout: None,
                redirects: Seq::empty(),
            }),
    {
        let o = ProcOptions {
            close_fds: Vec::new(),
            env: Vec::new(),
            stdin: None,
            stdout: None,
            redirects: Vec::new(),
        };
        assert(o@.env =~= Seq::empty());
        assert(o@.redirects =~= Seq::empty());
        o
    }

    /// What the left side of a pipeline gets.
    pub fn left_of_pipe(&self, read_end: i32, write_end: i32) -> (o: ProcOptions)
        ensures
            o@ == self@.left_of_pipe(read_end, write_end),
    {
        let mut o = self.clone();
        o.close_fds.push(read_end);
        match self.stdout {
            Some(fd) => {
                o.close_fds.push(fd);
            },
            None => {},
        }
        o.stdout = Some(write_end);
        assert(o@.close_fds =~= self@.left_of_pipe(read_end, write_end).close_fds);
        o
    }

    /// What the right side of a pipeline gets.
    pub fn right_of_pipe(&self, read_end: i32, write_end: i32) -> (o: ProcOptions)
        ensures
            o@ == self@.right_of_pipe(read_end, write_end),
    {
        let mut o = self.clone();
        o.close_fds.push(write_end);
        match self.stdin {
            Some(fd) => {
                o.close_fds.push(fd);
            },
            None => {},
        }
        o.stdin = Some(read_end);
        assert(o@.close_fds =~= self@.right_of_pipe(read_end, write_end).close_fds);
        o
    }

    /// The same with one more redirection at the end.
    pub fn with_redirect(&self, fd: i32, op: FdOp) -> (o: ProcOptions)
        ensures
            o@ == (ProcOptionsView { redirects: self@.redirects.push((fd, op@)), ..self@ }),
    {
        let mut o = self.clone();
        o.redirects.push((fd, op));
        assert(o@.redirects =~= self@.redirects.push((fd, op@)));
        o
    }

    /// The plan of a child that runs `executable` with the arguments `argv`
    /// in the directory `cwd`.
    pub fn plan(&self, executable: &str, argv: &Vec<String>, cwd: &str) -> (p: ProcessOptions)
        ensures
            p@ == self@.plan(executable@, Seq::new(argv@.len(), |i: int| argv@[i]@), cwd@),
    {
        let ghost goal = self@.plan(executable@, Seq::new(argv@.len(), |i: int| argv@[i]@), cwd@);
        let mut p = ProcessOptions::new(executable);
        let mut i: usize = 0;
        assert(goal.args.take(0) =~= Seq::<Seq<char>>::empty());
        while i < argv.len()
            invariant
                i <= argv.len(),
                p@.args == goal.args.take(i as int),
                p@.executable == executable@,
                p@.env == Seq::<(Seq<char>, Seq<char>)>::empty(),
                p@.fd == Seq::<(i32, FdOpView)>::empty(),
                p@.wd is None,
                goal.args == Seq::new(argv@.len(), |i: int| argv@[i]@),
            decreases argv.len() - i,
        {
            p.arg(argv[i].as_str());
            i += 1;
            assert(goal.args.take(i as int) =~= goal.args.take(i - 1).push(argv@[i - 1]@));
        }
        assert(goal.args.take(argv.len() as int) =~= goal.args);
        let mut j: usize = 0;
        while j < self.env.len()
            invariant
                j <= self.env.len(),
                p@.executable == executable@,
                p@.args == goal.args,
                p@.env == self@.env.take(j as int),
                p@.fd == Seq::<(i32, FdOpView)>::empty(),
                p@.wd is None,
            decreases self.env.len() - j,
        {
            p.env(self.env[j].0.as_str(), self.env[j].1.as_str());
            j += 1;
            assert(self@.env.take(j as int) =~= self@.env.take(j - 1).push(self@.env[j - 1]));
        }
        assert(self@.env.take(self.env.len() as int) =~= self@.env);
        p.work_dir(cwd);
        match self.stdin {
            Some(fd) => {
                p.redirect(fd, 0);
                p.close(fd);
            },
            None => {},
        }
        assert(p@.fd =~= standard_ops(self.stdin, 0));
        match self.stdout {
            Some(fd) => {
                p.redirect(fd, 1);
                p.close(fd);
            },
            None => {},
        }
        assert(p@.fd =~= standard_ops(self.stdin, 0) + standard_ops(self.stdout, 1));
        let ghost head = p@.fd;
        let ghost closes = Seq::new(self@.close_fds.len(), |i: int| (self@.close_fds[i], FdOpView::Close));
        let mut k: usize = 0;
        while k < self.close_fds.len()
            invariant
                k <= self.close_fds.len(),
                p@.executable == executable@,
                p@.args == goal.args,
                p@.env == self@.env,
                p@.wd == Some(cwd@),
                p@.fd == head + closes.take(k as int),
                closes == Seq::new(self@.close_fds.len(), |i: int| (self@.close_fds[i], FdOpView::Close)),
            decreases self.close_fds.len() - k,
        {
            p.close(self.close_fds[k]);
            k += 1;
            assert(head + closes.take(k as int) =~= (head + closes.take(k - 1)).push(closes[k - 1]));
        }
        assert(closes.take(self.close_fds.len() as int) =~= closes);
        let mut m: usize = 0;
        while m < self.redirects.len()
            invariant
                m <= self.redirects.len(),
                p@.executable == executable@,
                p@.args == goal.args,
                p@.env == self@.env,
                p@.wd == Some(cwd@),
                p@.fd == head + closes + self@.redirects.take(m as int),
            decreases self.redirects.len() - m,
        {
            let fd = self.redirects[m].0;
            match &self.redirects[m].1 {
                FdOp::Close => {
                    p.close(fd);
                },
                FdOp::Redirect(target) => {
                    p.redirect(fd, *target);
                },
                FdOp::Open(file, mode) => match mode {
                    OpenMode::Read => {
                        p.read(fd, file.as_str());
                    },
                    OpenMode::Write => {
                        p.write(fd, file.as_str());
                    },
                    OpenMode::Append => {
                        p.append(fd, file.as_str());
                    },
                },
            }
            m += 1;
            assert(head + closes + self@.redirects.take(m as int) =~= (head + closes
                + self@.redirects.take(m - 1)).push(self@.redirects[m - 1]));
        }
        assert(self@.redirects.take(self.redirects.len() as int) =~= self@.redirects);
        assert(p@.fd =~= goal.fd);
        p
    }
}

/// The descriptor that `text` names: `text` must be decimal digits and
/// nothing else, and the number must fit.
pub open spec fn descriptor_number(text: Seq<char>) -> Option<i32> {
    if text.len() > 0 && run_end(text, 0, CharClass::Digit) == text.len() && radix_value(text, 10)
        <= i32::MAX {
        Some(radix_value(text, 10) as i32)
    } else {
        None
    }
}

/// Reads `text` as the number of a descriptor.
pub fn parse_descriptor(text: &str) -> (r: Option<i32>)
    ensures
        r == descriptor_number(text@),
{
    let chars = chars_of(text);
    if chars.len() == 0 || scan_run(&chars, 0, CharClass::Digit) != chars.len() {
        return None;
    }
    assert(chars@.subrange(0, chars@.len() as int) =~= chars@);
    proof {
        crate::expr::lexer::lemma_radix_value_nonnegative(chars@, 10);
    }
    match number_value(&chars, 0, chars.len(), 10) {
        Some(v) => if v <= 0x7fff_ffff {
            Some(v as i32)
        } else {
            None
        },
        None => None,
    }
}

/// The descriptor that a redirection is about where none is written: 0
/// for the operators that read, 1 for those that write.
pub open spec fn default_descriptor(operation: IoOperation) -> i32 {
    match operation {
        IoOperation::Input | IoOperation::InputDupFd | IoOperation::HereDocument
        | IoOperation::HereDocumentStrip | IoOperation::ReadWrite => 0,
        _ => 1,
    }
}

/// What a redirection does to the descriptors of a child, given the text
/// that its word expands to. `<` opens the file for reading, `>` and `>|`
/// for writing, `>>` for appending, on the descriptor written before the
/// operator or on the default. `<&` and `>&` make that descriptor a copy of
/// the one that the text names. The other operators are not supported.
pub open spec fn redirect_op(operation: IoOperation, fd: Option<i32>, target: Seq<char>) -> Option<
    (i32, FdOpView),
> {
    let own = match fd {
        Some(fd) => fd,
        None => default_descriptor(operation),
    };
    match operation {
        IoOperation::Input => Some((own, FdOpView::Open(target, OpenMode::Read))),
        IoOperation::OutputCreate | IoOperation::Output => Some(
            (own, FdOpView::Open(target, OpenMode::Write)),
        ),
        IoOperation::OutputAppend => Some((own, FdOpView::Open(target, OpenMode::Append))),
        IoOperation::InputDupFd | IoOperation::OutputDupFd => match descriptor_number(target) {
            Some(source) => Some((source, FdOpView::Redirect(own))),
            None => None,
        },
        _ => None,
    }
}

/// What an optional operation stands for in contracts.
pub open spec fn fd_op_view(op: Option<(i32, FdOp)>) -> Option<(i32, FdOpView)> {
    match op {
        Some((fd, op)) => Some((fd, op@)),
        None => None,
    }
}

/// The operation on the descriptors of a child that a redirection stands
/// for; `None` for a redirection that is not supported or that names no
/// descriptor where it has to.
pub fn redirect_operation(operation: IoOperation, fd: Option<i32>, target: &str) -> (r: Option<
    (i32, FdOp),
>)
    ensures
        fd_op_view(r) == redirect_op(operation, fd, target@),
{
    let own = match fd {
        Some(fd) => fd,
        None => match operation {
            IoOperation::Input
            | IoOperation::InputDupFd
            | IoOperation::HereDocument
            | IoOperation::HereDocumentStrip
            | IoOperation::ReadWrite => 0,
            _ => 1,
        },
    };
    match operation {
        IoOperation::Input => Some((own, FdOp::Open(target.to_owned(), OpenMode::Read))),
        IoOperation::OutputCreate | IoOperation::Output => Some(
            (own, FdOp::Open(target.to_owned(), OpenMode::Write)),
        ),
        IoOperation::OutputAppend => Some((own, FdOp::Open(target.to_owned(), OpenMode::Append))),
        IoOperation::InputDupFd | IoOperation::OutputDupFd => match parse_descriptor(target) {
            Some(source) => Some((source, FdOp::Redirect(own))),
            None => None,
        },
        _ => None,
    }
}

/// Whether a command name is a path to take as it is: one that begins
/// with `./`.
pub open spec fn is_local(name: Seq<char>) -> bool {
    name.len() >= 2 && name[0] == '.' && name[1] == '/'
}

/// The path of `prog` in the directory `dir`. An absolute `prog` stays as
/// it is; an empty directory is the current one.
pub open spec fn joined(dir: Seq<char>, prog: Seq<char>) -> Seq<char> {
    if prog.len() > 0 && prog[0] == '/' {
        prog
    } else if dir.len() == 0 || dir.last() == '/' {
        dir + prog
    } else {
        dir + seq!['/'] + prog
    }
}

/// The paths at which `prog` is looked for: one in each directory of
/// `path`, whose directories are parted by colons, in their order.
pub open spec fn candidates(path: Seq<char>, prog: Seq<char>) -> Seq<Seq<char>> {
    Seq::new(pieces(path, ':', 0).len(), |i: int| joined(pieces(path, ':', 0)[i], prog))
}

fn join(dir: &Vec<char>, prog: &Vec<char>) -> (r: String)
    ensures
        r@ == joined(dir@, prog@),
{
    if prog.len() > 0 && prog[0] == '/' {
        return string_of(prog);
    }
    let mut v = copy_chars(dir);
    if !(dir.len() == 0 || dir[dir.len() - 1] == '/') {
        v.push('/');
    }
    append_chars(&mut v, prog);
    string_of(&v)
}

/// Whether `name` is a path to take as it is.
pub fn names_local_path(name: &str) -> (b: bool)
    ensures
        b == is_local(name@),
{
    let chars = chars_of(name);
    chars.len() >= 2 && chars[0] == '.' && chars[1] == '/'
}

/// The paths at which `prog` is looked for along `path`.
pub fn path_candidates(path: &str, prog: &str) -> (r: Vec<String>)
    ensures
        Seq::new(r@.len(), |i: int| r@[i]@) == candidates(path@, prog@),
{
    let dirs = split(&chars_of(path), ':');
    let name = chars_of(prog);
    let ghost parts = pieces(path@, ':', 0);
    assert(forall|i: int| 0 <= i < dirs@.len() ==> dirs@[i]@ == Seq::new(
        dirs@.len(),
        |i: int| dirs@[i]@,
    )[i]);
    let mut r: Vec<String> = Vec::new();
    let mut i: usize = 0;
    while i < dirs.len()
        invariant
            i <= dirs.len(),
            r@.len() == i,
            name@ == prog@,
            dirs@.len() == parts.len(),
            forall|k: int| 0 <= k < dirs@.len() ==> dirs@[k]@ == parts[k],
            forall|k: int| 0 <= k < i ==> r@[k]@ == joined(parts[k], prog@),
        decreases dirs.len() - i,
    {
        r.push(join(&dirs[i], &name));
        i += 1;
    }
    assert(Seq::new(r@.len(), |i: int| r@[i]@) =~= candidates(path@, prog@));
    r
}

/// The variables, the functions and the working directory that commands
/// run with.
pub struct ExecutionContext {
    pub cwd: String,
    pub vars: Variables,
    pub funcs: Functions,
}

pub struct ExecutionContextView {
    pub cwd: Seq<char>,
    pub vars: Map<Seq<char>, Seq<char>>,
    pub funcs: Map<Seq<char>, CommandView>,
}

impl View for ExecutionContext {
    type V = ExecutionContextView;

    open spec fn view(&self) -> ExecutionContextView {
        ExecutionContextView { cwd: self.cwd@, vars: self.vars@, funcs: self.funcs@ }
    }
}

/// The name of the variable that holds the directories to search.
pub open spec fn path_name() -> Seq<char> {
    seq!['P', 'A', 'T', 'H']
}

impl ExecutionContext {
    /// A context in the directory `cwd`, without variables and functions.
    pub fn new(cwd: &str) -> (c: ExecutionContext)
        ensures
            c@ == (ExecutionContextView { cwd: cwd@, vars: Map::empty(), funcs: Map::empty() }),
    {
        ExecutionContext { cwd: cwd.to_owned(), vars: Variables::new(), funcs: Functions::new() }
    }

    pub fn variables(&self) -> (v: &Variables)
        ensures
            v@ == self@.vars,
    {
        &self.vars
    }

    pub fn variables_mut(&mut self) -> (v: &mut Variables)
        ensures
            v@ == old(self)@.vars,
            final(self)@ == (ExecutionContextView { vars: final(v)@, ..old(self)@ }),
    {
        &mut self.vars
    }

    pub fn functions(&self) -> (f: &Functions)
        ensures
            f@ == self@.funcs,
    {
        &self.funcs
    }

    pub fn functions_mut(&mut self) -> (f: &mut Functions)
        ensures
            f@ == old(self)@.funcs,
            final(self)@ == (ExecutionContextView { funcs: final(f)@, ..old(self)@ }),
    {
        &mut self.funcs
    }

    /// The paths at which the program `prog` is looked for: along the
    /// directories of `PATH`.
    pub fn executable_candidates(&self, prog: &str) -> (r: Vec<String>)
        ensures
            Seq::new(r@.len(), |i: int| r@[i]@) == candidates(
                value_in(self@.vars, path_name()),
                prog@,
            ),
    {
        proof {
            reveal_strlit("PATH");
            assert("PATH"@ =~= path_name());
        }
        let path = self.vars.value("PATH");
        path_candidates(path.as_str(), prog)
    }
}

impl Clone for ExecutionContext {
    fn clone(&self) -> (r: Self)
        ensures
            r@ == self@,
    {
        ExecutionContext {
            cwd: self.cwd.clone(),
            vars: self.vars.clone(),
            funcs: self.funcs.clone(),
        }
    }
}

} // verus!

//! What holds of every run of a command tree.

use crate::jobs::spawn::FdOpView;
use crate::lang::ast::{CommandView, ConditionOperator, RedirectView};
use crate::lang::exec::{
    ExecutionContextView, Jid, JobManagerView, JobStatus, ProcOptionsView, WaitEvent,
};
use crate::lang::run::{ActionView, EventView, FrameView, PurposeView, RunView, StateView, Stepped};
use crate::lang::word::PartView;
use vstd::prelude::*;

verus! {

/// The frames that let go of the jobs handed to them.
pub open spec fn drops_jobs(f: FrameView) -> bool {
    f is Finish || f is Group || f is Cond
}

/// The jobs that a frame keeps for the command it belongs to.
pub open spec fn frame_jobs(f: FrameView) -> Seq<Jid> {
    match f {
        FrameView::PipeClose { left, read_end, write_end } => left,
        FrameView::Closing { jids, fd, then } => jids,
        _ => Seq::empty(),
    }
}

/// The jobs that are being handed on or waited for.
pub open spec fn state_jobs(s: StateView) -> Seq<Jid> {
    match s {
        StateView::Return { jids } => jids,
        StateView::Awaiting { jids } => jids,
        _ => Seq::empty(),
    }
}

/// Whether the step from `run` with `event` takes a new job; `jobs` are the
/// jobs before the step.
pub open spec fn takes_job(run: RunView, jobs: JobManagerView, event: EventView) -> bool {
    run.scopes.len() > 0 && run.state is Waiting && run.stack.len() > 0 && run.stack.last()
        is Spawning && event is Spawned && jobs.next < u32::MAX
}

/// The jobs that a run has started after one more step.
pub open spec fn started_after(
    run: RunView,
    jobs: JobManagerView,
    started: Set<Jid>,
    event: EventView,
) -> Set<Jid> {
    if takes_job(run, jobs, event) {
        started.insert(Jid(jobs.next as u32))
    } else {
        started
    }
}

/// Whether every frame that lets go of jobs lies under a frame that waits
/// for them first, and the frame that ends the run lies at the bottom and
/// nowhere else.
#[verifier::opaque]
pub open spec fn guarded(stack: Seq<FrameView>) -> bool {
    &&& stack.len() > 0
    &&& stack[0] is Finish
    &&& forall|i: int| 0 < i < stack.len() ==> !(#[trigger] stack[i] is Finish)
    &&& forall|i: int|
        0 <= i < stack.len() - 1 && drops_jobs(#[trigger] stack[i]) ==> stack[i + 1] is Await
}

/// Whether one of the frames keeps the job `jid`.
#[verifier::opaque]
pub open spec fn kept(stack: Seq<FrameView>, jid: Jid) -> bool {
    exists|i: int| 0 <= i < stack.len() && #[trigger] frame_jobs(stack[i]).contains(jid)
}

impl RunView {
    /// Whether the run still holds the job `jid`, to wait for it later.
    pub open spec fn holds(self, jid: Jid) -> bool {
        state_jobs(self.state).contains(jid) || kept(self.stack, jid)
    }

    /// What holds of a run that has started the jobs `started` while the
    /// jobs of the shell are `jobs`: jobs are let go of only when they are
    /// over, and every job that was started is over or still held.
    pub open spec fn sound(self, jobs: JobManagerView, started: Set<Jid>) -> bool {
        self.state is Finished || {
            &&& guarded(self.stack)
            &&& (self.state is Return && drops_jobs(self.stack.last()) ==> jobs.all_complete(
                state_jobs(self.state),
            ))
            &&& (!(self.state is Return) && !(self.state is Awaiting) ==> !drops_jobs(
                self.stack.last(),
            ))
            &&& forall|jid: Jid| #[trigger]
                started.contains(jid) ==> jobs.completed.contains_key(jid.0) || self.holds(jid)
        }
    }
}

/// A frame that waits may be pushed on any frame; any other frame but the
/// one that ends the run may be pushed on a frame that keeps its jobs.
pub proof fn lemma_guarded_push(stack: Seq<FrameView>, f: FrameView)
    requires
        guarded(stack),
        !(f is Finish),
        f is Await || !drops_jobs(stack.last()),
    ensures
        guarded(stack.push(f)),
{
    reveal(guarded);
    let pushed = stack.push(f);
    assert forall|i: int| 0 <= i < pushed.len() - 1 && drops_jobs(#[trigger] pushed[i])
        implies pushed[i + 1] is Await by {
        if i < stack.len() - 1 {
            assert(drops_jobs(stack[i]));
        }
    }
    assert forall|i: int| 0 < i < pushed.len() implies !(#[trigger] pushed[i] is Finish) by {
        if i < stack.len() {
            assert(!(stack[i] is Finish));
        }
    }
}

/// Under a frame that does not wait lies a frame that keeps its jobs.
pub proof fn lemma_guarded_pop(stack: Seq<FrameView>)
    requires
        guarded(stack),
        stack.len() > 1,
    ensures
        guarded(stack.drop_last()),
        !(stack.last() is Finish),
        !(stack.last() is Await) ==> !drops_jobs(stack.drop_last().last()),
{
    reveal(guarded);
    let rest = stack.drop_last();
    assert forall|i: int| 0 <= i < rest.len() - 1 && drops_jobs(#[trigger] rest[i])
        implies rest[i + 1] is Await by {
        assert(drops_jobs(stack[i]));
    }
    assert forall|i: int| 0 < i < rest.len() implies !(#[trigger] rest[i] is Finish) by {
        assert(!(stack[i] is Finish));
    }
    if drops_jobs(rest.last()) {
        assert(drops_jobs(stack[stack.len() - 2]));
    }
    assert(!(stack[stack.len() - 1] is Finish));
}

/// The frame that ends a run is the only frame of its stack when it is on
/// top.
pub proof fn lemma_guarded_bottom(stack: Seq<FrameView>)
    requires
        guarded(stack),
    ensures
        stack.len() > 0,
        stack[0] is Finish,
        stack.last() is Finish ==> stack.len() == 1,
{
    reveal(guarded);
    if stack.len() > 1 {
        assert(!(stack[stack.len() - 1] is Finish));
    }
}

/// What the frames keep after one more frame is pushed.
pub proof fn lemma_kept_push(stack: Seq<FrameView>, f: FrameView, jid: Jid)
    ensures
        kept(stack.push(f), jid) <==> kept(stack, jid) || frame_jobs(f).contains(jid),
{
    reveal(kept);
    let pushed = stack.push(f);
    if kept(stack, jid) {
        let i = choose|i: int| 0 <= i < stack.len() && #[trigger] frame_jobs(stack[i]).contains(jid);
        assert(frame_jobs(pushed[i]).contains(jid));
    }
    if frame_jobs(f).contains(jid) {
        assert(frame_jobs(pushed[stack.len() as int]).contains(jid));
    }
    if kept(pushed, jid) {
        let i = choose|i: int|
            0 <= i < pushed.len() && #[trigger] frame_jobs(pushed[i]).contains(jid);
        if i < stack.len() {
            assert(frame_jobs(stack[i]).contains(jid));
        }
    }
}

/// What the frames keep once the top frame is gone.
pub proof fn lemma_kept_pop(stack: Seq<FrameView>, jid: Jid)
    requires
        stack.len() > 0,
    ensures
        kept(stack, jid) <==> kept(stack.drop_last(), jid) || frame_jobs(stack.last()).contains(
            jid,
        ),
{
    assert(stack.drop_last().push(stack.last()) =~= stack);
    lemma_kept_push(stack.drop_last(), stack.last(), jid);
}

/// A run is sound when it starts.
pub proof fn lemma_start_is_sound(
    command: CommandView,
    context: ExecutionContextView,
    own_pid: i32,
    jobs: JobManagerView,
)
    ensures
        RunView::start(command, context, own_pid).sound(jobs, Set::empty()),
{
    reveal(guarded);
}

/// After the left side of a conditional pair the right side is run if and
/// only if the operator is `&&` and the left side ended with the code 0, or
/// the operator is `||` and it ended with another code. Where the right
/// side is not run, the jobs of the left side are those of the pair.
pub proof fn lemma_conditional_pair(
    run: RunView,
    jobs: JobManagerView,
    jids: Seq<Jid>,
    operator: ConditionOperator,
    right: CommandView,
    opts: ProcOptionsView,
)
    requires
        run.scopes.len() > 0,
        run.state == (StateView::Return { jids }),
        run.stack.len() > 0,
        run.stack.last() == (FrameView::Cond { operator, right, opts }),
    ensures
        ({
            let code = jobs.exit_code(jids, run.own_pid);
            let after = run.next(jobs, EventView::Continue);
            let runs = (operator == ConditionOperator::AndIf && code == 0) || (operator
                == ConditionOperator::OrIf && code != 0);
            &&& after.action is Continue
            &&& after.jobs == jobs
            &&& runs <==> after.run.state == (StateView::Eval { command: right, opts })
            &&& !runs <==> after.run.state == (StateView::Return { jids })
        }),
{
}

/// The jobs of a manager stay in order, whatever is started, as long as a
/// job number is left, and whatever `wait` reports.
pub proof fn lemma_jobs_stay_well_formed(jobs: JobManagerView, pid: i32, event: WaitEvent)
    requires
        jobs.well_formed(),
    ensures
        jobs.next < u32::MAX ==> jobs.added(pid).well_formed(),
        jobs.reaped(event).well_formed(),
{
    if jobs.next < u32::MAX {
        let added = jobs.added(pid);
        assert forall|p: i32| #[trigger] added.running.contains_key(p) implies added.running[p]
            < added.next && !added.completed.contains_key(added.running[p]) by {
            if p != pid {
                assert(jobs.running.contains_key(p));
            }
        }
        assert forall|p: i32, q: i32|
            #![trigger added.running[p], added.running[q]]
            added.running.contains_key(p) && added.running.contains_key(q) && p != q
                implies added.running[p] != added.running[q] by {
            if p != pid {
                assert(jobs.running.contains_key(p));
            }
            if q != pid {
                assert(jobs.running.contains_key(q));
            }
        }
    }
    let reaped = jobs.reaped(event);
    assert forall|p: i32| #[trigger] reaped.running.contains_key(p) implies reaped.running[p]
        < reaped.next && !reaped.completed.contains_key(reaped.running[p]) by {
        assert(jobs.running.contains_key(p));
    }
    assert forall|p: i32, q: i32|
        #![trigger reaped.running[p], reaped.running[q]]
        reaped.running.contains_key(p) && reaped.running.contains_key(q) && p != q
            implies reaped.running[p] != reaped.running[q] by {
        assert(jobs.running.contains_key(p));
        assert(jobs.running.contains_key(q));
    }
    assert forall|jid: u32| #[trigger] reaped.completed.contains_key(jid) implies jid
        < reaped.next by {
        if !jobs.completed.contains_key(jid) {
            assert(jobs.running.contains_key(event.record()->0.pid));
        }
    }
}

/// A step changes the jobs of the shell in two ways only: a child that was
/// started becomes a new job, and what `wait` reported is taken note of. So
/// the jobs stay in order whatever the event is, and a step that ends the
/// run with a failure leaves them as they were: a child that could not be
/// started is no job.
pub proof fn lemma_step_keeps_jobs_in_order(run: RunView, jobs: JobManagerView, event: EventView)
    requires
        jobs.well_formed(),
    ensures
        run.next(jobs, event).jobs.well_formed(),
        run.next(jobs, event).action matches ActionView::Finish(Err(_)) ==> run.next(
            jobs,
            event,
        ).jobs == jobs,
        run.next(jobs, event).jobs != jobs ==> (event matches EventView::Spawned { pid }
            && run.next(jobs, event).jobs == jobs.added(pid)) || (event matches EventView::Waited(e)
            && run.next(jobs, event).jobs == jobs.reaped(e)),
{
    match event {
        EventView::Spawned { pid } => {
            lemma_jobs_stay_well_formed(jobs, pid, WaitEvent::Other);
        },
        EventView::Waited(e) => {
            lemma_jobs_stay_well_formed(jobs, 0, e);
        },
        _ => {},
    }
}

/// A job's number is given out once: the job that is started next has a
/// number that no job has or had.
pub proof fn lemma_job_numbers_never_repeat(jobs: JobManagerView, pid: i32)
    requires
        jobs.well_formed(),
        jobs.next < u32::MAX,
    ensures
        !jobs.knows(jobs.next as u32),
        jobs.added(pid).running[pid] == jobs.next,
        jobs.added(pid).status(jobs.next as u32) == Some(JobStatus::Running),
{
    if jobs.is_running(jobs.next as u32) {
        let p = choose|p: i32| jobs.running.contains_key(p) && jobs.running[p] == jobs.next as u32;
        assert(jobs.running[p] < jobs.next);
    }
    assert(jobs.added(pid).running.contains_key(pid));
}

/// A job that is over stays over, with the exit record that it has:
/// neither a new job nor anything that `wait` reports changes it. And the
/// job of a process that `wait` reports as ended is over from then on, with
/// the record of that event, and its process runs it no more.
pub proof fn lemma_jobs_never_revert(jobs: JobManagerView, jid: u32, pid: i32, event: WaitEvent)
    requires
        jobs.well_formed(),
    ensures
        jobs.completed.contains_key(jid) ==> jobs.added(pid).status(jid) == jobs.status(jid)
            && jobs.reaped(event).status(jid) == jobs.status(jid),
        event.record() is Some && jobs.running.contains_key(event.record()->0.pid) ==> ({
            let record = event.record()->0;
            &&& jobs.reaped(event).status(jobs.running[record.pid]) == Some(
                JobStatus::Complete(record),
            )
            &&& !jobs.reaped(event).running.contains_key(record.pid)
            &&& jobs.status(jobs.running[record.pid]) == Some(JobStatus::Running)
        }),
{
    if jobs.completed.contains_key(jid) {
        match event.record() {
            Some(record) => {
                if jobs.running.contains_key(record.pid) {
                    assert(jobs.running[record.pid] != jid);
                }
            },
            None => {},
        }
    }
    match event.record() {
        Some(record) => {
            if jobs.running.contains_key(record.pid) {
                assert(jobs.is_running(jobs.running[record.pid]));
            }
        },
        None => {},
    }
}

/// Commands run in order: a group starts its next command, and a
/// conditional pair decides about its right side, only when the jobs of the
/// command before are all over.
pub proof fn lemma_commands_wait_for_the_one_before(
    run: RunView,
    jobs: JobManagerView,
    started: Set<Jid>,
)
    requires
        run.sound(jobs, started),
        run.state is Return,
        run.stack.len() > 0,
        run.stack.last() is Group || run.stack.last() is Cond,
    ensures
        jobs.all_complete(state_jobs(run.state)),
{
}

/// The children of a pipeline share the pipe and nothing stands between
/// them: a child on the left side copies the write end of the pipe onto its
/// descriptor 1 first of all, unless it reads from a pipe of its own, and
/// closes the read end; a child on the right side copies the read end onto
/// its descriptor 0 first of all and closes the write end.
pub proof fn lemma_pipe_ends(
    opts: ProcOptionsView,
    read_end: i32,
    write_end: i32,
    executable: Seq<char>,
    argv: Seq<Seq<char>>,
    cwd: Seq<char>,
)
    ensures
        ({
            let left = opts.left_of_pipe(read_end, write_end).plan(executable, argv, cwd);
            let right = opts.right_of_pipe(read_end, write_end).plan(executable, argv, cwd);
            &&& left.fd.contains((write_end, FdOpView::Redirect(1)))
            &&& left.fd.contains((read_end, FdOpView::Close))
            &&& opts.stdin is None ==> left.fd[0] == (write_end, FdOpView::Redirect(1))
            &&& right.fd[0] == (read_end, FdOpView::Redirect(0))
            &&& right.fd.contains((write_end, FdOpView::Close))
        }),
{
    let left_opts = opts.left_of_pipe(read_end, write_end);
    let right_opts = opts.right_of_pipe(read_end, write_end);
    let left = left_opts.plan(executable, argv, cwd);
    let right = right_opts.plan(executable, argv, cwd);
    let before = crate::lang::exec::standard_ops(opts.stdin, 0);
    assert(left.fd[before.len() as int] == (write_end, FdOpView::Redirect(1)));
    assert(left_opts.close_fds[opts.close_fds.len() as int] == read_end);
    assert(left.fd[(before.len() + 2 + opts.close_fds.len()) as int] == (read_end, FdOpView::Close));
    assert(right.fd[0] == (read_end, FdOpView::Redirect(0)));
    let after = crate::lang::exec::standard_ops(opts.stdout, 1);
    assert(right_opts.close_fds[opts.close_fds.len() as int] == write_end);
    assert(right.fd[(2 + after.len() + opts.close_fds.len()) as int] == (write_end, FdOpView::Close));
}

/// A sound run whose command has returned its jobs to the bottom frame
/// ends with an exit record: that of the last job, or one with the code 0
/// and the shell's own process id where the command started no job.
pub proof fn lemma_run_ends_with_a_record(run: RunView, jobs: JobManagerView, started: Set<Jid>)
    requires
        run.sound(jobs, started),
        run.scopes.len() > 0,
        run.state is Return,
        run.stack.last() is Finish,
    ensures
        run.next(jobs, EventView::Continue).action matches ActionView::Finish(Ok(status))
            && jobs.outcome(state_jobs(run.state), run.own_pid) == Some(status),
        state_jobs(run.state).len() == 0 ==> (run.next(
            jobs,
            EventView::Continue,
        ).action matches ActionView::Finish(Ok(status)) && status.exit_code == 0 && status.pid
            == run.own_pid),
{
    lemma_guarded_bottom(run.stack);
    let jids = state_jobs(run.state);
    if jids.len() > 0 {
        assert(jobs.completed.contains_key(jids[jids.len() - 1].0));
    }
}

/// A run that ends with an exit record has left none of the jobs that it
/// started unwaited: they are all over.
pub proof fn lemma_finish_leaves_no_job(
    run: RunView,
    jobs: JobManagerView,
    started: Set<Jid>,
    event: EventView,
)
    requires
        run.sound(jobs, started),
        run.next(jobs, event).action matches ActionView::Finish(Ok(_)),
    ensures
        forall|jid: Jid| #[trigger]
            started.contains(jid) ==> run.next(jobs, event).jobs.completed.contains_key(jid.0),
{
    lemma_guarded_bottom(run.stack);
    assert forall|jid: Jid| #[trigger] started.contains(jid) implies run.next(
        jobs,
        event,
    ).jobs.completed.contains_key(jid.0) by {
        if !jobs.completed.contains_key(jid.0) {
            assert(run.holds(jid));
            assert(run.stack.len() == 1);
            reveal(kept);
            if state_jobs(run.state).contains(jid) {
                let k = choose|k: int|
                    0 <= k < state_jobs(run.state).len() && state_jobs(run.state)[k] == jid;
                assert(jobs.completed.contains_key(state_jobs(run.state)[k].0));
            }
        }
    }
}

/// What a step has to keep of the frames for a run to stay sound: the
/// frames after the step are in order, the frame on top fits the state, and
/// whatever was held is still held or is over.
pub open spec fn carries(
    run: RunView,
    jobs: JobManagerView,
    after: Stepped,
) -> bool {
    after.run.state is Finished || {
        &&& guarded(after.run.stack)
        &&& (after.run.state is Return && drops_jobs(after.run.stack.last())
            ==> after.jobs.all_complete(state_jobs(after.run.state)))
        &&& (!(after.run.state is Return) && !(after.run.state is Awaiting) ==> !drops_jobs(
            after.run.stack.last(),
        ))
        &&& forall|jid: Jid| #[trigger]
            run.holds(jid) ==> after.jobs.completed.contains_key(jid.0) || after.run.holds(jid)
        &&& forall|jid: u32| #[trigger]
            jobs.completed.contains_key(jid) ==> after.jobs.completed.contains_key(jid)
    }
}

/// The frames in order, with a frame on top that keeps its jobs.
pub open spec fn ready(run: RunView) -> bool {
    guarded(run.stack) && !drops_jobs(run.stack.last())
}

proof fn lemma_go_carries(run: RunView, base: RunView, jobs: JobManagerView, state: StateView)
    requires
        guarded(base.stack),
        state is Return && drops_jobs(base.stack.last()) ==> jobs.all_complete(state_jobs(state)),
        !(state is Return) && !(state is Awaiting) ==> !drops_jobs(base.stack.last()),
        forall|jid: Jid| #[trigger]
            run.holds(jid) ==> jobs.completed.contains_key(jid.0) || state_jobs(state).contains(jid)
                || kept(base.stack, jid),
    ensures
        carries(run, jobs, base.go(jobs, state)),
{
}

proof fn lemma_ask_carries(run: RunView, base: RunView, jobs: JobManagerView, action: ActionView)
    requires
        guarded(base.stack),
        !drops_jobs(base.stack.last()),
        forall|jid: Jid| #[trigger]
            run.holds(jid) ==> jobs.completed.contains_key(jid.0) || kept(base.stack, jid),
    ensures
        carries(run, jobs, base.ask(jobs, action)),
{
}

proof fn lemma_redirect_carries(
    run: RunView,
    base: RunView,
    jobs: JobManagerView,
    inner: CommandView,
    redirects: Seq<RedirectView>,
    index: nat,
    opts: ProcOptionsView,
)
    requires
        ready(base),
        forall|jid: Jid| #[trigger]
            run.holds(jid) ==> jobs.completed.contains_key(jid.0) || kept(base.stack, jid),
    ensures
        carries(run, jobs, base.redirect(jobs, inner, redirects, index, opts)),
{
    if index < redirects.len() {
        let f = FrameView::Expanding {
            expansion: crate::lang::word::ExpansionView::start(redirects[index as int].file),
            purpose: PurposeView::RedirectTarget { inner, redirects, index, opts },
        };
        lemma_guarded_push(base.stack, f);
        assert forall|jid: Jid| #[trigger] run.holds(jid) implies jobs.completed.contains_key(
            jid.0,
        ) || kept(base.pushed(f).stack, jid) by {
            lemma_kept_push(base.stack, f, jid);
        }
        lemma_go_carries(run, base.pushed(f), jobs, StateView::Expand { value: None });
    } else {
        lemma_go_carries(run, base, jobs, StateView::Eval { command: inner, opts });
    }
}

proof fn lemma_arguments_carries(
    run: RunView,
    base: RunView,
    jobs: JobManagerView,
    executable: Seq<char>,
    argv: Seq<Seq<char>>,
    words: Seq<Seq<PartView>>,
    opts: ProcOptionsView,
)
    requires
        ready(base),
        forall|jid: Jid| #[trigger]
            run.holds(jid) ==> jobs.completed.contains_key(jid.0) || kept(base.stack, jid),
    ensures
        carries(run, jobs, base.arguments(jobs, executable, argv, words, opts)),
{
    if argv.len() < words.len() {
        let f = FrameView::Expanding {
            expansion: crate::lang::word::ExpansionView::start(words[argv.len() as int]),
            purpose: PurposeView::Argument { executable, argv, words, opts },
        };
        lemma_guarded_push(base.stack, f);
        assert forall|jid: Jid| #[trigger] run.holds(jid) implies jobs.completed.contains_key(
            jid.0,
        ) || kept(base.pushed(f).stack, jid) by {
            lemma_kept_push(base.stack, f, jid);
        }
        lemma_go_carries(run, base.pushed(f), jobs, StateView::Expand { value: None });
    } else {
        let f = FrameView::Spawning;
        lemma_guarded_push(base.stack, f);
        assert forall|jid: Jid| #[trigger] run.holds(jid) implies jobs.completed.contains_key(
            jid.0,
        ) || kept(base.pushed(f).stack, jid) by {
            lemma_kept_push(base.stack, f, jid);
        }
        lemma_ask_carries(
            run,
            base.pushed(f),
            jobs,
            ActionView::Spawn(opts.plan(executable, argv, base.scope().cwd)),
        );
    }
}

proof fn lemma_eval_carries(
    run: RunView,
    jobs: JobManagerView,
    command: CommandView,
    opts: ProcOptionsView,
)
    requires
        ready(run),
        state_jobs(run.state) == Seq::<Jid>::empty(),
    ensures
        carries(run, jobs, run.eval(jobs, command, opts)),
{
    let after = run.eval(jobs, command, opts);
    assert forall|jid: Jid| #[trigger] run.holds(jid) implies kept(run.stack, jid) by {}
    match command {
        CommandView::Simple(ws) => {
            if ws.len() > 0 {
                let f = after.run.stack.last();
                lemma_guarded_push(run.stack, f);
                assert forall|jid: Jid| #[trigger] run.holds(jid) implies kept(
                    run.pushed(f).stack,
                    jid,
                ) by {
                    lemma_kept_push(run.stack, f, jid);
                }
                lemma_go_carries(run, run.pushed(f), jobs, StateView::Expand { value: None });
            }
        },
        CommandView::Pipeline { bang, from, to } => {
            let f = FrameView::Piping { from: *from, to: *to, opts };
            lemma_guarded_push(run.stack, f);
            assert forall|jid: Jid| #[trigger] run.holds(jid) implies kept(
                run.pushed(f).stack,
                jid,
            ) by {
                lemma_kept_push(run.stack, f, jid);
            }
            lemma_ask_carries(run, run.pushed(f), jobs, ActionView::CreatePipe);
        },
        CommandView::ConditionalPair { left, operator, right } => {
            let f = FrameView::Cond { operator, right: *right, opts };
            lemma_guarded_push(run.stack, f);
            lemma_guarded_push(run.stack.push(f), FrameView::Await);
            assert forall|jid: Jid| #[trigger] run.holds(jid) implies kept(
                run.pushed(f).pushed(FrameView::Await).stack,
                jid,
            ) by {
                lemma_kept_push(run.stack, f, jid);
                lemma_kept_push(run.stack.push(f), FrameView::Await, jid);
            }
            lemma_go_carries(
                run,
                run.pushed(f).pushed(FrameView::Await),
                jobs,
                StateView::Eval { command: *left, opts },
            );
        },
        CommandView::Group(cs) => {
            let f = FrameView::Group { commands: cs, next: 0, opts, scoped: false };
            lemma_guarded_push(run.stack, f);
            assert forall|jid: Jid| #[trigger] run.holds(jid) implies kept(
                run.pushed(f).stack,
                jid,
            ) by {
                lemma_kept_push(run.stack, f, jid);
            }
            lemma_go_carries(run, run.pushed(f), jobs, StateView::Return { jids: Seq::empty() });
        },
        CommandView::BraceGroup(cs) => {
            let f = FrameView::Group { commands: cs, next: 0, opts, scoped: true };
            let base = RunView { scopes: run.scopes.push(run.scope()), ..run };
            lemma_guarded_push(run.stack, f);
            assert forall|jid: Jid| #[trigger] run.holds(jid) implies kept(
                base.pushed(f).stack,
                jid,
            ) by {
                lemma_kept_push(run.stack, f, jid);
            }
            lemma_go_carries(run, base.pushed(f), jobs, StateView::Return { jids: Seq::empty() });
        },
        CommandView::FileRedirect { left, redirects } => {
            lemma_redirect_carries(run, run, jobs, *left, redirects, 0, opts);
        },
        CommandView::Function { name, body } => {
            let f = after.run.stack.last();
            lemma_guarded_push(run.stack, f);
            assert forall|jid: Jid| #[trigger] run.holds(jid) implies kept(
                run.pushed(f).stack,
                jid,
            ) by {
                lemma_kept_push(run.stack, f, jid);
            }
            lemma_go_carries(run, run.pushed(f), jobs, StateView::Expand { value: None });
        },
        CommandView::Comment(_) => {
            lemma_go_carries(run, run, jobs, StateView::Return { jids: Seq::empty() });
        },
        _ => {},
    }
}

proof fn lemma_returned_carries(run: RunView, jobs: JobManagerView, jids: Seq<Jid>)
    requires
        guarded(run.stack),
        run.state == (StateView::Return { jids }),
        drops_jobs(run.stack.last()) ==> jobs.all_complete(jids),
    ensures
        carries(run, jobs, run.returned(jobs, jids)),
{
    lemma_guarded_bottom(run.stack);
    let top = run.stack.last();
    let rest = run.popped();
    if top is Finish {
        return ;
    }
    assert(run.stack.len() > 1);
    lemma_guarded_pop(run.stack);
    assert forall|jid: Jid| #[trigger] run.holds(jid) implies jids.contains(jid) || kept(
        rest.stack,
        jid,
    ) || frame_jobs(top).contains(jid) by {
        lemma_kept_pop(run.stack, jid);
    }
    assert forall|jid: Jid| jids.contains(jid) && jobs.all_complete(jids)
        implies jobs.completed.contains_key(jid.0) by {
        let k = choose|k: int| 0 <= k < jids.len() && jids[k] == jid;
        assert(jobs.completed.contains_key(jids[k].0));
    }
    match top {
        FrameView::Await => {
            lemma_go_carries(run, rest, jobs, StateView::Awaiting { jids });
        },
        FrameView::PipeRight { to, opts, read_end, write_end } => {
            let f = FrameView::PipeClose { left: jids, read_end, write_end };
            lemma_guarded_push(rest.stack, f);
            assert forall|jid: Jid| #[trigger] run.holds(jid) implies kept(
                rest.pushed(f).stack,
                jid,
            ) by {
                lemma_kept_push(rest.stack, f, jid);
            }
            lemma_go_carries(
                run,
                rest.pushed(f),
                jobs,
                StateView::Eval { command: to, opts: opts.right_of_pipe(read_end, write_end) },
            );
        },
        FrameView::PipeClose { left, read_end, write_end } => {
            let f = FrameView::Closing { jids: left + jids, fd: read_end, then: Some(write_end) };
            lemma_guarded_push(rest.stack, f);
            assert forall|jid: Jid| #[trigger] run.holds(jid) implies kept(
                rest.pushed(f).stack,
                jid,
            ) by {
                lemma_kept_push(rest.stack, f, jid);
                if jids.contains(jid) {
                    let k = choose|k: int| 0 <= k < jids.len() && jids[k] == jid;
                    assert((left + jids)[left.len() + k] == jid);
                }
                if left.contains(jid) {
                    let k = choose|k: int| 0 <= k < left.len() && left[k] == jid;
                    assert((left + jids)[k] == jid);
                }
            }
            lemma_ask_carries(run, rest.pushed(f), jobs, ActionView::Close(read_end));
        },
        FrameView::Group { commands, next, opts, scoped } => {
            if next < commands.len() {
                let f = FrameView::Group { commands, next: next + 1, opts, scoped };
                lemma_guarded_push(rest.stack, f);
                lemma_guarded_push(rest.stack.push(f), FrameView::Await);
                assert forall|jid: Jid| #[trigger] run.holds(jid)
                    implies jobs.completed.contains_key(jid.0) || kept(
                    rest.pushed(f).pushed(FrameView::Await).stack,
                    jid,
                ) by {
                    lemma_kept_push(rest.stack, f, jid);
                    lemma_kept_push(rest.stack.push(f), FrameView::Await, jid);
                }
                lemma_go_carries(
                    run,
                    rest.pushed(f).pushed(FrameView::Await),
                    jobs,
                    StateView::Eval { command: commands[next as int], opts },
                );
            } else if scoped && rest.scopes.len() > 1 {
                lemma_go_carries(
                    run,
                    RunView { scopes: rest.scopes.drop_last(), ..rest },
                    jobs,
                    StateView::Return { jids },
                );
            } else {
                lemma_go_carries(run, rest, jobs, StateView::Return { jids });
            }
        },
        FrameView::Cond { operator, right, opts } => {
            if operator.continues(jobs.exit_code(jids, run.own_pid)) {
                lemma_guarded_push(rest.stack, FrameView::Await);
                assert forall|jid: Jid| #[trigger] run.holds(jid)
                    implies jobs.completed.contains_key(jid.0) || kept(
                    rest.pushed(FrameView::Await).stack,
                    jid,
                ) by {
                    lemma_kept_push(rest.stack, FrameView::Await, jid);
                }
                lemma_go_carries(
                    run,
                    rest.pushed(FrameView::Await),
                    jobs,
                    StateView::Eval { command: right, opts },
                );
            } else {
                lemma_go_carries(run, rest, jobs, StateView::Return { jids });
            }
        },
        _ => {},
    }
}

proof fn lemma_awaited_carries(
    run: RunView,
    jobs: JobManagerView,
    jids: Seq<Jid>,
    event: EventView,
)
    requires
        guarded(run.stack),
        run.state == (StateView::Awaiting { jids }),
    ensures
        carries(run, jobs, run.awaited(jobs, jids, event)),
{
    let after = run.awaited(jobs, jids, event);
    if !(after.run.state is Finished) {
        assert(after.run.stack == run.stack);
    }
}

proof fn lemma_finished_word_carries(
    run: RunView,
    base: RunView,
    jobs: JobManagerView,
    text: Seq<char>,
    purpose: PurposeView,
)
    requires
        ready(base),
        base.scopes.len() > 0,
        forall|jid: Jid| #[trigger]
            run.holds(jid) ==> jobs.completed.contains_key(jid.0) || kept(base.stack, jid),
    ensures
        carries(run, jobs, base.finished_word(jobs, text, purpose)),
{
    match purpose {
        PurposeView::CommandName { words, opts } => {
            if base.scope().funcs.contains_key(text) {
                lemma_go_carries(
                    run,
                    base,
                    jobs,
                    StateView::Eval { command: base.scope().funcs[text], opts },
                );
            } else if crate::lang::exec::is_local(text) {
                lemma_arguments_carries(run, base, jobs, text, seq![text], words, opts);
            } else {
                let found = crate::lang::exec::candidates(
                    crate::env::variables::value_in(
                        base.scope().vars,
                        crate::lang::exec::path_name(),
                    ),
                    text,
                );
                if found.len() > 0 {
                    let f = FrameView::Probing {
                        candidates: found,
                        index: 0,
                        name: text,
                        words,
                        opts,
                    };
                    lemma_guarded_push(base.stack, f);
                    assert forall|jid: Jid| #[trigger] run.holds(jid)
                        implies jobs.completed.contains_key(jid.0) || kept(
                        base.pushed(f).stack,
                        jid,
                    ) by {
                        lemma_kept_push(base.stack, f, jid);
                    }
                    lemma_ask_carries(run, base.pushed(f), jobs, ActionView::Probe(found[0]));
                }
            }
        },
        PurposeView::Argument { executable, argv, words, opts } => {
            lemma_arguments_carries(run, base, jobs, executable, argv.push(text), words, opts);
        },
        PurposeView::FunctionName { body } => {
            let scoped = base.rescoped(
                ExecutionContextView {
                    funcs: base.scope().funcs.insert(text, body),
                    ..base.scope()
                },
            );
            lemma_go_carries(run, scoped, jobs, StateView::Return { jids: Seq::empty() });
        },
        PurposeView::RedirectTarget { inner, redirects, index, opts } => {
            if index < redirects.len() {
                match crate::lang::exec::redirect_op(
                    redirects[index as int].operation,
                    redirects[index as int].fd,
                    text,
                ) {
                    Some(op) => {
                        lemma_redirect_carries(
                            run,
                            base,
                            jobs,
                            inner,
                            redirects,
                            index + 1,
                            ProcOptionsView { redirects: opts.redirects.push(op), ..opts },
                        );
                    },
                    None => {},
                }
            }
        },
    }
}

proof fn lemma_expanded_carries(run: RunView, jobs: JobManagerView, value: Option<Seq<char>>)
    requires
        guarded(run.stack),
        run.scopes.len() > 0,
        state_jobs(run.state) == Seq::<Jid>::empty(),
    ensures
        carries(run, jobs, run.expanded(jobs, value)),
{
    lemma_guarded_bottom(run.stack);
    let top = run.stack.last();
    let rest = run.popped();
    match top {
        FrameView::Expanding { expansion, purpose } => {
            lemma_guarded_pop(run.stack);
            assert forall|jid: Jid| #[trigger] run.holds(jid) implies kept(rest.stack, jid) by {
                lemma_kept_pop(run.stack, jid);
            }
            let ran = expansion.resumed(value, run.scope().vars);
            match ran.progress {
                crate::lang::word::ProgressView::Evaluate(e) => {
                    let f = FrameView::Expanding { expansion: ran.state, purpose };
                    lemma_guarded_push(rest.stack, f);
                    assert forall|jid: Jid| #[trigger] run.holds(jid) implies kept(
                        rest.pushed(f).stack,
                        jid,
                    ) by {
                        lemma_kept_push(rest.stack, f, jid);
                    }
                    lemma_ask_carries(run, rest.pushed(f), jobs, ActionView::Evaluate(e));
                },
                crate::lang::word::ProgressView::Failed(e) => {},
                crate::lang::word::ProgressView::Done(text) => {
                    lemma_finished_word_carries(run, rest, jobs, text, purpose);
                },
            }
        },
        _ => {},
    }
}

proof fn lemma_answered_carries(run: RunView, jobs: JobManagerView, event: EventView)
    requires
        guarded(run.stack),
        run.scopes.len() > 0,
        !drops_jobs(run.stack.last()),
        state_jobs(run.state) == Seq::<Jid>::empty(),
    ensures
        carries(run, jobs, run.answered(jobs, event)),
        takes_job(run.with_state(StateView::Waiting), jobs, event) ==> run.answered(
            jobs,
            event,
        ).run.holds(Jid(jobs.next as u32)),
{
    lemma_guarded_bottom(run.stack);
    let top = run.stack.last();
    let rest = run.popped();
    assert(run.stack.len() > 1);
    lemma_guarded_pop(run.stack);
    assert forall|jid: Jid| #[trigger] run.holds(jid) implies kept(rest.stack, jid)
        || frame_jobs(top).contains(jid) by {
        lemma_kept_pop(run.stack, jid);
    }
    match top {
        FrameView::Expanding { expansion, purpose } => match event {
            EventView::Evaluated(v) => {
                lemma_go_carries(run, run, jobs, StateView::Expand { value: Some(v) });
            },
            _ => {},
        },
        FrameView::Piping { from, to, opts } => match event {
            EventView::Piped { read_end, write_end } => {
                let f = FrameView::PipeRight { to, opts, read_end, write_end };
                lemma_guarded_push(rest.stack, f);
                assert forall|jid: Jid| #[trigger] run.holds(jid) implies kept(
                    rest.pushed(f).stack,
                    jid,
                ) by {
                    lemma_kept_push(rest.stack, f, jid);
                }
                lemma_go_carries(
                    run,
                    rest.pushed(f),
                    jobs,
                    StateView::Eval { command: from, opts: opts.left_of_pipe(read_end, write_end) },
                );
            },
            _ => {},
        },
        FrameView::Closing { jids, fd, then } => match event {
            EventView::Closed => match then {
                Some(fd) => {
                    let f = FrameView::Closing { jids, fd, then: None };
                    lemma_guarded_push(rest.stack, f);
                    assert forall|jid: Jid| #[trigger] run.holds(jid) implies kept(
                        rest.pushed(f).stack,
                        jid,
                    ) by {
                        lemma_kept_push(rest.stack, f, jid);
                    }
                    lemma_ask_carries(run, rest.pushed(f), jobs, ActionView::Close(fd));
                },
                None => {
                    lemma_go_carries(run, rest, jobs, StateView::Return { jids });
                },
            },
            _ => {},
        },
        FrameView::Probing { candidates, index, name, words, opts } => match event {
            EventView::Found(found) => {
                if index >= candidates.len() {
                } else if found {
                    lemma_arguments_carries(
                        run,
                        rest,
                        jobs,
                        candidates[index as int],
                        seq![name],
                        words,
                        opts,
                    );
                } else if index + 1 < candidates.len() {
                    let f = FrameView::Probing { candidates, index: index + 1, name, words, opts };
                    lemma_guarded_push(rest.stack, f);
                    assert forall|jid: Jid| #[trigger] run.holds(jid) implies kept(
                        rest.pushed(f).stack,
                        jid,
                    ) by {
                        lemma_kept_push(rest.stack, f, jid);
                    }
                    lemma_ask_carries(
                        run,
                        rest.pushed(f),
                        jobs,
                        ActionView::Probe(candidates[index as int + 1]),
                    );
                }
            },
            _ => {},
        },
        FrameView::Spawning => match event {
            EventView::Spawned { pid } => {
                if jobs.next < u32::MAX {
                    let jids = seq![Jid(jobs.next as u32)];
                    assert(jids[0] == Jid(jobs.next as u32));
                    lemma_go_carries(run, rest, jobs.added(pid), StateView::Return { jids });
                }
            },
            _ => {},
        },
        _ => {},
    }
}

/// Every step keeps a run sound: after it, the jobs that the run has
/// started, the new one among them, are over or still held, whatever the
/// event was.
pub proof fn lemma_step_keeps_sound(
    run: RunView,
    jobs: JobManagerView,
    started: Set<Jid>,
    event: EventView,
)
    requires
        run.sound(jobs, started),
    ensures
        run.next(jobs, event).run.sound(
            run.next(jobs, event).jobs,
            started_after(run, jobs, started, event),
        ),
{
    let after = run.next(jobs, event);
    let more = started_after(run, jobs, started, event);
    if after.run.state is Finished {
        return ;
    }
    assert(run.scopes.len() > 0);
    match run.state {
        StateView::Eval { command, opts } => {
            lemma_eval_carries(run, jobs, command, opts);
        },
        StateView::Return { jids } => {
            lemma_returned_carries(run, jobs, jids);
        },
        StateView::Awaiting { jids } => {
            lemma_awaited_carries(run, jobs, jids, event);
        },
        StateView::Expand { value } => {
            lemma_expanded_carries(run, jobs, value);
        },
        StateView::Waiting => {
            lemma_answered_carries(run, jobs, event);
        },
        StateView::Finished => {},
    }
    assert(carries(run, jobs, after));
    assert forall|jid: Jid| #[trigger] more.contains(jid)
        implies after.jobs.completed.contains_key(jid.0) || after.run.holds(jid) by {
        if started.contains(jid) {
            if jobs.completed.contains_key(jid.0) {
            } else {
                assert(run.holds(jid));
            }
        }
    }
}


/// Where a run and the jobs of the shell stand after some steps, which
/// jobs the run has started by then, and the action that the last step
/// handed out.
pub struct Driven {
    pub run: RunView,
    pub jobs: JobManagerView,
    pub started: Set<Jid>,
    pub action: ActionView,
}

impl RunView {
    /// The run after the steps that take the events `events`, one after the
    /// other, where `started` are the jobs that it had started before.
    pub open spec fn driven(
        self,
        jobs: JobManagerView,
        started: Set<Jid>,
        events: Seq<EventView>,
    ) -> Driven
        decreases events.len(),
    {
        if events.len() == 0 {
            Driven { run: self, jobs, started, action: ActionView::Continue }
        } else {
            let before = self.driven(jobs, started, events.drop_last());
            let step = before.run.next(before.jobs, events.last());
            Driven {
                run: step.run,
                jobs: step.jobs,
                started: started_after(before.run, before.jobs, before.started, events.last()),
                action: step.action,
            }
        }
    }
}

/// Whatever the command, the context and the events are, a run stays
/// sound from its start on, and the jobs of the shell stay in order. So a
/// run that ends with an exit record, after any number of steps, has left
/// none of the children that it started unwaited: each of them is over,
/// with its exit record kept.
pub proof fn lemma_run_leaves_no_child_unwaited(
    command: CommandView,
    context: ExecutionContextView,
    own_pid: i32,
    jobs: JobManagerView,
    events: Seq<EventView>,
)
    requires
        jobs.well_formed(),
    ensures
        ({
            let end = RunView::start(command, context, own_pid).driven(
                jobs,
                Set::empty(),
                events,
            );
            &&& end.run.sound(end.jobs, end.started)
            &&& end.jobs.well_formed()
            &&& end.action matches ActionView::Finish(Ok(_)) ==> forall|jid: Jid| #[trigger]
                end.started.contains(jid) ==> end.jobs.completed.contains_key(jid.0)
        }),
    decreases events.len(),
{
    let begin = RunView::start(command, context, own_pid);
    lemma_start_is_sound(command, context, own_pid, jobs);
    if events.len() > 0 {
        lemma_run_leaves_no_child_unwaited(command, context, own_pid, jobs, events.drop_last());
        let before = begin.driven(jobs, Set::empty(), events.drop_last());
        lemma_step_keeps_sound(before.run, before.jobs, before.started, events.last());
        lemma_step_keeps_jobs_in_order(before.run, before.jobs, events.last());
        if before.run.next(before.jobs, events.last()).action matches ActionView::Finish(Ok(_)) {
            lemma_finish_leaves_no_job(before.run, before.jobs, before.started, events.last());
            let end = begin.driven(jobs, Set::empty(), events);
            assert forall|jid: Jid| #[trigger] end.started.contains(jid) implies end.jobs.completed.contains_key(
                jid.0,
            ) by {
                if !before.started.contains(jid) {
                    assert(takes_job(before.run, before.jobs, events.last()));
                }
            }
        }
    }
}

} // verus!

//! Running a command tree, in small steps. The run decides what has to be
//! done next and the caller does it: a step hands out an action, and the
//! next step takes the event that reports how the action went.

use crate::env::variables::value_in;
use crate::expr::types::{Expr, ExprView};
use crate::jobs::spawn::{ProcessOptions, ProcessOptionsView, SpawnError};
use crate::lang::ast::{
    redirects_view, words_view, Command, CommandView, ConditionOperator, RedirectDestination,
    RedirectView,
};
use crate::lang::errors::{Cause, CauseView, Error, ErrorKind, ErrorKindView, ErrorView};
use crate::lang::exec::{
    candidates, is_local, path_name, redirect_op, redirect_operation, ExecutionContext,
    ExecutionContextView, ExitStatus, Jid, JobManager, JobManagerView, ProcOptions,
    ProcOptionsView, WaitEvent,
};
use crate::lang::word::{Expansion, ExpansionView, PartView, Progress, ProgressView, Word};
use vstd::prelude::*;

verus! {

/// What the caller reports to a run.
#[derive(Debug, PartialEq, Eq)]
pub enum Event {
    /// Nothing: the last action was `Continue`, or the run has just begun.
    Continue,
    /// A pipe was made, with these two ends.
    Piped { read_end: i32, write_end: i32 },
    /// No pipe could be made.
    PipeFailed { errno: i32 },
    /// The child was started, with this process id.
    Spawned { pid: i32 },
    /// The child could not be started.
    SpawnFailed(SpawnError),
    /// `wait` returned.
    Waited(WaitEvent),
    /// `wait` failed.
    WaitFailed { errno: i32 },
    /// The descriptor was closed.
    Closed,
    /// The descriptor could not be closed.
    CloseFailed { errno: i32 },
    /// The expression was evaluated; this is its value, as text.
    Evaluated(String),
    /// Whether anything is at the path.
    Found(bool),
}

pub enum EventView {
    Continue,
    Piped { read_end: i32, write_end: i32 },
    PipeFailed { errno: i32 },
    Spawned { pid: i32 },
    SpawnFailed(SpawnError),
    Waited(WaitEvent),
    WaitFailed { errno: i32 },
    Closed,
    CloseFailed { errno: i32 },
    Evaluated(Seq<char>),
    Found(bool),
}

impl View for Event {
    type V = EventView;

    open spec fn view(&self) -> EventView {
        match self {
            Event::Continue => EventView::Continue,
            Event::Piped { read_end, write_end } => EventView::Piped {
                read_end: *read_end,
                write_end: *write_end,
            },
            Event::PipeFailed { errno } => EventView::PipeFailed { errno: *errno },
            Event::Spawned { pid } => EventView::Spawned { pid: *pid },
            Event::SpawnFailed(e) => EventView::SpawnFailed(*e),
            Event::Waited(e) => EventView::Waited(*e),
            Event::WaitFailed { errno } => EventView::WaitFailed { errno: *errno },
            Event::Closed => EventView::Closed,
            Event::CloseFailed { errno } => EventView::CloseFailed { errno: *errno },
            Event::Evaluated(value) => EventView::Evaluated(value@),
            Event::Found(found) => EventView::Found(*found),
        }
    }
}

/// What a run asks its caller to do.
#[derive(Debug, PartialEq, Eq)]
pub enum Action {
    /// Nothing: take the next step.
    Continue,
    /// Make a pipe.
    CreatePipe,
    /// Start a child by this plan.
    Spawn(ProcessOptions),
    /// Wait for a child to end.
    Wait,
    /// Close this descriptor.
    Close(i32),
    /// Evaluate this expression against the variables of the run.
    Evaluate(Expr),
    /// Look whether anything is at this path.
    Probe(String),
    /// Nothing more: the run is over, with the exit record of the command
    /// or with a failure.
    Finish(Result<ExitStatus, Error>),
}

pub enum ActionView {
    Continue,
    CreatePipe,
    Spawn(ProcessOptionsView),
    Wait,
    Close(i32),
    Evaluate(ExprView),
    Probe(Seq<char>),
    Finish(Result<ExitStatus, ErrorView>),
}

impl View for Action {
    type V = ActionView;

    open spec fn view(&self) -> ActionView {
        match self {
            Action::Continue => ActionView::Continue,
            Action::CreatePipe => ActionView::CreatePipe,
            Action::Spawn(plan) => ActionView::Spawn(plan@),
            Action::Wait => ActionView::Wait,
            Action::Close(fd) => ActionView::Close(*fd),
            Action::Evaluate(e) => ActionView::Evaluate(e@),
            Action::Probe(path) => ActionView::Probe(path@),
            Action::Finish(r) => ActionView::Finish(
                match r {
                    Ok(status) => Ok(*status),
                    Err(e) => Err(e@),
                },
            ),
        }
    }
}

/// What the text that a word expands to is for.
pub enum Purpose {
    /// It names the command; `words` are the words of the command.
    CommandName { words: Vec<Word>, opts: ProcOptions },
    /// It is the next argument of the program `executable`; `argv` are the
    /// arguments so far.
    Argument { executable: String, argv: Vec<String>, words: Vec<Word>, opts: ProcOptions },
    /// It names the function to define with `body`.
    FunctionName { body: Command },
    /// It is the target of the redirection at `index` of `redirects`, which
    /// belong to `inner`.
    RedirectTarget {
        inner: Command,
        redirects: Vec<RedirectDestination>,
        index: usize,
        opts: ProcOptions,
    },
}

pub enum PurposeView {
    CommandName { words: Seq<Seq<PartView>>, opts: ProcOptionsView },
    Argument {
        executable: Seq<char>,
        argv: Seq<Seq<char>>,
        words: Seq<Seq<PartView>>,
        opts: ProcOptionsView,
    },
    FunctionName { body: CommandView },
    RedirectTarget {
        inner: CommandView,
        redirects: Seq<RedirectView>,
        index: nat,
        opts: ProcOptionsView,
    },
}

/// What a sequence of texts stands for in contracts.
pub open spec fn texts(v: Seq<String>) -> Seq<Seq<char>> {
    Seq::new(v.len(), |i: int| v[i]@)
}

/// What a sequence of commands stands for in contracts.
pub open spec fn commands(v: Seq<Command>) -> Seq<CommandView> {
    Seq::new(v.len(), |i: int| v[i]@)
}

impl View for Purpose {
    type V = PurposeView;

    open spec fn view(&self) -> PurposeView {
        match self {
            Purpose::CommandName { words: w, opts } => PurposeView::CommandName {
                words: words_view(w@),
                opts: opts@,
            },
            Purpose::Argument { executable, argv, words: w, opts } => PurposeView::Argument {
                executable: executable@,
                argv: texts(argv@),
                words: words_view(w@),
                opts: opts@,
            },
            Purpose::FunctionName { body } => PurposeView::FunctionName { body: body@ },
            Purpose::RedirectTarget { inner, redirects, index, opts } =>
                PurposeView::RedirectTarget {
                    inner: inner@,
                    redirects: redirects_view(redirects@),
                    index: *index as nat,
                    opts: opts@,
                },
        }
    }
}

/// What is left to do once the command under way has returned its jobs, or
/// once the answer to an action has come.
pub enum Frame {
    /// End the run with the outcome of the jobs.
    Finish,
    /// Wait until the jobs are over, then hand them on.
    Await,
    /// A pipe is being made for `from` and `to`.
    Piping { from: Command, to: Command, opts: ProcOptions },
    /// The left side of a pipeline is being started; `to` comes next.
    PipeRight { to: Command, opts: ProcOptions, read_end: i32, write_end: i32 },
    /// The right side of a pipeline is being started; then both ends of the
    /// pipe are closed.
    PipeClose { left: Vec<Jid>, read_end: i32, write_end: i32 },
    /// The descriptor `fd` is being closed; `then` is the one to close next.
    Closing { jids: Vec<Jid>, fd: i32, then: Option<i32> },
    /// The commands of a group run one after the other; `next` is the index
    /// of the one to run next. A group that is `scoped` runs in a context of
    /// its own, which ends with it.
    Group { commands: Vec<Command>, next: usize, opts: ProcOptions, scoped: bool },
    /// The left side of a conditional pair runs; how it ends decides whether
    /// `right` runs.
    Cond { operator: ConditionOperator, right: Command, opts: ProcOptions },
    /// A word is being expanded.
    Expanding { expansion: Expansion, purpose: Purpose },
    /// The program `name` is looked for at the paths `candidates`, one after
    /// the other; `index` is the one under way.
    Probing {
        candidates: Vec<String>,
        index: usize,
        name: String,
        words: Vec<Word>,
        opts: ProcOptions,
    },
    /// A child is being started.
    Spawning,
}

pub enum FrameView {
    Finish,
    Await,
    Piping { from: CommandView, to: CommandView, opts: ProcOptionsView },
    PipeRight { to: CommandView, opts: ProcOptionsView, read_end: i32, write_end: i32 },
    PipeClose { left: Seq<Jid>, read_end: i32, write_end: i32 },
    Closing { jids: Seq<Jid>, fd: i32, then: Option<i32> },
    Group { commands: Seq<CommandView>, next: nat, opts: ProcOptionsView, scoped: bool },
    Cond { operator: ConditionOperator, right: CommandView, opts: ProcOptionsView },
    Expanding { expansion: ExpansionView, purpose: PurposeView },
    Probing {
        candidates: Seq<Seq<char>>,
        index: nat,
        name: Seq<char>,
        words: Seq<Seq<PartView>>,
        opts: ProcOptionsView,
    },
    Spawning,
}

impl View for Frame {
    type V = FrameView;

    open spec fn view(&self) -> FrameView {
        match self {
            Frame::Finish => FrameView::Finish,
            Frame::Await => FrameView::Await,
            Frame::Piping { from, to, opts } => FrameView::Piping {
                from: from@,
                to: to@,
                opts: opts@,
            },
            Frame::PipeRight { to, opts, read_end, write_end } => FrameView::PipeRight {
                to: to@,
                opts: opts@,
                read_end: *read_end,
                write_end: *write_end,
            },
            Frame::PipeClose { left, read_end, write_end } => FrameView::PipeClose {
                left: left@,
                read_end: *read_end,
                write_end: *write_end,
            },
            Frame::Closing { jids, fd, then } => FrameView::Closing {
                jids: jids@,
                fd: *fd,
                then: *then,
            },
            Frame::Group { commands: c, next, opts, scoped } => FrameView::Group {
                commands: commands(c@),
                next: *next as nat,
                opts: opts@,
                scoped: *scoped,
            },
            Frame::Cond { operator, right, opts } => FrameView::Cond {
                operator: *operator,
                right: right@,
                opts: opts@,
            },
            Frame::Expanding { expansion, purpose } => FrameView::Expanding {
                expansion: expansion@,
                purpose: purpose@,
            },
            Frame::Probing { candidates: c, index, name, words: w, opts } => FrameView::Probing {
                candidates: texts(c@),
                index: *index as nat,
                name: name@,
                words: words_view(w@),
                opts: opts@,
            },
            Frame::Spawning => FrameView::Spawning,
        }
    }
}

/// What a run is about to do.
pub enum State {
    /// Run `command`.
    Eval { command: Command, opts: ProcOptions },
    /// Hand the jobs of the command that has been run to the frame on top.
    Return { jids: Vec<Jid> },
    /// Wait until the jobs are over.
    Awaiting { jids: Vec<Jid> },
    /// Go on with the expansion on top; `value` is the value of the
    /// expression that it asked for.
    Expand { value: Option<String> },
    /// Take the answer to the action that was handed out.
    Waiting,
    /// Nothing: the run is over.
    Finished,
}

pub enum StateView {
    Eval { command: CommandView, opts: ProcOptionsView },
    Return { jids: Seq<Jid> },
    Awaiting { jids: Seq<Jid> },
    Expand { value: Option<Seq<char>> },
    Waiting,
    Finished,
}

impl View for State {
    type V = StateView;

    open spec fn view(&self) -> StateView {
        match self {
            State::Eval { command, opts } => StateView::Eval { command: command@, opts: opts@ },
            State::Return { jids } => StateView::Return { jids: jids@ },
            State::Awaiting { jids } => StateView::Awaiting { jids: jids@ },
            State::Expand { value } => StateView::Expand {
                value: match value {
                    Some(v) => Some(v@),
                    None => None,
                },
            },
            State::Waiting => StateView::Waiting,
            State::Finished => StateView::Finished,
        }
    }
}

/// The state of a run: the process id of the shell, what is left to do,
/// the contexts, of which the last is the one that commands run in, and
/// what comes next.
pub struct RunView {
    pub own_pid: i32,
    pub stack: Seq<FrameView>,
    pub scopes: Seq<ExecutionContextView>,
    pub state: StateView,
}

/// The result of a step: the run and the jobs after it, and the action
/// handed out.
pub struct Stepped {
    pub run: RunView,
    pub jobs: JobManagerView,
    pub action: ActionView,
}

impl ProcOptionsView {
    /// Nothing to close, to add or to redirect.
    pub open spec fn plain() -> ProcOptionsView {
        ProcOptionsView {
            close_fds: Seq::empty(),
            env: Seq::empty(),
            stdin: None,
            stdout: None,
            redirects: Seq::empty(),
        }
    }
}

impl JobManagerView {
    /// Whether all of the jobs `jids` are over.
    pub open spec fn all_complete(self, jids: Seq<Jid>) -> bool {
        forall|i: int| 0 <= i < jids.len() ==> self.completed.contains_key(jids[i].0)
    }

    /// The exit code that a command which started the jobs `jids` has ended
    /// with: that of its last job, and 0 if it started none.
    pub open spec fn exit_code(self, jids: Seq<Jid>, own_pid: i32) -> i32 {
        match self.outcome(jids, own_pid) {
            Some(status) => status.exit_code,
            None => 0,
        }
    }
}

impl RunView {
    /// The run of `command` in `context`, with nothing done: when the jobs
    /// of the command are known, they are waited for, and the run ends with
    /// their outcome.
    pub open spec fn start(command: CommandView, context: ExecutionContextView, own_pid: i32) -> RunView {
        RunView {
            own_pid,
            stack: seq![FrameView::Finish, FrameView::Await],
            scopes: seq![context],
            state: StateView::Eval { command, opts: ProcOptionsView::plain() },
        }
    }

    /// The context that commands run in.
    pub open spec fn scope(self) -> ExecutionContextView {
        self.scopes.last()
    }

    pub open spec fn with_state(self, state: StateView) -> RunView {
        RunView { state, ..self }
    }

    pub open spec fn pushed(self, frame: FrameView) -> RunView {
        RunView { stack: self.stack.push(frame), ..self }
    }

    pub open spec fn popped(self) -> RunView {
        RunView { stack: self.stack.drop_last(), ..self }
    }

    /// The run with the context `scope` in the place of the present one.
    pub open spec fn rescoped(self, scope: ExecutionContextView) -> RunView {
        RunView { scopes: self.scopes.update(self.scopes.len() - 1, scope), ..self }
    }

    /// A step that asks nothing of the caller and goes on in `state`.
    pub open spec fn go(self, jobs: JobManagerView, state: StateView) -> Stepped {
        Stepped { run: self.with_state(state), jobs, action: ActionView::Continue }
    }

    /// A step that hands out `action` and takes the answer next.
    pub open spec fn ask(self, jobs: JobManagerView, action: ActionView) -> Stepped {
        Stepped { run: self.with_state(StateView::Waiting), jobs, action }
    }

    /// A step that ends the run with a failure.
    pub open spec fn fail(self, jobs: JobManagerView, kind: ErrorKindView, cause: Option<CauseView>) -> Stepped {
        Stepped {
            run: self.with_state(StateView::Finished),
            jobs,
            action: ActionView::Finish(Err(ErrorView { kind, cause })),
        }
    }

    /// A step that ends the run because the event or the run itself is not
    /// as it has to be.
    pub open spec fn confused(self, jobs: JobManagerView) -> Stepped {
        self.fail(jobs, ErrorKindView::SysError, None)
    }

    /// One step of the run: `jobs` are the jobs of the shell and `event`
    /// reports how the action of the step before went.
    pub open spec fn next(self, jobs: JobManagerView, event: EventView) -> Stepped {
        if self.scopes.len() == 0 {
            self.confused(jobs)
        } else {
            match self.state {
                StateView::Finished => self.confused(jobs),
                StateView::Eval { command, opts } => if event is Continue {
                    self.eval(jobs, command, opts)
                } else {
                    self.confused(jobs)
                },
                StateView::Return { jids } => if event is Continue {
                    self.returned(jobs, jids)
                } else {
                    self.confused(jobs)
                },
                StateView::Awaiting { jids } => self.awaited(jobs, jids, event),
                StateView::Expand { value } => if event is Continue {
                    self.expanded(jobs, value)
                } else {
                    self.confused(jobs)
                },
                StateView::Waiting => self.answered(jobs, event),
            }
        }
    }

    /// The step that begins to run `command`. A simple command begins with
    /// the expansion of its first word. A pipeline begins with its pipe. A
    /// conditional pair begins with its left side, whose jobs are waited
    /// for. A group runs its commands in the present context, a brace group
    /// in a copy of it. A function definition begins with the expansion of
    /// the name. A comment starts no job. The other commands cannot be run.
    pub open spec fn eval(self, jobs: JobManagerView, command: CommandView, opts: ProcOptionsView) -> Stepped {
        match command {
            CommandView::Simple(ws) => if ws.len() == 0 {
                self.fail(jobs, ErrorKindView::IllegalExecutableName, None)
            } else {
                self.pushed(
                    FrameView::Expanding {
                        expansion: ExpansionView::start(ws[0]),
                        purpose: PurposeView::CommandName { words: ws, opts },
                    },
                ).go(jobs, StateView::Expand { value: None })
            },
            CommandView::Pipeline { bang, from, to } => self.pushed(
                FrameView::Piping { from: *from, to: *to, opts },
            ).ask(jobs, ActionView::CreatePipe),
            CommandView::ConditionalPair { left, operator, right } => self.pushed(
                FrameView::Cond { operator, right: *right, opts },
            ).pushed(FrameView::Await).go(jobs, StateView::Eval { command: *left, opts }),
            CommandView::Group(cs) => self.pushed(
                FrameView::Group { commands: cs, next: 0, opts, scoped: false },
            ).go(jobs, StateView::Return { jids: Seq::empty() }),
            CommandView::BraceGroup(cs) => RunView {
                scopes: self.scopes.push(self.scope()),
                ..self
            }.pushed(FrameView::Group { commands: cs, next: 0, opts, scoped: true }).go(
                jobs,
                StateView::Return { jids: Seq::empty() },
            ),
            CommandView::FileRedirect { left, redirects } => self.redirect(
                jobs,
                *left,
                redirects,
                0,
                opts,
            ),
            CommandView::Function { name, body } => self.pushed(
                FrameView::Expanding {
                    expansion: ExpansionView::start(name),
                    purpose: PurposeView::FunctionName { body: *body },
                },
            ).go(jobs, StateView::Expand { value: None }),
            CommandView::Comment(_) => self.go(jobs, StateView::Return { jids: Seq::empty() }),
            _ => self.fail(jobs, ErrorKindView::ExecFailed, None),
        }
    }

    /// The step that goes on with the redirections of `inner` from `index`
    /// on: the word of the next one is expanded; when none is left, `inner`
    /// runs with the redirections gathered in `opts`.
    pub open spec fn redirect(
        self,
        jobs: JobManagerView,
        inner: CommandView,
        redirects: Seq<RedirectView>,
        index: nat,
        opts: ProcOptionsView,
    ) -> Stepped {
        if index < redirects.len() {
            self.pushed(
                FrameView::Expanding {
                    expansion: ExpansionView::start(redirects[index as int].file),
                    purpose: PurposeView::RedirectTarget { inner, redirects, index, opts },
                },
            ).go(jobs, StateView::Expand { value: None })
        } else {
            self.go(jobs, StateView::Eval { command: inner, opts })
        }
    }

    /// The step that goes on with the arguments of a program: the next word
    /// is expanded; when none is left, the child is planned and the caller is
    /// asked to start it.
    pub open spec fn arguments(
        self,
        jobs: JobManagerView,
        executable: Seq<char>,
        argv: Seq<Seq<char>>,
        words: Seq<Seq<PartView>>,
        opts: ProcOptionsView,
    ) -> Stepped {
        if argv.len() < words.len() {
            self.pushed(
                FrameView::Expanding {
                    expansion: ExpansionView::start(words[argv.len() as int]),
                    purpose: PurposeView::Argument { executable, argv, words, opts },
                },
            ).go(jobs, StateView::Expand { value: None })
        } else {
            self.pushed(FrameView::Spawning).ask(
                jobs,
                ActionView::Spawn(opts.plan(executable, argv, self.scope().cwd)),
            )
        }
    }

    /// The step that hands the jobs `jids` of the command that has been run
    /// to the frame on top. At the bottom the run ends with the outcome of
    /// the jobs. The left side of a pipeline is followed by the right side;
    /// then both ends of the pipe are closed, the read end first, and the
    /// jobs of both sides are the jobs of the pipeline. A group goes on with
    /// its next command, whose jobs are waited for; the jobs of its last
    /// command are its own, and a brace group drops its context. After the
    /// left side of a conditional pair the right side runs if the operator
    /// and the exit code say so, and its jobs are waited for; else the jobs
    /// of the left side are those of the pair.
    pub open spec fn returned(self, jobs: JobManagerView, jids: Seq<Jid>) -> Stepped {
        if self.stack.len() == 0 {
            self.confused(jobs)
        } else {
            let rest = self.popped();
            match self.stack.last() {
                FrameView::Finish => Stepped {
                    run: rest.with_state(StateView::Finished),
                    jobs,
                    action: ActionView::Finish(
                        match jobs.outcome(jids, self.own_pid) {
                            Some(status) => Ok(status),
                            None => Err(ErrorView { kind: ErrorKindView::WaitFailed, cause: None }),
                        },
                    ),
                },
                FrameView::Await => rest.go(jobs, StateView::Awaiting { jids }),
                FrameView::PipeRight { to, opts, read_end, write_end } => rest.pushed(
                    FrameView::PipeClose { left: jids, read_end, write_end },
                ).go(
                    jobs,
                    StateView::Eval { command: to, opts: opts.right_of_pipe(read_end, write_end) },
                ),
                FrameView::PipeClose { left, read_end, write_end } => rest.pushed(
                    FrameView::Closing { jids: left + jids, fd: read_end, then: Some(write_end) },
                ).ask(jobs, ActionView::Close(read_end)),
                FrameView::Group { commands, next, opts, scoped } => if next < commands.len() {
                    rest.pushed(
                        FrameView::Group { commands, next: next + 1, opts, scoped },
                    ).pushed(FrameView::Await).go(
                        jobs,
                        StateView::Eval { command: commands[next as int], opts },
                    )
                } else if scoped && rest.scopes.len() > 1 {
                    RunView { scopes: rest.scopes.drop_last(), ..rest }.go(
                        jobs,
                        StateView::Return { jids },
                    )
                } else {
                    rest.go(jobs, StateView::Return { jids })
                },
                FrameView::Cond { operator, right, opts } => if operator.continues(
                    jobs.exit_code(jids, self.own_pid),
                ) {
                    rest.pushed(FrameView::Await).go(
                        jobs,
                        StateView::Eval { command: right, opts },
                    )
                } else {
                    rest.go(jobs, StateView::Return { jids })
                },
                _ => rest.confused(jobs),
            }
        }
    }

    /// The step of a run that waits for the jobs `jids`: what `wait`
    /// reported is taken note of; when all the jobs are over they are handed
    /// on, else the caller is asked to wait.
    pub open spec fn awaited(self, jobs: JobManagerView, jids: Seq<Jid>, event: EventView) -> Stepped {
        match event {
            EventView::Continue => self.settled(jobs, jids),
            EventView::Waited(e) => self.settled(jobs.reaped(e), jids),
            EventView::WaitFailed { errno } => self.fail(
                jobs,
                ErrorKindView::WaitFailed,
                Some(CauseView::System(errno)),
            ),
            _ => self.confused(jobs),
        }
    }

    pub open spec fn settled(self, jobs: JobManagerView, jids: Seq<Jid>) -> Stepped {
        if jobs.all_complete(jids) {
            self.go(jobs, StateView::Return { jids })
        } else {
            Stepped {
                run: self.with_state(StateView::Awaiting { jids }),
                jobs,
                action: ActionView::Wait,
            }
        }
    }

    /// The step that goes on with the expansion on top, against the
    /// variables of the present context. An expression is handed out to be
    /// evaluated; a text that is no expression ends the run; the text of
    /// the whole word is put to its use.
    pub open spec fn expanded(self, jobs: JobManagerView, value: Option<Seq<char>>) -> Stepped {
        if self.stack.len() == 0 {
            self.confused(jobs)
        } else {
            match self.stack.last() {
                FrameView::Expanding { expansion, purpose } => {
                    let ran = expansion.resumed(value, self.scope().vars);
                    let rest = self.popped();
                    match ran.progress {
                        ProgressView::Evaluate(e) => rest.pushed(
                            FrameView::Expanding { expansion: ran.state, purpose },
                        ).ask(jobs, ActionView::Evaluate(e)),
                        ProgressView::Failed(e) => rest.fail(
                            jobs,
                            ErrorKindView::ExpressionError,
                            Some(CauseView::Expression(e)),
                        ),
                        ProgressView::Done(text) => rest.finished_word(jobs, text, purpose),
                    }
                },
                _ => self.popped().confused(jobs),
            }
        }
    }

    /// The step that puts the text of a word to its use. A command name
    /// that is the name of a function runs the function's body; one that
    /// begins with `./` is the program itself; any other is looked for along
    /// `PATH`. An argument joins the arguments. A function name defines the
    /// function in the present context. The target of a redirection joins
    /// the redirections; a redirection that is not supported ends the run.
    pub open spec fn finished_word(
        self,
        jobs: JobManagerView,
        text: Seq<char>,
        purpose: PurposeView,
    ) -> Stepped {
        match purpose {
            PurposeView::CommandName { words, opts } => if self.scope().funcs.contains_key(text) {
                self.go(jobs, StateView::Eval { command: self.scope().funcs[text], opts })
            } else if is_local(text) {
                self.arguments(jobs, text, seq![text], words, opts)
            } else {
                let found = candidates(value_in(self.scope().vars, path_name()), text);
                if found.len() == 0 {
                    self.fail(jobs, ErrorKindView::MissingExecutable(text), None)
                } else {
                    self.pushed(
                        FrameView::Probing { candidates: found, index: 0, name: text, words, opts },
                    ).ask(jobs, ActionView::Probe(found[0]))
                }
            },
            PurposeView::Argument { executable, argv, words, opts } => self.arguments(
                jobs,
                executable,
                argv.push(text),
                words,
                opts,
            ),
            PurposeView::FunctionName { body } => self.rescoped(
                ExecutionContextView {
                    funcs: self.scope().funcs.insert(text, body),
                    ..self.scope()
                },
            ).go(jobs, StateView::Return { jids: Seq::empty() }),
            PurposeView::RedirectTarget { inner, redirects, index, opts } => if index
                < redirects.len() {
                match redirect_op(
                    redirects[index as int].operation,
                    redirects[index as int].fd,
                    text,
                ) {
                    Some(op) => self.redirect(
                        jobs,
                        inner,
                        redirects,
                        index + 1,
                        ProcOptionsView { redirects: opts.redirects.push(op), ..opts },
                    ),
                    None => self.fail(jobs, ErrorKindView::ExecFailed, None),
                }
            } else {
                self.confused(jobs)
            },
        }
    }

    /// The step that takes the answer to an action. The value of an
    /// expression goes into the expansion. With its pipe a pipeline starts
    /// its left side. After the first end of a pipe the second one is
    /// closed. A program that was found gets its arguments; one that was
    /// not is looked for at the next path, and is missing when none is left.
    /// A child that was started becomes a new job. Any failure of the
    /// caller's ends the run.
    pub open spec fn answered(self, jobs: JobManagerView, event: EventView) -> Stepped {
        if self.stack.len() == 0 {
            self.confused(jobs)
        } else {
            let rest = self.popped();
            match self.stack.last() {
                FrameView::Expanding { expansion, purpose } => match event {
                    EventView::Evaluated(v) => self.go(
                        jobs,
                        StateView::Expand { value: Some(v) },
                    ),
                    _ => rest.confused(jobs),
                },
                FrameView::Piping { from, to, opts } => match event {
                    EventView::Piped { read_end, write_end } => rest.pushed(
                        FrameView::PipeRight { to, opts, read_end, write_end },
                    ).go(
                        jobs,
                        StateView::Eval {
                            command: from,
                            opts: opts.left_of_pipe(read_end, write_end),
                        },
                    ),
                    EventView::PipeFailed { errno } => rest.fail(
                        jobs,
                        ErrorKindView::PipelineCreationFailed,
                        Some(CauseView::System(errno)),
                    ),
                    _ => rest.confused(jobs),
                },
                FrameView::Closing { jids, fd, then } => match event {
                    EventView::Closed => match then {
                        Some(next) => rest.pushed(
                            FrameView::Closing { jids, fd: next, then: None },
                        ).ask(jobs, ActionView::Close(next)),
                        None => rest.go(jobs, StateView::Return { jids }),
                    },
                    EventView::CloseFailed { errno } => rest.fail(
                        jobs,
                        ErrorKindView::FailedToClosePipeFile(fd),
                        Some(CauseView::System(errno)),
                    ),
                    _ => rest.confused(jobs),
                },
                FrameView::Probing { candidates, index, name, words, opts } => match event {
                    EventView::Found(found) => if index >= candidates.len() {
                        rest.confused(jobs)
                    } else if found {
                        rest.arguments(jobs, candidates[index as int], seq![name], words, opts)
                    } else if index + 1 < candidates.len() {
                        rest.pushed(
                            FrameView::Probing { candidates, index: index + 1, name, words, opts },
                        ).ask(jobs, ActionView::Probe(candidates[index as int + 1]))
                    } else {
                        rest.fail(jobs, ErrorKindView::MissingExecutable(name), None)
                    },
                    _ => rest.confused(jobs),
                },
                FrameView::Spawning => match event {
                    EventView::Spawned { pid } => if jobs.next < u32::MAX {
                        rest.go(
                            jobs.added(pid),
                            StateView::Return { jids: seq![Jid(jobs.next as u32)] },
                        )
                    } else {
                        rest.fail(jobs, ErrorKindView::ForkFailed, None)
                    },
                    EventView::SpawnFailed(e) => rest.fail(
                        jobs,
                        ErrorKindView::ExecFailed,
                        Some(CauseView::Spawn(e)),
                    ),
                    _ => rest.confused(jobs),
                },
                _ => rest.confused(jobs),
            }
        }
    }
}

/// A run of a command tree.
pub struct Run {
    own_pid: i32,
    stack: Vec<Frame>,
    scopes: Vec<ExecutionContext>,
    state: State,
}

impl View for Run {
    type V = RunView;

    closed spec fn view(&self) -> RunView {
        RunView {
            own_pid: self.own_pid,
            stack: Seq::new(self.stack@.len(), |i: int| self.stack@[i]@),
            scopes: Seq::new(self.scopes@.len(), |i: int| self.scopes@[i]@),
            state: self.state@,
        }
    }
}

/// What an optional cause stands for in contracts.
pub open spec fn cause_view(cause: Option<Cause>) -> Option<CauseView> {
    match cause {
        Some(c) => Some(c@),
        None => None,
    }
}

impl Run {
    /// The run of `command` in `context`. `own_pid` is the process id of
    /// the shell, which stands in the exit record of a command that starts
    /// no child.
    pub fn new(command: Command, context: ExecutionContext, own_pid: i32) -> (r: Run)
        ensures
            r@ == RunView::start(command@, context@, own_pid),
    {
        let r = Run {
            own_pid,
            stack: vec![Frame::Finish, Frame::Await],
            scopes: vec![context],
            state: State::Eval { command, opts: ProcOptions::new() },
        };
        assert(r@.stack =~= seq![FrameView::Finish, FrameView::Await]);
        assert(r@.scopes =~= seq![context@]);
        r
    }

    /// Takes the present context out of the run, so that the caller can
    /// evaluate an expression against its variables. The caller puts it back
    /// with `put_scope` before the next step.
    pub fn take_scope(&mut self) -> (c: Option<ExecutionContext>)
        ensures
            match c {
                Some(c) => old(self)@.scopes.len() > 0 && c@ == old(self)@.scopes.last()
                    && final(self)@ == (RunView {
                    scopes: old(self)@.scopes.drop_last(),
                    ..old(self)@
                }),
                None => old(self)@.scopes.len() == 0 && final(self)@ == old(self)@,
            },
    {
        let c = self.scopes.pop();
        proof {
            if c is Some {
                assert(self@.scopes =~= old(self)@.scopes.drop_last());
            } else {
                assert(self@.scopes =~= old(self)@.scopes);
            }
        }
        c
    }

    /// Makes `context` the present context of the run.
    pub fn put_scope(&mut self, context: ExecutionContext)
        ensures
            final(self)@ == (RunView { scopes: old(self)@.scopes.push(context@), ..old(self)@ }),
    {
        self.scopes.push(context);
        assert(self@.scopes =~= old(self)@.scopes.push(context@));
    }

    /// Whether the run is over.
    pub fn is_finished(&self) -> (b: bool)
        ensures
            b == (self@.state is Finished),
    {
        match &self.state {
            State::Finished => true,
            _ => false,
        }
    }

    fn push(&mut self, frame: Frame)
        ensures
            final(self)@ == old(self)@.pushed(frame@),
    {
        self.stack.push(frame);
        assert(self@.stack =~= old(self)@.stack.push(frame@));
    }

    fn pop(&mut self) -> (f: Option<Frame>)
        ensures
            match f {
                Some(f) => old(self)@.stack.len() > 0 && f@ == old(self)@.stack.last()
                    && final(self)@ == old(self)@.popped(),
                None => old(self)@.stack.len() == 0 && final(self)@ == old(self)@,
            },
    {
        let f = self.stack.pop();
        proof {
            if f is Some {
                assert(self@.stack =~= old(self)@.stack.drop_last());
            } else {
                assert(self@.stack =~= old(self)@.stack);
            }
        }
        f
    }

    fn go(&mut self, state: State, Ghost(jobs): Ghost<JobManagerView>) -> (action: Action)
        ensures
            (Stepped { run: final(self)@, jobs, action: action@ }) == old(self)@.go(jobs, state@),
    {
        self.state = state;
        Action::Continue
    }

    fn ask(&mut self, action: Action, Ghost(jobs): Ghost<JobManagerView>) -> (r: Action)
        ensures
            (Stepped { run: final(self)@, jobs, action: r@ }) == old(self)@.ask(jobs, action@),
            r@ == action@,
    {
        self.state = State::Waiting;
        action
    }

    fn fail(&mut self, kind: ErrorKind, cause: Option<Cause>, Ghost(jobs): Ghost<JobManagerView>) -> (action: Action)
        ensures
            (Stepped { run: final(self)@, jobs, action: action@ }) == old(self)@.fail(
                jobs,
                kind@,
                cause_view(cause),
            ),
    {
        self.state = State::Finished;
        Action::Finish(Err(Error { kind, cause }))
    }

    fn confused(&mut self, Ghost(jobs): Ghost<JobManagerView>) -> (action: Action)
        ensures
            (Stepped { run: final(self)@, jobs, action: action@ }) == old(self)@.confused(jobs),
    {
        self.fail(ErrorKind::SysError, None, Ghost(jobs))
    }

    fn redirect(
        &mut self,
        inner: Command,
        redirects: Vec<RedirectDestination>,
        index: usize,
        opts: ProcOptions,
        Ghost(jobs): Ghost<JobManagerView>,
    ) -> (action: Action)
        ensures
            (Stepped { run: final(self)@, jobs, action: action@ }) == old(self)@.redirect(
                jobs,
                inner@,
                redirects_view(redirects@),
                index as nat,
                opts@,
            ),
    {
        if index < redirects.len() {
            let expansion = Expansion::new(&redirects[index].file);
            self.push(
                Frame::Expanding {
                    expansion,
                    purpose: Purpose::RedirectTarget { inner, redirects, index, opts },
                },
            );
            self.go(State::Expand { value: None }, Ghost(jobs))
        } else {
            self.go(State::Eval { command: inner, opts }, Ghost(jobs))
        }
    }

    fn arguments(
        &mut self,
        executable: String,
        argv: Vec<String>,
        words: Vec<Word>,
        opts: ProcOptions,
        Ghost(jobs): Ghost<JobManagerView>,
    ) -> (action: Action)
        requires
            old(self)@.scopes.len() > 0,
        ensures
            (Stepped { run: final(self)@, jobs, action: action@ }) == old(self)@.arguments(
                jobs,
                executable@,
                texts(argv@),
                words_view(words@),
                opts@,
            ),
    {
        if argv.len() < words.len() {
            let expansion = Expansion::new(&words[argv.len()]);
            self.push(
                Frame::Expanding {
                    expansion,
                    purpose: Purpose::Argument { executable, argv, words, opts },
                },
            );
            self.go(State::Expand { value: None }, Ghost(jobs))
        } else {
            let plan = opts.plan(
                executable.as_str(),
                &argv,
                self.scopes[self.scopes.len() - 1].cwd.as_str(),
            );
            self.push(Frame::Spawning);
            self.ask(Action::Spawn(plan), Ghost(jobs))
        }
    }

    fn eval(&mut self, command: Command, opts: ProcOptions, Ghost(jobs): Ghost<JobManagerView>) -> (action:
        Action)
        requires
            old(self)@.scopes.len() > 0,
        ensures
            (Stepped { run: final(self)@, jobs, action: action@ }) == old(self)@.eval(
                jobs,
                command@,
                opts@,
            ),
    {
        match command {
            Command::SimpleCommand(c) => {
                if c.arguments.len() == 0 {
                    self.fail(ErrorKind::IllegalExecutableName, None, Ghost(jobs))
                } else {
                    let expansion = Expansion::new(&c.arguments[0]);
                    self.push(
                        Frame::Expanding {
                            expansion,
                            purpose: Purpose::CommandName { words: c.arguments, opts },
                        },
                    );
                    self.go(State::Expand { value: None }, Ghost(jobs))
                }
            },
            Command::Pipeline(p) => {
                let p = *p;
                self.push(Frame::Piping { from: p.from, to: p.to, opts });
                self.ask(Action::CreatePipe, Ghost(jobs))
            },
            Command::ConditionalPair(c) => {
                let c = *c;
                let left_opts = opts.clone();
                self.push(Frame::Cond { operator: c.operator, right: c.right, opts });
                self.push(Frame::Await);
                self.go(State::Eval { command: c.left, opts: left_opts }, Ghost(jobs))
            },
            Command::Group(g) => {
                let g = *g;
                assert(commands(g.commands@) =~= command@->Group_0);
                self.push(Frame::Group { commands: g.commands, next: 0, opts, scoped: false });
                let jids: Vec<Jid> = Vec::new();
                assert(jids@ =~= Seq::<Jid>::empty());
                self.go(State::Return { jids }, Ghost(jobs))
            },
            Command::BraceGroup(g) => {
                let g = *g;
                assert(commands(g.commands@) =~= command@->BraceGroup_0);
                let scope = self.scopes[self.scopes.len() - 1].clone();
                self.scopes.push(scope);
                assert(self@.scopes =~= old(self)@.scopes.push(old(self)@.scope()));
                self.push(Frame::Group { commands: g.commands, next: 0, opts, scoped: true });
                let jids: Vec<Jid> = Vec::new();
                assert(jids@ =~= Seq::<Jid>::empty());
                self.go(State::Return { jids }, Ghost(jobs))
            },
            Command::FileRedirect(f) => {
                let f = *f;
                self.redirect(f.left, f.redirects, 0, opts, Ghost(jobs))
            },
            Command::Function(f) => {
                let f = *f;
                let expansion = Expansion::new(&f.name);
                self.push(
                    Frame::Expanding { expansion, purpose: Purpose::FunctionName { body: f.body } },
                );
                self.go(State::Expand { value: None }, Ghost(jobs))
            },
            Command::Comment(_) => {
                let jids: Vec<Jid> = Vec::new();
                assert(jids@ =~= Seq::<Jid>::empty());
                self.go(State::Return { jids }, Ghost(jobs))
            },
            _ => self.fail(ErrorKind::ExecFailed, None, Ghost(jobs)),
        }
    }

    fn returned(&mut self, jobs: &JobManager, jids: Vec<Jid>) -> (action: Action)
        requires
            old(self)@.scopes.len() > 0,
        ensures
            (Stepped { run: final(self)@, jobs: jobs.view(), action: action@ }) == old(
                self,
            )@.returned(jobs.view(), jids@),
    {
        let ghost j = jobs.view();
        let frame = match self.pop() {
            Some(frame) => frame,
            None => {
                return self.confused(Ghost(j));
            },
        };
        match frame {
            Frame::Finish => {
                self.state = State::Finished;
                Action::Finish(
                    match jobs.outcome(&jids, self.own_pid) {
                        Some(status) => Ok(status),
                        None => Err(Error::new(ErrorKind::WaitFailed)),
                    },
                )
            },
            Frame::Await => self.go(State::Awaiting { jids }, Ghost(j)),
            Frame::PipeRight { to, opts, read_end, write_end } => {
                let right = opts.right_of_pipe(read_end, write_end);
                self.push(Frame::PipeClose { left: jids, read_end, write_end });
                self.go(State::Eval { command: to, opts: right }, Ghost(j))
            },
            Frame::PipeClose { left, read_end, write_end } => {
                let mut all = left;
                let mut i: usize = 0;
                let ghost first = all@;
                while i < jids.len()
                    invariant
                        i <= jids.len(),
                        all@ == first + jids@.take(i as int),
                    decreases jids.len() - i,
                {
                    all.push(jids[i]);
                    i += 1;
                    assert(first + jids@.take(i as int) =~= (first + jids@.take(i - 1)).push(
                        jids@[i - 1],
                    ));
                }
                assert(jids@.take(jids.len() as int) =~= jids@);
                self.push(Frame::Closing { jids: all, fd: read_end, then: Some(write_end) });
                self.ask(Action::Close(read_end), Ghost(j))
            },
            Frame::Group { commands: cs, next, opts, scoped } => {
                if next < cs.len() {
                    let command = cs[next].duplicate();
                    let inner = opts.clone();
                    self.push(Frame::Group { commands: cs, next: next + 1, opts, scoped });
                    self.push(Frame::Await);
                    self.go(State::Eval { command, opts: inner }, Ghost(j))
                } else {
                    if scoped && self.scopes.len() > 1 {
                        self.scopes.pop();
                        assert(self@.scopes =~= old(self)@.scopes.drop_last());
                    }
                    self.go(State::Return { jids }, Ghost(j))
                }
            },
            Frame::Cond { operator, right, opts } => {
                let code = match jobs.outcome(&jids, self.own_pid) {
                    Some(status) => status.exit_code,
                    None => 0,
                };
                if operator.runs_right(code) {
                    self.push(Frame::Await);
                    self.go(State::Eval { command: right, opts }, Ghost(j))
                } else {
                    self.go(State::Return { jids }, Ghost(j))
                }
            },
            _ => self.confused(Ghost(j)),
        }
    }

    fn awaited(&mut self, jobs: &mut JobManager, jids: Vec<Jid>, event: Event) -> (action: Action)
        ensures
            (Stepped { run: final(self)@, jobs: final(jobs).view(), action: action@ }) == old(
                self,
            )@.awaited(old(jobs).view(), jids@, event@),
    {
        match event {
            Event::Continue => {},
            Event::Waited(e) => {
                jobs.reap(e);
            },
            Event::WaitFailed { errno } => {
                return self.fail(
                    ErrorKind::WaitFailed,
                    Some(Cause::System(errno)),
                    Ghost(jobs.view()),
                );
            },
            _ => {
                return self.confused(Ghost(jobs.view()));
            },
        }
        if jobs.all_complete(&jids) {
            self.go(State::Return { jids }, Ghost(jobs.view()))
        } else {
            self.state = State::Awaiting { jids };
            Action::Wait
        }
    }

    fn finished_word(&mut self, text: String, purpose: Purpose, Ghost(jobs): Ghost<JobManagerView>) -> (action:
        Action)
        requires
            old(self)@.scopes.len() > 0,
        ensures
            (Stepped { run: final(self)@, jobs, action: action@ }) == old(self)@.finished_word(
                jobs,
                text@,
                purpose@,
            ),
    {
        match purpose {
            Purpose::CommandName { words, opts } => {
                let last = self.scopes.len() - 1;
                match self.scopes[last].funcs.value(text.as_str()) {
                    Some(body) => self.go(State::Eval { command: body, opts }, Ghost(jobs)),
                    None => {
                        if crate::lang::exec::names_local_path(text.as_str()) {
                            let argv = vec![text.clone()];
                            assert(texts(argv@) =~= seq![text@]);
                            self.arguments(text, argv, words, opts, Ghost(jobs))
                        } else {
                            let found = self.scopes[last].executable_candidates(text.as_str());
                            assert(texts(found@) =~= candidates(
                                value_in(old(self)@.scope().vars, path_name()),
                                text@,
                            ));
                            if found.len() == 0 {
                                self.fail(ErrorKind::MissingExecutable(text), None, Ghost(jobs))
                            } else {
                                let first = found[0].clone();
                                self.push(
                                    Frame::Probing {
                                        candidates: found,
                                        index: 0,
                                        name: text,
                                        words,
                                        opts,
                                    },
                                );
                                self.ask(Action::Probe(first), Ghost(jobs))
                            }
                        }
                    },
                }
            },
            Purpose::Argument { executable, argv, words, opts } => {
                let mut argv = argv;
                let ghost before = texts(argv@);
                argv.push(text);
                assert(texts(argv@) =~= before.push(text@));
                self.arguments(executable, argv, words, opts, Ghost(jobs))
            },
            Purpose::FunctionName { body } => {
                match self.scopes.pop() {
                    Some(scope) => {
                        let mut scope = scope;
                        scope.funcs.insert(text.as_str(), body);
                        self.scopes.push(scope);
                    },
                    None => {},
                }
                assert(self@.scopes =~= old(self)@.rescoped(
                    ExecutionContextView {
                        funcs: old(self)@.scope().funcs.insert(text@, body@),
                        ..old(self)@.scope()
                    },
                ).scopes);
                let jids: Vec<Jid> = Vec::new();
                assert(jids@ =~= Seq::<Jid>::empty());
                self.go(State::Return { jids }, Ghost(jobs))
            },
            Purpose::RedirectTarget { inner, redirects, index, opts } => {
                if index < redirects.len() {
                    match redirect_operation(
                        redirects[index].operation,
                        redirects[index].fd,
                        text.as_str(),
                    ) {
                        Some((fd, op)) => {
                            let more = opts.with_redirect(fd, op);
                            self.redirect(inner, redirects, index + 1, more, Ghost(jobs))
                        },
                        None => self.fail(ErrorKind::ExecFailed, None, Ghost(jobs)),
                    }
                } else {
                    self.confused(Ghost(jobs))
                }
            },
        }
    }

    fn expanded(&mut self, value: Option<String>, Ghost(jobs): Ghost<JobManagerView>) -> (action: Action)
        requires
            old(self)@.scopes.len() > 0,
        ensures
            (Stepped { run: final(self)@, jobs, action: action@ }) == old(self)@.expanded(
                jobs,
                match value {
                    Some(v) => Some(v@),
                    None => None,
                },
            ),
    {
        let frame = match self.pop() {
            Some(frame) => frame,
            None => {
                return self.confused(Ghost(jobs));
            },
        };
        match frame {
            Frame::Expanding { expansion, purpose } => {
                let mut expansion = expansion;
                let last = self.scopes.len() - 1;
                let progress = match &value {
                    Some(v) => expansion.resume(&self.scopes[last].vars, Some(v.as_str())),
                    None => expansion.resume(&self.scopes[last].vars, None),
                };
                match progress {
                    Progress::Evaluate(e) => {
                        self.push(Frame::Expanding { expansion, purpose });
                        self.ask(Action::Evaluate(e), Ghost(jobs))
                    },
                    Progress::Failed(e) => self.fail(
                        ErrorKind::ExpressionError,
                        Some(Cause::Expression(e)),
                        Ghost(jobs),
                    ),
                    Progress::Done(text) => self.finished_word(text, purpose, Ghost(jobs)),
                }
            },
            _ => self.confused(Ghost(jobs)),
        }
    }

    fn answered(&mut self, jobs: &mut JobManager, event: Event) -> (action: Action)
        requires
            old(self)@.scopes.len() > 0,
        ensures
            (Stepped { run: final(self)@, jobs: final(jobs).view(), action: action@ }) == old(
                self,
            )@.answered(old(jobs).view(), event@),
    {
        let ghost j = jobs.view();
        let frame = match self.pop() {
            Some(frame) => frame,
            None => {
                return self.confused(Ghost(j));
            },
        };
        match frame {
            Frame::Expanding { expansion, purpose } => match event {
                Event::Evaluated(v) => {
                    self.push(Frame::Expanding { expansion, purpose });
                    assert(self@.stack =~= old(self)@.stack);
                    self.go(State::Expand { value: Some(v) }, Ghost(j))
                },
                _ => self.confused(Ghost(j)),
            },
            Frame::Piping { from, to, opts } => match event {
                Event::Piped { read_end, write_end } => {
                    let left = opts.left_of_pipe(read_end, write_end);
                    self.push(Frame::PipeRight { to, opts, read_end, write_end });
                    self.go(State::Eval { command: from, opts: left }, Ghost(j))
                },
                Event::PipeFailed { errno } => self.fail(
                    ErrorKind::PipelineCreationFailed,
                    Some(Cause::System(errno)),
                    Ghost(j),
                ),
                _ => self.confused(Ghost(j)),
            },
            Frame::Closing { jids, fd, then } => match event {
                Event::Closed => match then {
                    Some(next) => {
                        self.push(Frame::Closing { jids, fd: next, then: None });
                        self.ask(Action::Close(next), Ghost(j))
                    },
                    None => self.go(State::Return { jids }, Ghost(j)),
                },
                Event::CloseFailed { errno } => self.fail(
                    ErrorKind::FailedToClosePipeFile(fd),
                    Some(Cause::System(errno)),
                    Ghost(j),
                ),
                _ => self.confused(Ghost(j)),
            },
            Frame::Probing { candidates: found, index, name, words, opts } => match event {
                Event::Found(present) => {
                    if index >= found.len() {
                        self.confused(Ghost(j))
                    } else if present {
                        let executable = found[index].clone();
                        let argv = vec![name];
                        assert(texts(argv@) =~= seq![name@]);
                        self.arguments(executable, argv, words, opts, Ghost(j))
                    } else if index + 1 < found.len() {
                        let path = found[index + 1].clone();
                        self.push(
                            Frame::Probing {
                                candidates: found,
                                index: index + 1,
                                name,
                                words,
                                opts,
                            },
                        );
                        self.ask(Action::Probe(path), Ghost(j))
                    } else {
                        self.fail(ErrorKind::MissingExecutable(name), None, Ghost(j))
                    }
                },
                _ => self.confused(Ghost(j)),
            },
            Frame::Spawning => match event {
                Event::Spawned { pid } => {
                    if jobs.next_jid() < u32::MAX {
                        let jid = jobs.add_job(pid);
                        let jids = vec![jid];
                        assert(jids@ =~= seq![Jid(j.next as u32)]);
                        self.go(State::Return { jids }, Ghost(jobs.view()))
                    } else {
                        self.fail(ErrorKind::ForkFailed, None, Ghost(j))
                    }
                },
                Event::SpawnFailed(e) => self.fail(
                    ErrorKind::ExecFailed,
                    Some(Cause::Spawn(e)),
                    Ghost(j),
                ),
                _ => self.confused(Ghost(j)),
            },
            _ => self.confused(Ghost(j)),
        }
    }

    /// Takes one step: `event` reports how the action of the step before
    /// went, and the action to take next is handed out.
    pub fn step(&mut self, jobs: &mut JobManager, event: Event) -> (action: Action)
        ensures
            final(self)@ == old(self)@.next(old(jobs).view(), event@).run,
            final(jobs).view() == old(self)@.next(old(jobs).view(), event@).jobs,
            action@ == old(self)@.next(old(jobs).view(), event@).action,
    {
        let ghost j = jobs.view();
        if self.scopes.len() == 0 {
            return self.confused(Ghost(j));
        }
        let mut state = State::Finished;
        std::mem::swap(&mut self.state, &mut state);
        let ghost taken = self@;
        assert(taken == old(self)@.with_state(StateView::Finished));
        match state {
            State::Finished => self.confused(Ghost(j)),
            State::Eval { command, opts } => match event {
                Event::Continue => {
                    assert(taken.eval(j, command@, opts@) == old(self)@.eval(j, command@, opts@));
                    self.eval(command, opts, Ghost(j))
                },
                _ => self.confused(Ghost(j)),
            },
            State::Return { jids } => match event {
                Event::Continue => {
                    assert(taken.returned(j, jids@) == old(self)@.returned(j, jids@));
                    self.returned(jobs, jids)
                },
                _ => self.confused(Ghost(j)),
            },
            State::Awaiting { jids } => {
                assert(taken.awaited(j, jids@, event@) == old(self)@.awaited(j, jids@, event@));
                self.awaited(jobs, jids, event)
            },
            State::Expand { value } => match event {
                Event::Continue => {
                    let ghost v = State::Expand { value }@->Expand_value;
                    assert(taken.expanded(j, v) == old(self)@.expanded(j, v));
                    self.expanded(value, Ghost(j))
                },
                _ => self.confused(Ghost(j)),
            },
            State::Waiting => {
                assert(taken.answered(j, event@) == old(self)@.answered(j, event@));
                self.answered(jobs, event)
            },
        }
    }
}


impl JobManager {
    /// Runs the command of `run` one step further with these jobs: `event`
    /// reports how the action of the step before went, and the action to
    /// take next is handed out. The caller goes on until the action is
    /// `Finish`, which holds the exit record of the command or the failure
    /// that ended the run. A child that was started becomes a job of this
    /// manager, and what `wait` reported is taken note of here.
    pub fn run(&mut self, run: &mut Run, event: Event) -> (action: Action)
        ensures
            final(run)@ == old(run)@.next(old(self).view(), event@).run,
            final(self).view() == old(run)@.next(old(self).view(), event@).jobs,
            action@ == old(run)@.next(old(self).view(), event@).action,
            action@ is Finish <==> final(run)@.state is Finished,
    {
        run.step(self, event)
    }
}

} // verus!

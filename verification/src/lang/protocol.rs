//! Why a run whose caller answers what it was asked never ends confused.

use crate::lang::ast::{CommandView, RedirectView};
use crate::lang::exec::{ExecutionContextView, Jid, JobManagerView, ProcOptionsView};
use crate::lang::run::{
    ActionView, EventView, FrameView, PurposeView, RunView, StateView, Stepped,
};
use crate::lang::word::{PartView, ProgressView};
use vstd::prelude::*;

verus! {

/// The frames that take the jobs of a command.
pub open spec fn takes_jobs(f: FrameView) -> bool {
    f is Finish || f is Await || f is PipeRight || f is PipeClose || f is Group || f is Cond
}

/// Whether the redirection that a text is for is one of its redirections.
pub open spec fn purpose_fits(purpose: PurposeView) -> bool {
    match purpose {
        PurposeView::RedirectTarget { inner, redirects, index, opts } => index < redirects.len(),
        _ => true,
    }
}

/// Whether the frame on top is as the state needs it. An expansion goes on
/// in an expanding frame; an answer is taken by the frame that asked; jobs
/// are handed to a frame that takes jobs; and a command starts above such a
/// frame.
pub open spec fn top_fits(f: FrameView, state: StateView) -> bool {
    match state {
        StateView::Eval { command, opts } => takes_jobs(f),
        StateView::Return { jids } => takes_jobs(f),
        StateView::Awaiting { jids } => takes_jobs(f),
        StateView::Expand { value } => f matches FrameView::Expanding { expansion, purpose }
            && purpose_fits(purpose),
        StateView::Waiting => match f {
            FrameView::Expanding { expansion, purpose } => purpose_fits(purpose),
            FrameView::Piping { from, to, opts } => true,
            FrameView::Closing { jids, fd, then } => true,
            FrameView::Probing { candidates, index, name, words, opts } => index
                < candidates.len(),
            FrameView::Spawning => true,
            _ => false,
        },
        StateView::Finished => true,
    }
}

/// Whether the frame that ends the run lies at the bottom and nowhere
/// else, and every frame under the top takes jobs.
#[verifier::opaque]
pub open spec fn layered(stack: Seq<FrameView>) -> bool {
    &&& stack.len() > 0
    &&& stack[0] is Finish
    &&& forall|i: int| 0 < i < stack.len() ==> !(#[trigger] stack[i] is Finish)
    &&& forall|i: int| 0 <= i < stack.len() - 1 ==> takes_jobs(#[trigger] stack[i])
}

/// What holds of a run that is driven as it asks: it has a context, its
/// frames lie as they have to, and the frame on top is as the state needs
/// it.
pub open spec fn coherent(run: RunView) -> bool {
    run.state is Finished || {
        &&& run.scopes.len() > 0
        &&& layered(run.stack)
        &&& top_fits(run.stack.last(), run.state)
    }
}

/// Whether `event` answers what the run asked for with its last action:
/// nothing after `Continue`, the ends of the pipe or the failure to make
/// one after `CreatePipe`, and so on. A run that waits takes what `wait`
/// reported.
pub open spec fn answers(run: RunView, event: EventView) -> bool {
    match run.state {
        StateView::Eval { command, opts } => event is Continue,
        StateView::Return { jids } => event is Continue,
        StateView::Expand { value } => event is Continue,
        StateView::Awaiting { jids } => event is Continue || event is Waited || event
            is WaitFailed,
        StateView::Waiting => match run.stack.last() {
            FrameView::Expanding { expansion, purpose } => event is Evaluated,
            FrameView::Piping { from, to, opts } => event is Piped || event is PipeFailed,
            FrameView::Closing { jids, fd, then } => event is Closed || event is CloseFailed,
            FrameView::Probing { candidates, index, name, words, opts } => event is Found,
            FrameView::Spawning => event is Spawned || event is SpawnFailed,
            _ => false,
        },
        StateView::Finished => false,
    }
}

/// Whether the action ends the run because the run or the event was not
/// as it had to be.
pub open spec fn ends_confused(action: ActionView) -> bool {
    action matches ActionView::Finish(Err(e)) && e.kind is SysError
}

/// What a step has to leave behind: a run that is coherent, and no
/// confusion.
pub open spec fn well_stepped(after: Stepped) -> bool {
    coherent(after.run) && !ends_confused(after.action)
}

/// A run whose frames lie as they have to, with a frame on top that takes
/// jobs.
pub open spec fn based(run: RunView) -> bool {
    run.scopes.len() > 0 && layered(run.stack) && takes_jobs(run.stack.last())
}

proof fn lemma_layered_push(stack: Seq<FrameView>, f: FrameView)
    requires
        layered(stack),
        takes_jobs(stack.last()),
        !(f is Finish),
    ensures
        layered(stack.push(f)),
        stack.push(f).last() == f,
{
    reveal(layered);
    let pushed = stack.push(f);
    assert forall|i: int| 0 <= i < pushed.len() - 1 implies takes_jobs(#[trigger] pushed[i]) by {
        if i < stack.len() - 1 {
            assert(takes_jobs(stack[i]));
        }
    }
    assert forall|i: int| 0 < i < pushed.len() implies !(#[trigger] pushed[i] is Finish) by {
        if i < stack.len() {
            assert(!(stack[i] is Finish));
        }
    }
}

proof fn lemma_layered_pop(stack: Seq<FrameView>)
    requires
        layered(stack),
        !(stack.last() is Finish),
    ensures
        stack.len() > 1,
        layered(stack.drop_last()),
        takes_jobs(stack.drop_last().last()),
{
    reveal(layered);
    let rest = stack.drop_last();
    assert(stack.len() > 1);
    assert forall|i: int| 0 <= i < rest.len() - 1 implies takes_jobs(#[trigger] rest[i]) by {
        assert(takes_jobs(stack[i]));
    }
    assert forall|i: int| 0 < i < rest.len() implies !(#[trigger] rest[i] is Finish) by {
        assert(!(stack[i] is Finish));
    }
    assert(takes_jobs(stack[stack.len() - 2]));
}

proof fn lemma_redirect_steps(
    base: RunView,
    jobs: JobManagerView,
    inner: CommandView,
    redirects: Seq<RedirectView>,
    index: nat,
    opts: ProcOptionsView,
)
    requires
        based(base),
    ensures
        well_stepped(base.redirect(jobs, inner, redirects, index, opts)),
{
    if index < redirects.len() {
        let f = FrameView::Expanding {
            expansion: crate::lang::word::ExpansionView::start(redirects[index as int].file),
            purpose: PurposeView::RedirectTarget { inner, redirects, index, opts },
        };
        lemma_layered_push(base.stack, f);
    }
}

proof fn lemma_arguments_steps(
    base: RunView,
    jobs: JobManagerView,
    executable: Seq<char>,
    argv: Seq<Seq<char>>,
    words: Seq<Seq<PartView>>,
    opts: ProcOptionsView,
)
    requires
        based(base),
    ensures
        well_stepped(base.arguments(jobs, executable, argv, words, opts)),
{
    if argv.len() < words.len() {
        let f = FrameView::Expanding {
            expansion: crate::lang::word::ExpansionView::start(words[argv.len() as int]),
            purpose: PurposeView::Argument { executable, argv, words, opts },
        };
        lemma_layered_push(base.stack, f);
    } else {
        lemma_layered_push(base.stack, FrameView::Spawning);
    }
}

proof fn lemma_eval_steps(
    run: RunView,
    jobs: JobManagerView,
    command: CommandView,
    opts: ProcOptionsView,
)
    requires
        based(run),
    ensures
        well_stepped(run.eval(jobs, command, opts)),
{
    match command {
        CommandView::Simple(ws) => {
            if ws.len() > 0 {
                let f = FrameView::Expanding {
                    expansion: crate::lang::word::ExpansionView::start(ws[0]),
                    purpose: PurposeView::CommandName { words: ws, opts },
                };
                lemma_layered_push(run.stack, f);
            }
        },
        CommandView::Pipeline { bang, from, to } => {
            lemma_layered_push(run.stack, FrameView::Piping { from: *from, to: *to, opts });
        },
        CommandView::ConditionalPair { left, operator, right } => {
            let f = FrameView::Cond { operator, right: *right, opts };
            lemma_layered_push(run.stack, f);
            lemma_layered_push(run.stack.push(f), FrameView::Await);
        },
        CommandView::Group(cs) => {
            lemma_layered_push(
                run.stack,
                FrameView::Group { commands: cs, next: 0, opts, scoped: false },
            );
        },
        CommandView::BraceGroup(cs) => {
            lemma_layered_push(
                run.stack,
                FrameView::Group { commands: cs, next: 0, opts, scoped: true },
            );
        },
        CommandView::FileRedirect { left, redirects } => {
            lemma_redirect_steps(run, jobs, *left, redirects, 0, opts);
        },
        CommandView::Function { name, body } => {
            let f = FrameView::Expanding {
                expansion: crate::lang::word::ExpansionView::start(name),
                purpose: PurposeView::FunctionName { body: *body },
            };
            lemma_layered_push(run.stack, f);
        },
        _ => {},
    }
}

proof fn lemma_returned_steps(run: RunView, jobs: JobManagerView, jids: Seq<Jid>)
    requires
        based(run),
    ensures
        well_stepped(run.returned(jobs, jids)),
{
    assert(run.stack.len() > 0) by {
        reveal(layered);
    }
    let top = run.stack.last();
    let rest = run.popped();
    if top is Finish {
        return ;
    }
    lemma_layered_pop(run.stack);
    match top {
        FrameView::PipeRight { to, opts, read_end, write_end } => {
            lemma_layered_push(
                rest.stack,
                FrameView::PipeClose { left: jids, read_end, write_end },
            );
        },
        FrameView::PipeClose { left, read_end, write_end } => {
            lemma_layered_push(
                rest.stack,
                FrameView::Closing { jids: left + jids, fd: read_end, then: Some(write_end) },
            );
        },
        FrameView::Group { commands, next, opts, scoped } => {
            if next < commands.len() {
                let f = FrameView::Group { commands, next: next + 1, opts, scoped };
                lemma_layered_push(rest.stack, f);
                lemma_layered_push(rest.stack.push(f), FrameView::Await);
            }
        },
        FrameView::Cond { operator, right, opts } => {
            lemma_layered_push(rest.stack, FrameView::Await);
        },
        _ => {},
    }
}

proof fn lemma_finished_word_steps(
    base: RunView,
    jobs: JobManagerView,
    text: Seq<char>,
    purpose: PurposeView,
)
    requires
        based(base),
        purpose_fits(purpose),
    ensures
        well_stepped(base.finished_word(jobs, text, purpose)),
{
    match purpose {
        PurposeView::CommandName { words, opts } => {
            if base.scope().funcs.contains_key(text) {
            } else if crate::lang::exec::is_local(text) {
                lemma_arguments_steps(base, jobs, text, seq![text], words, opts);
            } else {
                let found = crate::lang::exec::candidates(
                    crate::env::variables::value_in(
                        base.scope().vars,
                        crate::lang::exec::path_name(),
                    ),
                    text,
                );
                if found.len() > 0 {
                    lemma_layered_push(
                        base.stack,
                        FrameView::Probing { candidates: found, index: 0, name: text, words, opts },
                    );
                }
            }
        },
        PurposeView::Argument { executable, argv, words, opts } => {
            lemma_arguments_steps(base, jobs, executable, argv.push(text), words, opts);
        },
        PurposeView::FunctionName { body } => {},
        PurposeView::RedirectTarget { inner, redirects, index, opts } => {
            match crate::lang::exec::redirect_op(
                redirects[index as int].operation,
                redirects[index as int].fd,
                text,
            ) {
                Some(op) => {
                    lemma_redirect_steps(
                        base,
                        jobs,
                        inner,
                        redirects,
                        index + 1,
                        ProcOptionsView { redirects: opts.redirects.push(op), ..opts },
                    );
                },
                None => {},
            }
        },
    }
}

proof fn lemma_expanded_steps(run: RunView, jobs: JobManagerView, value: Option<Seq<char>>)
    requires
        coherent(run),
        run.state is Expand,
    ensures
        well_stepped(run.expanded(jobs, value)),
{
    let rest = run.popped();
    lemma_layered_pop(run.stack);
    match run.stack.last() {
        FrameView::Expanding { expansion, purpose } => {
            let ran = expansion.resumed(value, run.scope().vars);
            match ran.progress {
                ProgressView::Evaluate(e) => {
                    lemma_layered_push(
                        rest.stack,
                        FrameView::Expanding { expansion: ran.state, purpose },
                    );
                },
                ProgressView::Failed(e) => {},
                ProgressView::Done(text) => {
                    lemma_finished_word_steps(rest, jobs, text, purpose);
                },
            }
        },
        _ => {},
    }
}

proof fn lemma_answered_steps(run: RunView, jobs: JobManagerView, event: EventView)
    requires
        coherent(run),
        run.state is Waiting,
        answers(run, event),
    ensures
        well_stepped(run.answered(jobs, event)),
{
    let rest = run.popped();
    lemma_layered_pop(run.stack);
    match run.stack.last() {
        FrameView::Piping { from, to, opts } => match event {
            EventView::Piped { read_end, write_end } => {
                lemma_layered_push(
                    rest.stack,
                    FrameView::PipeRight { to, opts, read_end, write_end },
                );
            },
            _ => {},
        },
        FrameView::Closing { jids, fd, then } => match then {
            Some(next) => {
                lemma_layered_push(rest.stack, FrameView::Closing { jids, fd: next, then: None });
            },
            None => {},
        },
        FrameView::Probing { candidates, index, name, words, opts } => match event {
            EventView::Found(found) => {
                if found {
                    lemma_arguments_steps(
                        rest,
                        jobs,
                        candidates[index as int],
                        seq![name],
                        words,
                        opts,
                    );
                } else if index + 1 < candidates.len() {
                    lemma_layered_push(
                        rest.stack,
                        FrameView::Probing { candidates, index: index + 1, name, words, opts },
                    );
                }
            },
            _ => {},
        },
        _ => {},
    }
}

/// A run is coherent when it starts.
pub proof fn lemma_start_is_coherent(
    command: CommandView,
    context: ExecutionContextView,
    own_pid: i32,
)
    ensures
        coherent(RunView::start(command, context, own_pid)),
{
    reveal(layered);
}

/// A run that is coherent stays coherent, and does not end confused, as
/// long as every event answers what the run asked for: the failure that
/// stands for confusion is seen only by a caller that does not keep to the
/// order of question and answer.
pub proof fn lemma_answered_run_is_never_confused(
    run: RunView,
    jobs: JobManagerView,
    event: EventView,
)
    requires
        coherent(run),
        answers(run, event),
    ensures
        coherent(run.next(jobs, event).run),
        !ends_confused(run.next(jobs, event).action),
{
    match run.state {
        StateView::Eval { command, opts } => {
            lemma_eval_steps(run, jobs, command, opts);
        },
        StateView::Return { jids } => {
            lemma_returned_steps(run, jobs, jids);
        },
        StateView::Awaiting { jids } => {},
        StateView::Expand { value } => {
            lemma_expanded_steps(run, jobs, value);
        },
        StateView::Waiting => {
            lemma_answered_steps(run, jobs, event);
        },
        StateView::Finished => {},
    }
}

} // verus!

//! The pipes of a run. The shell owns both ends of a pipe from the moment
//! the pipe is made until both sides of the pipeline have been started;
//! then it closes both. An end that stayed open in the shell would keep the
//! reader of the pipe waiting for ever.

use crate::env::variables::value_in;
use crate::lang::ast::{CommandView, RedirectView};
use crate::lang::exec::{
    candidates, path_name, redirect_op, ExecutionContextView, Jid, JobManagerView,
    ProcOptionsView,
};
use crate::lang::run::{ActionView, EventView, FrameView, PurposeView, RunView, StateView};
use crate::lang::word::{ExpansionView, PartView, ProgressView};
use vstd::prelude::*;

verus! {

/// The pipe ends that a frame has still to close.
pub open spec fn frame_ends(f: FrameView) -> Set<i32> {
    match f {
        FrameView::PipeRight { to, opts, read_end, write_end } => set![read_end, write_end],
        FrameView::PipeClose { left, read_end, write_end } => set![read_end, write_end],
        FrameView::Closing { jids, fd, then } => match then {
            Some(next) => set![fd, next],
            None => set![fd],
        },
        _ => Set::empty(),
    }
}

/// Whether one of the frames has still to close the descriptor `fd`.
#[verifier::opaque]
pub open spec fn owed(stack: Seq<FrameView>, fd: i32) -> bool {
    exists|i: int| 0 <= i < stack.len() && #[trigger] frame_ends(stack[i]).contains(fd)
}

/// Whether the frame that ends the run lies at the bottom and nowhere
/// else.
pub open spec fn rooted(stack: Seq<FrameView>) -> bool {
    &&& stack.len() > 0
    &&& stack[0] is Finish
    &&& forall|i: int| 0 < i < stack.len() ==> !(#[trigger] stack[i] is Finish)
}

/// What holds of a run while the pipe ends `open` are open in the shell:
/// each of them is owed by a frame, which will close it.
pub open spec fn tidy(run: RunView, open: Set<i32>) -> bool {
    run.state is Finished || {
        &&& rooted(run.stack)
        &&& forall|fd: i32| #[trigger] open.contains(fd) ==> owed(run.stack, fd)
    }
}

/// The pipe ends that are open in the shell after one more step: those of
/// a pipe that was made come to them, and an end that was closed leaves
/// them.
pub open spec fn open_after(run: RunView, open: Set<i32>, event: EventView) -> Set<i32> {
    if run.scopes.len() > 0 && run.state is Waiting && run.stack.len() > 0 {
        match (run.stack.last(), event) {
            (
                FrameView::Piping { from, to, opts },
                EventView::Piped { read_end, write_end },
            ) => open.insert(read_end).insert(write_end),
            (FrameView::Closing { jids, fd, then }, EventView::Closed) => open.remove(fd),
            _ => open,
        }
    } else {
        open
    }
}

proof fn lemma_owed_push(stack: Seq<FrameView>, f: FrameView)
    ensures
        forall|fd: i32| #[trigger]
            owed(stack.push(f), fd) <==> owed(stack, fd) || frame_ends(f).contains(fd),
        rooted(stack) && !(f is Finish) ==> rooted(stack.push(f)),
{
    reveal(owed);
    let pushed = stack.push(f);
    assert forall|fd: i32| #[trigger]
        owed(pushed, fd) <==> owed(stack, fd) || frame_ends(f).contains(fd) by {
        if owed(stack, fd) {
            let i = choose|i: int|
                0 <= i < stack.len() && #[trigger] frame_ends(stack[i]).contains(fd);
            assert(frame_ends(pushed[i]).contains(fd));
        }
        if frame_ends(f).contains(fd) {
            assert(frame_ends(pushed[stack.len() as int]).contains(fd));
        }
        if owed(pushed, fd) {
            let i = choose|i: int|
                0 <= i < pushed.len() && #[trigger] frame_ends(pushed[i]).contains(fd);
            if i < stack.len() {
                assert(frame_ends(stack[i]).contains(fd));
            }
        }
    }
    if rooted(stack) && !(f is Finish) {
        assert forall|i: int| 0 < i < pushed.len() implies !(#[trigger] pushed[i] is Finish) by {
            if i < stack.len() {
                assert(!(stack[i] is Finish));
            }
        }
    }
}

proof fn lemma_owed_pop(stack: Seq<FrameView>)
    requires
        stack.len() > 0,
    ensures
        forall|fd: i32| #[trigger]
            owed(stack, fd) <==> owed(stack.drop_last(), fd) || frame_ends(stack.last()).contains(
                fd,
            ),
        rooted(stack) && !(stack.last() is Finish) ==> rooted(stack.drop_last()),
        rooted(stack) && stack.last() is Finish ==> stack.len() == 1,
{
    assert(stack.drop_last().push(stack.last()) =~= stack);
    lemma_owed_push(stack.drop_last(), stack.last());
    if rooted(stack) {
        let rest = stack.drop_last();
        if stack.len() > 1 {
            assert(!(stack[stack.len() - 1] is Finish));
            assert forall|i: int| 0 < i < rest.len() implies !(#[trigger] rest[i] is Finish) by {
                assert(!(stack[i] is Finish));
            }
        }
    }
}

proof fn lemma_arguments_are_tidy(
    run: RunView,
    open: Set<i32>,
    jobs: JobManagerView,
    executable: Seq<char>,
    argv: Seq<Seq<char>>,
    words: Seq<Seq<PartView>>,
    opts: ProcOptionsView,
)
    requires
        tidy(run, open),
        !(run.state is Finished),
    ensures
        tidy(run.arguments(jobs, executable, argv, words, opts).run, open),
{
    if argv.len() < words.len() {
        lemma_owed_push(
            run.stack,
            FrameView::Expanding {
                expansion: ExpansionView::start(words[argv.len() as int]),
                purpose: PurposeView::Argument { executable, argv, words, opts },
            },
        );
    } else {
        lemma_owed_push(run.stack, FrameView::Spawning);
    }
}

proof fn lemma_redirect_is_tidy(
    run: RunView,
    open: Set<i32>,
    jobs: JobManagerView,
    inner: CommandView,
    redirects: Seq<RedirectView>,
    index: nat,
    opts: ProcOptionsView,
)
    requires
        tidy(run, open),
        !(run.state is Finished),
    ensures
        tidy(run.redirect(jobs, inner, redirects, index, opts).run, open),
{
    if index < redirects.len() {
        lemma_owed_push(
            run.stack,
            FrameView::Expanding {
                expansion: ExpansionView::start(redirects[index as int].file),
                purpose: PurposeView::RedirectTarget { inner, redirects, index, opts },
            },
        );
    }
}

proof fn lemma_eval_is_tidy(
    run: RunView,
    open: Set<i32>,
    jobs: JobManagerView,
    command: CommandView,
    opts: ProcOptionsView,
)
    requires
        tidy(run, open),
        !(run.state is Finished),
    ensures
        tidy(run.eval(jobs, command, opts).run, open),
{
    match command {
        CommandView::Simple(ws) => {
            if ws.len() > 0 {
                lemma_owed_push(
                    run.stack,
                    FrameView::Expanding {
                        expansion: ExpansionView::start(ws[0]),
                        purpose: PurposeView::CommandName { words: ws, opts },
                    },
                );
            }
        },
        CommandView::Pipeline { bang, from, to } => {
            lemma_owed_push(run.stack, FrameView::Piping { from: *from, to: *to, opts });
        },
        CommandView::ConditionalPair { left, operator, right } => {
            let cond = FrameView::Cond { operator, right: *right, opts };
            lemma_owed_push(run.stack, cond);
            lemma_owed_push(run.stack.push(cond), FrameView::Await);
        },
        CommandView::Group(cs) => {
            lemma_owed_push(
                run.stack,
                FrameView::Group { commands: cs, next: 0, opts, scoped: false },
            );
        },
        CommandView::BraceGroup(cs) => {
            lemma_owed_push(
                run.stack,
                FrameView::Group { commands: cs, next: 0, opts, scoped: true },
            );
        },
        CommandView::FileRedirect { left, redirects } => {
            lemma_redirect_is_tidy(run, open, jobs, *left, redirects, 0, opts);
        },
        CommandView::Function { name, body } => {
            lemma_owed_push(
                run.stack,
                FrameView::Expanding {
                    expansion: ExpansionView::start(name),
                    purpose: PurposeView::FunctionName { body: *body },
                },
            );
        },
        _ => {},
    }
}

proof fn lemma_returned_is_tidy(run: RunView, open: Set<i32>, jobs: JobManagerView, jids: Seq<Jid>)
    requires
        tidy(run, open),
        !(run.state is Finished),
    ensures
        tidy(run.returned(jobs, jids).run, open),
{
    lemma_owed_pop(run.stack);
    let rest = run.popped();
    match run.stack.last() {
        FrameView::PipeRight { to, opts, read_end, write_end } => {
            lemma_owed_push(rest.stack, FrameView::PipeClose { left: jids, read_end, write_end });
        },
        FrameView::PipeClose { left, read_end, write_end } => {
            lemma_owed_push(
                rest.stack,
                FrameView::Closing { jids: left + jids, fd: read_end, then: Some(write_end) },
            );
        },
        FrameView::Group { commands, next, opts, scoped } => {
            if next < commands.len() {
                let group = FrameView::Group { commands, next: next + 1, opts, scoped };
                lemma_owed_push(rest.stack, group);
                lemma_owed_push(rest.stack.push(group), FrameView::Await);
            }
        },
        FrameView::Cond { operator, right, opts } => {
            lemma_owed_push(rest.stack, FrameView::Await);
        },
        _ => {},
    }
}

proof fn lemma_expanded_is_tidy(
    run: RunView,
    open: Set<i32>,
    jobs: JobManagerView,
    value: Option<Seq<char>>,
)
    requires
        tidy(run, open),
        !(run.state is Finished),
    ensures
        tidy(run.expanded(jobs, value).run, open),
{
    lemma_owed_pop(run.stack);
    let rest = run.popped();
    match run.stack.last() {
        FrameView::Expanding { expansion, purpose } => {
            let ran = expansion.resumed(value, run.scope().vars);
            match ran.progress {
                ProgressView::Evaluate(e) => {
                    lemma_owed_push(
                        rest.stack,
                        FrameView::Expanding { expansion: ran.state, purpose },
                    );
                },
                ProgressView::Failed(e) => {},
                ProgressView::Done(text) => {
                    assert(tidy(rest, open));
                    match purpose {
                        PurposeView::CommandName { words, opts } => {
                            lemma_arguments_are_tidy(
                                rest,
                                open,
                                jobs,
                                text,
                                seq![text],
                                words,
                                opts,
                            );
                            let found = candidates(
                                value_in(rest.scope().vars, path_name()),
                                text,
                            );
                            lemma_owed_push(
                                rest.stack,
                                FrameView::Probing {
                                    candidates: found,
                                    index: 0,
                                    name: text,
                                    words,
                                    opts,
                                },
                            );
                        },
                        PurposeView::Argument { executable, argv, words, opts } => {
                            lemma_arguments_are_tidy(
                                rest,
                                open,
                                jobs,
                                executable,
                                argv.push(text),
                                words,
                                opts,
                            );
                        },
                        PurposeView::FunctionName { body } => {},
                        PurposeView::RedirectTarget { inner, redirects, index, opts } => {
                            if index < redirects.len() {
                                match redirect_op(
                                    redirects[index as int].operation,
                                    redirects[index as int].fd,
                                    text,
                                ) {
                                    Some(op) => {
                                        lemma_redirect_is_tidy(
                                            rest,
                                            open,
                                            jobs,
                                            inner,
                                            redirects,
                                            index + 1,
                                            ProcOptionsView {
                                                redirects: opts.redirects.push(op),
                                                ..opts
                                            },
                                        );
                                    },
                                    None => {},
                                }
                            }
                        },
                    }
                },
            }
        },
        _ => {},
    }
}

proof fn lemma_answered_is_tidy(
    run: RunView,
    open: Set<i32>,
    jobs: JobManagerView,
    event: EventView,
)
    requires
        tidy(run, open),
        run.scopes.len() > 0,
        run.state is Waiting,
    ensures
        tidy(run.answered(jobs, event).run, open_after(run, open, event)),
{
    lemma_owed_pop(run.stack);
    let rest = run.popped();
    match run.stack.last() {
        FrameView::Piping { from, to, opts } => match event {
            EventView::Piped { read_end, write_end } => {
                lemma_owed_push(rest.stack, FrameView::PipeRight { to, opts, read_end, write_end });
            },
            _ => {},
        },
        FrameView::Closing { jids, fd, then } => match (event, then) {
            (EventView::Closed, Some(next)) => {
                lemma_owed_push(rest.stack, FrameView::Closing { jids, fd: next, then: None });
            },
            _ => {},
        },
        FrameView::Probing { candidates, index, name, words, opts } => match event {
            EventView::Found(found) => {
                if index < candidates.len() {
                    assert(tidy(rest, open));
                    if found {
                        lemma_arguments_are_tidy(
                            rest,
                            open,
                            jobs,
                            candidates[index as int],
                            seq![name],
                            words,
                            opts,
                        );
                    } else if index + 1 < candidates.len() {
                        lemma_owed_push(
                            rest.stack,
                            FrameView::Probing { candidates, index: index + 1, name, words, opts },
                        );
                    }
                }
            },
            _ => {},
        },
        _ => {},
    }
}

/// A run is tidy when it starts: no pipe end is open.
pub proof fn lemma_start_is_tidy(command: CommandView, context: ExecutionContextView, own_pid: i32)
    ensures
        tidy(RunView::start(command, context, own_pid), Set::empty()),
{
}

/// Every step keeps a run tidy: after it, each pipe end that is open in
/// the shell, those of a new pipe among them, is owed by a frame that will
/// close it, whatever the event was.
pub proof fn lemma_step_keeps_tidy(
    run: RunView,
    open: Set<i32>,
    jobs: JobManagerView,
    event: EventView,
)
    requires
        tidy(run, open),
    ensures
        tidy(run.next(jobs, event).run, open_after(run, open, event)),
{
    if run.scopes.len() > 0 {
        match run.state {
            StateView::Eval { command, opts } => {
                if event is Continue {
                    lemma_eval_is_tidy(run, open, jobs, command, opts);
                }
            },
            StateView::Return { jids } => {
                if event is Continue {
                    lemma_returned_is_tidy(run, open, jobs, jids);
                }
            },
            StateView::Expand { value } => {
                if event is Continue {
                    lemma_expanded_is_tidy(run, open, jobs, value);
                }
            },
            StateView::Waiting => {
                lemma_answered_is_tidy(run, open, jobs, event);
            },
            _ => {},
        }
    }
}

/// A run that ends with an exit record has left no pipe end open in the
/// shell: every end of every pipe that was made for it has been closed.
pub proof fn lemma_finish_leaves_no_pipe_open(
    run: RunView,
    open: Set<i32>,
    jobs: JobManagerView,
    event: EventView,
)
    requires
        tidy(run, open),
        run.next(jobs, event).action matches ActionView::Finish(Ok(_)),
    ensures
        open_after(run, open, event) == Set::<i32>::empty(),
{
    reveal(owed);
    lemma_owed_pop(run.stack);
    assert(run.stack.len() == 1);
    assert forall|fd: i32| !open.contains(fd) by {
        if open.contains(fd) {
            assert(owed(run.stack, fd));
        }
    }
    assert(open =~= Set::<i32>::empty());
}

} // verus!

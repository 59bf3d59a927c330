//! The contexts of a run. A brace group runs in a copy of the context that
//! it was started in, and that copy ends with the group: nothing that is
//! changed in it gets out.

use crate::env::variables::value_in;
use crate::lang::ast::{CommandView, RedirectView};
use crate::lang::exec::{
    candidates, path_name, redirect_op, ExecutionContextView, Jid, JobManagerView,
    ProcOptionsView,
};
use crate::lang::run::{EventView, FrameView, PurposeView, RunView, StateView};
use crate::lang::word::{ExpansionView, PartView, ProgressView};
use vstd::prelude::*;

verus! {

/// Whether the frame is that of a group with a context of its own.
pub open spec fn owns_context(f: FrameView) -> bool {
    f matches FrameView::Group { commands, next, opts, scoped } && scoped
}

/// The number of frames that have a context of their own.
pub open spec fn owned_contexts(stack: Seq<FrameView>) -> nat
    decreases stack.len(),
{
    if stack.len() == 0 {
        0
    } else {
        owned_contexts(stack.drop_last()) + if owns_context(stack.last()) {
            1nat
        } else {
            0nat
        }
    }
}

/// What holds of the contexts of a run that is under way: there is the
/// context that the run was started with, and above it one for each group
/// that has a context of its own.
pub open spec fn nested(run: RunView) -> bool {
    run.state is Finished || run.scopes.len() == 1 + owned_contexts(run.stack)
}

/// Whether the contexts of `after` under the present context of `before`
/// are those of `before`.
pub open spec fn keeps_outer_contexts(before: RunView, after: RunView) -> bool {
    forall|j: int|
        0 <= j < before.scopes.len() - 1 ==> j < after.scopes.len() && after.scopes[j]
            == #[trigger] before.scopes[j]
}

proof fn lemma_owned_push(stack: Seq<FrameView>, f: FrameView)
    ensures
        owned_contexts(stack.push(f)) == owned_contexts(stack) + if owns_context(f) {
            1nat
        } else {
            0nat
        },
{
    assert(stack.push(f).drop_last() =~= stack);
}

proof fn lemma_owned_pop(stack: Seq<FrameView>)
    requires
        stack.len() > 0,
    ensures
        owned_contexts(stack) == owned_contexts(stack.drop_last()) + if owns_context(
            stack.last(),
        ) {
            1nat
        } else {
            0nat
        },
{
}

proof fn lemma_arguments_nest(
    run: RunView,
    jobs: JobManagerView,
    executable: Seq<char>,
    argv: Seq<Seq<char>>,
    words: Seq<Seq<PartView>>,
    opts: ProcOptionsView,
)
    requires
        nested(run),
        !(run.state is Finished),
    ensures
        nested(run.arguments(jobs, executable, argv, words, opts).run),
        run.arguments(jobs, executable, argv, words, opts).run.scopes == run.scopes,
{
    if argv.len() < words.len() {
        lemma_owned_push(
            run.stack,
            FrameView::Expanding {
                expansion: ExpansionView::start(words[argv.len() as int]),
                purpose: PurposeView::Argument { executable, argv, words, opts },
            },
        );
    } else {
        lemma_owned_push(run.stack, FrameView::Spawning);
    }
}

proof fn lemma_redirect_nests(
    run: RunView,
    jobs: JobManagerView,
    inner: CommandView,
    redirects: Seq<RedirectView>,
    index: nat,
    opts: ProcOptionsView,
)
    requires
        nested(run),
        !(run.state is Finished),
    ensures
        nested(run.redirect(jobs, inner, redirects, index, opts).run),
        run.redirect(jobs, inner, redirects, index, opts).run.scopes == run.scopes,
{
    if index < redirects.len() {
        lemma_owned_push(
            run.stack,
            FrameView::Expanding {
                expansion: ExpansionView::start(redirects[index as int].file),
                purpose: PurposeView::RedirectTarget { inner, redirects, index, opts },
            },
        );
    }
}

proof fn lemma_eval_nests(
    run: RunView,
    jobs: JobManagerView,
    command: CommandView,
    opts: ProcOptionsView,
)
    requires
        nested(run),
        run.scopes.len() > 0,
        !(run.state is Finished),
    ensures
        nested(run.eval(jobs, command, opts).run),
        keeps_outer_contexts(run, run.eval(jobs, command, opts).run),
{
    match command {
        CommandView::Simple(ws) => {
            if ws.len() > 0 {
                lemma_owned_push(
                    run.stack,
                    FrameView::Expanding {
                        expansion: ExpansionView::start(ws[0]),
                        purpose: PurposeView::CommandName { words: ws, opts },
                    },
                );
            }
        },
        CommandView::Pipeline { bang, from, to } => {
            lemma_owned_push(run.stack, FrameView::Piping { from: *from, to: *to, opts });
        },
        CommandView::ConditionalPair { left, operator, right } => {
            let cond = FrameView::Cond { operator, right: *right, opts };
            lemma_owned_push(run.stack, cond);
            lemma_owned_push(run.stack.push(cond), FrameView::Await);
        },
        CommandView::Group(cs) => {
            lemma_owned_push(
                run.stack,
                FrameView::Group { commands: cs, next: 0, opts, scoped: false },
            );
        },
        CommandView::BraceGroup(cs) => {
            lemma_owned_push(
                run.stack,
                FrameView::Group { commands: cs, next: 0, opts, scoped: true },
            );
        },
        CommandView::FileRedirect { left, redirects } => {
            lemma_redirect_nests(run, jobs, *left, redirects, 0, opts);
        },
        CommandView::Function { name, body } => {
            lemma_owned_push(
                run.stack,
                FrameView::Expanding {
                    expansion: ExpansionView::start(name),
                    purpose: PurposeView::FunctionName { body: *body },
                },
            );
        },
        _ => {},
    }
}

proof fn lemma_returned_nests(run: RunView, jobs: JobManagerView, jids: Seq<Jid>)
    requires
        nested(run),
        run.scopes.len() > 0,
        !(run.state is Finished),
    ensures
        nested(run.returned(jobs, jids).run),
        keeps_outer_contexts(run, run.returned(jobs, jids).run),
{
    if run.stack.len() > 0 {
        lemma_owned_pop(run.stack);
        let rest = run.popped();
        match run.stack.last() {
            FrameView::PipeRight { to, opts, read_end, write_end } => {
                lemma_owned_push(
                    rest.stack,
                    FrameView::PipeClose { left: jids, read_end, write_end },
                );
            },
            FrameView::PipeClose { left, read_end, write_end } => {
                lemma_owned_push(
                    rest.stack,
                    FrameView::Closing { jids: left + jids, fd: read_end, then: Some(write_end) },
                );
            },
            FrameView::Group { commands, next, opts, scoped } => {
                if next < commands.len() {
                    let group = FrameView::Group { commands, next: next + 1, opts, scoped };
                    lemma_owned_push(rest.stack, group);
                    lemma_owned_push(rest.stack.push(group), FrameView::Await);
                }
            },
            FrameView::Cond { operator, right, opts } => {
                lemma_owned_push(rest.stack, FrameView::Await);
            },
            _ => {},
        }
    }
}

proof fn lemma_expanded_nests(run: RunView, jobs: JobManagerView, value: Option<Seq<char>>)
    requires
        nested(run),
        run.scopes.len() > 0,
        !(run.state is Finished),
    ensures
        nested(run.expanded(jobs, value).run),
        keeps_outer_contexts(run, run.expanded(jobs, value).run),
{
    if run.stack.len() > 0 {
        lemma_owned_pop(run.stack);
        let rest = run.popped();
        match run.stack.last() {
            FrameView::Expanding { expansion, purpose } => {
                let ran = expansion.resumed(value, run.scope().vars);
                match ran.progress {
                    ProgressView::Evaluate(e) => {
                        lemma_owned_push(
                            rest.stack,
                            FrameView::Expanding { expansion: ran.state, purpose },
                        );
                    },
                    ProgressView::Failed(e) => {},
                    ProgressView::Done(text) => {
                        match purpose {
                            PurposeView::CommandName { words, opts } => {
                                lemma_arguments_nest(rest, jobs, text, seq![text], words, opts);
                                let found = candidates(
                                    value_in(rest.scope().vars, path_name()),
                                    text,
                                );
                                lemma_owned_push(
                                    rest.stack,
                                    FrameView::Probing {
                                        candidates: found,
                                        index: 0,
                                        name: text,
                                        words,
                                        opts,
                                    },
                                );
                            },
                            PurposeView::Argument { executable, argv, words, opts } => {
                                lemma_arguments_nest(
                                    rest,
                                    jobs,
                                    executable,
                                    argv.push(text),
                                    words,
                                    opts,
                                );
                            },
                            PurposeView::FunctionName { body } => {},
                            PurposeView::RedirectTarget { inner, redirects, index, opts } => {
                                if index < redirects.len() {
                                    match redirect_op(
                                        redirects[index as int].operation,
                                        redirects[index as int].fd,
                                        text,
                                    ) {
                                        Some(op) => {
                                            lemma_redirect_nests(
                                                rest,
                                                jobs,
                                                inner,
                                                redirects,
                                                index + 1,
                                                ProcOptionsView {
                                                    redirects: opts.redirects.push(op),
                                                    ..opts
                                                },
                                            );
                                        },
                                        None => {},
                                    }
                                }
                            },
                        }
                    },
                }
            },
            _ => {},
        }
    }
}

proof fn lemma_answered_nests(run: RunView, jobs: JobManagerView, event: EventView)
    requires
        nested(run),
        run.scopes.len() > 0,
        !(run.state is Finished),
    ensures
        nested(run.answered(jobs, event).run),
        keeps_outer_contexts(run, run.answered(jobs, event).run),
{
    if run.stack.len() > 0 {
        lemma_owned_pop(run.stack);
        let rest = run.popped();
        match run.stack.last() {
            FrameView::Piping { from, to, opts } => match event {
                EventView::Piped { read_end, write_end } => {
                    lemma_owned_push(
                        rest.stack,
                        FrameView::PipeRight { to, opts, read_end, write_end },
                    );
                },
                _ => {},
            },
            FrameView::Closing { jids, fd, then } => match (event, then) {
                (EventView::Closed, Some(next)) => {
                    lemma_owned_push(rest.stack, FrameView::Closing { jids, fd: next, then: None });
                },
                _ => {},
            },
            FrameView::Probing { candidates, index, name, words, opts } => match event {
                EventView::Found(found) => {
                    if index < candidates.len() {
                        if found {
                            lemma_arguments_nest(
                                rest,
                                jobs,
                                candidates[index as int],
                                seq![name],
                                words,
                                opts,
                            );
                        } else if index + 1 < candidates.len() {
                            lemma_owned_push(
                                rest.stack,
                                FrameView::Probing {
                                    candidates,
                                    index: index + 1,
                                    name,
                                    words,
                                    opts,
                                },
                            );
                        }
                    }
                },
                _ => {},
            },
            _ => {},
        }
    }
}

/// The contexts of a run are nested when it starts.
pub proof fn lemma_start_is_nested(command: CommandView, context: ExecutionContextView, own_pid: i32)
    ensures
        nested(RunView::start(command, context, own_pid)),
{
    let stack = seq![FrameView::Finish, FrameView::Await];
    lemma_owned_pop(stack);
    lemma_owned_pop(stack.drop_last());
    assert(stack.drop_last().drop_last().len() == 0);
}

/// Every step keeps the contexts of a run nested, and changes no context
/// but the present one: the contexts under it stay as they are, whatever
/// the event is.
pub proof fn lemma_step_keeps_outer_contexts(run: RunView, jobs: JobManagerView, event: EventView)
    requires
        nested(run),
    ensures
        nested(run.next(jobs, event).run),
        keeps_outer_contexts(run, run.next(jobs, event).run),
{
    if run.scopes.len() > 0 {
        match run.state {
            StateView::Eval { command, opts } => {
                if event is Continue {
                    lemma_eval_nests(run, jobs, command, opts);
                }
            },
            StateView::Return { jids } => {
                if event is Continue {
                    lemma_returned_nests(run, jobs, jids);
                }
            },
            StateView::Expand { value } => {
                if event is Continue {
                    lemma_expanded_nests(run, jobs, value);
                }
            },
            StateView::Waiting => {
                lemma_answered_nests(run, jobs, event);
            },
            _ => {},
        }
    }
}

/// A brace group begins with a copy of the present context, and when its
/// last command is over that copy is dropped: the context that the group
/// was started in is the present one again.
pub proof fn lemma_brace_group_keeps_its_changes(
    run: RunView,
    jobs: JobManagerView,
    commands: Seq<CommandView>,
    opts: ProcOptionsView,
    jids: Seq<Jid>,
)
    requires
        nested(run),
        run.scopes.len() > 0,
    ensures
        run.state == (StateView::Eval { command: CommandView::BraceGroup(commands), opts }) ==> {
            let after = run.next(jobs, EventView::Continue).run;
            &&& after.scopes == run.scopes.push(run.scope())
            &&& after.stack.last() == (FrameView::Group { commands, next: 0, opts, scoped: true })
        },
        run.state == (StateView::Return { jids }) && run.stack.len() > 0 && run.stack.last() == (
            FrameView::Group { commands, next: commands.len(), opts, scoped: true }
        ) ==> {
            let after = run.next(jobs, EventView::Continue).run;
            &&& after.scopes == run.scopes.drop_last()
            &&& after.state == (StateView::Return { jids })
        },
{
    if run.stack.len() > 0 {
        lemma_owned_pop(run.stack);
    }
}

} // verus!

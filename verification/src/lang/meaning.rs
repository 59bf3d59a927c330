//! What the expansion of a word comes to, and why the step-by-step
//! expansion comes to the same.

use crate::env::variables::value_in;
use crate::expr::meaning::Vars;
use crate::expr::parser::parse_text;
use crate::expr::types::ExprView;
use crate::lang::word::{
    escape_value, home_name, ops_upto, part_ops, word_ops, ExpansionView, OpView, PartView,
    ProgressView,
};
use vstd::prelude::*;

verus! {

/// A text and the variables after it was made.
pub struct Expanded {
    pub text: Seq<char>,
    pub vars: Vars,
}

/// What evaluating an expression gives: its value as text, and the
/// variables afterwards.
pub type Evaluator = spec_fn(ExprView, Vars) -> Expanded;

/// The text that one part of a word expands to, or `None` where the text of
/// an expression cannot be read. Plain text is copied. An escape is the
/// character it stands for. A variable is its value, and nothing where it has
/// none. A tilde is the value of `HOME`. A quoted stretch is what its parts
/// expand to. An expression is expanded as a word, read as an expression
/// and evaluated with `eval`; its value is its text.
pub open spec fn expand_part(part: PartView, vars: Vars, eval: Evaluator) -> Option<Expanded>
    decreases part, 0nat,
{
    match part {
        PartView::Slice(text) => Some(Expanded { text, vars }),
        PartView::Escape(c) => Some(Expanded { text: seq![escape_value(c)], vars }),
        PartView::Variable(name) => Some(Expanded { text: value_in(vars, name), vars }),
        PartView::Tilde => Some(Expanded { text: value_in(vars, home_name()), vars }),
        PartView::Quoted(inner) => expand_upto(inner, inner.len(), vars, eval),
        PartView::Expr(inner) => match expand_upto(inner, inner.len(), vars, eval) {
            Some(source) => match parse_text(source.text) {
                Ok(e) => Some(eval(e, source.vars)),
                Err(_) => None,
            },
            None => None,
        },
    }
}

/// The text that the first `n` parts expand to, from left to right: every
/// part sees the variables as the parts before it have left them.
pub open spec fn expand_upto(parts: Seq<PartView>, n: nat, vars: Vars, eval: Evaluator) -> Option<
    Expanded,
>
    decreases parts, n,
{
    if n == 0 || n > parts.len() {
        Some(Expanded { text: Seq::empty(), vars })
    } else {
        match expand_upto(parts, (n - 1) as nat, vars, eval) {
            Some(first) => match expand_part(parts[n - 1], first.vars, eval) {
                Some(last) => Some(Expanded { text: first.text + last.text, vars: last.vars }),
                None => None,
            },
            None => None,
        }
    }
}

/// The text that a word expands to.
pub open spec fn expand(parts: Seq<PartView>, vars: Vars, eval: Evaluator) -> Option<Expanded> {
    expand_upto(parts, parts.len(), vars, eval)
}

/// A run stops behind the instruction that made it stop, and keeps the
/// instructions as they are.
pub proof fn lemma_run_progress(x: ExpansionView, vars: Vars)
    ensures
        x.proceed(vars).state.ops == x.ops,
        !(x.proceed(vars).progress is Done) ==> x.pc < x.proceed(vars).state.pc <= x.ops.len(),
    decreases x.ops.len() - x.pc,
{
    if x.pc >= x.ops.len() || x.buffers.len() == 0 {
    } else {
        match x.ops[x.pc as int] {
            OpView::Text(text) => {
                lemma_run_progress(x.written(text), vars);
            },
            OpView::Char(c) => {
                lemma_run_progress(x.written(seq![c]), vars);
            },
            OpView::Variable(name) => {
                lemma_run_progress(x.written(value_in(vars, name)), vars);
            },
            OpView::Home => {
                lemma_run_progress(x.written(value_in(vars, home_name())), vars);
            },
            OpView::Open => {
                lemma_run_progress(
                    ExpansionView {
                        pc: x.pc + 1,
                        buffers: x.buffers.push(Seq::empty()),
                        ..x
                    },
                    vars,
                );
            },
            OpView::Close => {},
        }
    }
}

/// The text that the expansion `x` ends with when every expression that
/// it hands out is evaluated with `eval` and the value is given back.
pub open spec fn driven(x: ExpansionView, vars: Vars, eval: Evaluator) -> Option<Expanded>
    decreases x.ops.len() - x.pc,
{
    let ran = x.proceed(vars);
    match ran.progress {
        ProgressView::Done(text) => Some(Expanded { text, vars }),
        ProgressView::Failed(_) => None,
        ProgressView::Evaluate(e) => {
            proof {
                lemma_run_progress(x, vars);
            }
            let answer = eval(e, vars);
            driven(ran.state.supplied(answer.text), answer.vars, eval)
        },
    }
}

/// The expansion with the instructions `ops`, of which `pc` are done, and
/// the texts `buffers` under way.
pub open spec fn at(ops: Seq<OpView>, pc: nat, buffers: Seq<Seq<char>>) -> ExpansionView {
    ExpansionView { ops, pc, buffers }
}

/// The texts under way after `text` has been written.
pub open spec fn topped(buffers: Seq<Seq<char>>, text: Seq<char>) -> Seq<Seq<char>> {
    buffers.update(buffers.len() - 1, buffers.last() + text)
}

/// What the instructions of the first `n` parts of `parts` do when they
/// stand between the instructions `pre` and `post`: they write the text that
/// these parts expand to, or the expansion fails where that text is not
/// to be had.
proof fn lemma_parts(
    pre: Seq<OpView>,
    parts: Seq<PartView>,
    n: nat,
    post: Seq<OpView>,
    buffers: Seq<Seq<char>>,
    vars: Vars,
    eval: Evaluator,
)
    requires
        n <= parts.len(),
        buffers.len() > 0,
    ensures
        ({
            let seg = ops_upto(parts, n);
            let ops = pre + seg + post;
            driven(at(ops, pre.len(), buffers), vars, eval) == match expand_upto(
                parts,
                n,
                vars,
                eval,
            ) {
                None => None,
                Some(r) => driven(
                    at(ops, pre.len() + seg.len(), topped(buffers, r.text)),
                    r.vars,
                    eval,
                ),
            }
        }),
    decreases parts, n,
{
    let seg = ops_upto(parts, n);
    let ops = pre + seg + post;
    if n == 0 {
        assert(topped(buffers, Seq::empty()) =~= buffers);
        assert(seg.len() == 0);
    } else {
        let head = ops_upto(parts, (n - 1) as nat);
        let tail = part_ops(parts[n - 1]);
        assert(seg == head + tail);
        assert(pre + head + (tail + post) =~= ops);
        lemma_parts(pre, parts, (n - 1) as nat, tail + post, buffers, vars, eval);
        match expand_upto(parts, (n - 1) as nat, vars, eval) {
            None => {},
            Some(first) => {
                let mid = topped(buffers, first.text);
                assert((pre + head) + tail + post =~= ops);
                lemma_part(pre + head, parts[n - 1], post, mid, first.vars, eval);
                match expand_part(parts[n - 1], first.vars, eval) {
                    None => {},
                    Some(last) => {
                        assert((buffers.last() + first.text) + last.text =~= buffers.last() + (
                            first.text + last.text));
                        assert(topped(mid, last.text) =~= topped(buffers, first.text + last.text));
                    },
                }
            },
        }
    }
}

/// What the instructions of one part do when they stand between the
/// instructions `pre` and `post`.
proof fn lemma_part(
    pre: Seq<OpView>,
    part: PartView,
    post: Seq<OpView>,
    buffers: Seq<Seq<char>>,
    vars: Vars,
    eval: Evaluator,
)
    requires
        buffers.len() > 0,
    ensures
        ({
            let seg = part_ops(part);
            let ops = pre + seg + post;
            driven(at(ops, pre.len(), buffers), vars, eval) == match expand_part(part, vars, eval) {
                None => None,
                Some(r) => driven(
                    at(ops, pre.len() + seg.len(), topped(buffers, r.text)),
                    r.vars,
                    eval,
                ),
            }
        }),
    decreases part, 0nat,
{
    let seg = part_ops(part);
    let ops = pre + seg + post;
    let p = pre.len();
    let x = at(ops, p, buffers);
    match part {
        PartView::Slice(text) => {
            assert(ops[p as int] == OpView::Text(text));
            assert(x.written(text) == at(ops, p + 1, topped(buffers, text)));
            assert(x.proceed(vars) == x.written(text).proceed(vars));
        },
        PartView::Escape(c) => {
            assert(ops[p as int] == OpView::Char(escape_value(c)));
            assert(x.written(seq![escape_value(c)]) == at(
                ops,
                p + 1,
                topped(buffers, seq![escape_value(c)]),
            ));
            assert(x.proceed(vars) == x.written(seq![escape_value(c)]).proceed(vars));
        },
        PartView::Variable(name) => {
            assert(ops[p as int] == OpView::Variable(name));
            assert(x.written(value_in(vars, name)) == at(
                ops,
                p + 1,
                topped(buffers, value_in(vars, name)),
            ));
            assert(x.proceed(vars) == x.written(value_in(vars, name)).proceed(vars));
        },
        PartView::Tilde => {
            assert(ops[p as int] == OpView::Home);
            assert(x.written(value_in(vars, home_name())) == at(
                ops,
                p + 1,
                topped(buffers, value_in(vars, home_name())),
            ));
            assert(x.proceed(vars) == x.written(value_in(vars, home_name())).proceed(vars));
        },
        PartView::Quoted(inner) => {
            lemma_parts(pre, inner, inner.len(), post, buffers, vars, eval);
        },
        PartView::Expr(inner) => {
            let body = ops_upto(inner, inner.len());
            let k = body.len();
            assert(seg == seq![OpView::Open] + body + seq![OpView::Close]);
            assert(ops[p as int] == OpView::Open);
            let opened = buffers.push(Seq::empty());
            let inside = at(ops, p + 1, opened);
            assert(x.proceed(vars) == inside.proceed(vars));
            assert((pre + seq![OpView::Open]) + body + (seq![OpView::Close] + post) =~= ops);
            lemma_parts(
                pre + seq![OpView::Open],
                inner,
                inner.len(),
                seq![OpView::Close] + post,
                opened,
                vars,
                eval,
            );
            match expand_upto(inner, inner.len(), vars, eval) {
                None => {},
                Some(source) => {
                    let filled = topped(opened, source.text);
                    assert(filled =~= buffers.push(source.text));
                    let closing = at(ops, p + 1 + k, filled);
                    assert(ops[(p + 1 + k) as int] == OpView::Close);
                    assert(filled.drop_last() =~= buffers);
                    assert(filled.last() == source.text);
                    let closed = at(ops, p + 2 + k, buffers);
                    assert(closing.proceed(source.vars).state == closed);
                    match parse_text(source.text) {
                        Ok(e) => {
                            assert(closing.proceed(source.vars).progress == ProgressView::Evaluate(e));
                            let answer = eval(e, source.vars);
                            assert(closed.supplied(answer.text) == at(
                                ops,
                                p + 2 + k,
                                topped(buffers, answer.text),
                            ));
                        },
                        Err(e) => {
                            assert(closing.proceed(source.vars).progress == ProgressView::Failed(e));
                        },
                    }
                },
            }
        },
    }
}

/// The step-by-step expansion of a word, with every expression that it
/// hands out evaluated with `eval`, ends with the text that the word expands
/// to and leaves the variables as the word's expressions have left them; it
/// fails where the text of an expression cannot be read.
pub proof fn lemma_expansion_means(parts: Seq<PartView>, vars: Vars, eval: Evaluator)
    ensures
        driven(ExpansionView::start(parts), vars, eval) == expand(parts, vars, eval),
{
    let ops = word_ops(parts);
    let buffers = seq![Seq::<char>::empty()];
    assert(Seq::<OpView>::empty() + ops + Seq::<OpView>::empty() =~= ops);
    lemma_parts(Seq::empty(), parts, parts.len(), Seq::empty(), buffers, vars, eval);
    match expand(parts, vars, eval) {
        None => {},
        Some(r) => {
            let end = at(ops, ops.len(), topped(buffers, r.text));
            assert(topped(buffers, r.text).last() =~= r.text);
            assert(end.proceed(r.vars).progress == ProgressView::Done(r.text));
        },
    }
}

} // verus!

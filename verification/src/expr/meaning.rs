//! What an expression comes to, and why the step-by-step evaluation comes
//! to the same.

use crate::env::variables::value_in;
use crate::expr::eval::{
    one, step_operator, truth_number, AnswerView, EvaluationView, FrameView, RequestView,
    StateView,
};
use crate::expr::lexer::number_of;
use crate::expr::types::{ExprView, LiteralView, Operator, OperatorClass};
use vstd::prelude::*;

verus! {

/// The variables of a shell.
pub type Vars = Map<Seq<char>, Seq<char>>;

/// The arithmetic that the caller of an evaluation does: how two numbers
/// are combined, how one number is negated or complemented, whether a
/// number is other than zero, and how a number is written.
pub struct Arithmetic {
    pub binary: spec_fn(Operator, LiteralView, LiteralView) -> LiteralView,
    pub unary: spec_fn(Operator, LiteralView) -> LiteralView,
    pub truth: spec_fn(LiteralView) -> bool,
    pub render: spec_fn(LiteralView) -> Seq<char>,
}

/// A number and the variables after it was computed.
pub struct Valued {
    pub value: LiteralView,
    pub vars: Vars,
}

/// The variables after the number `n` has been written to `name`.
pub open spec fn stored(vars: Vars, name: Seq<char>, n: LiteralView, a: Arithmetic) -> Vars {
    vars.insert(name, (a.render)(n))
}

/// The value of an expression, and the variables after its evaluation.
///
/// A number is its own value, and a variable has the number that its value
/// stands for. A condition evaluates its first part and then the one
/// branch that the truth of that part chooses. `++` and `--` before a
/// variable store the variable's number plus or minus one and have that
/// value; behind a variable they store the same and have the number from
/// before; on anything but a variable they leave the operand as it is.
/// `!` is the opposite of the truth of a number, and one for anything that
/// is not written as a number. `-` and `~` apply to the value of their
/// operand. `&&` and `||` evaluate the left side first and the right side
/// only if the left side does not decide; their value is one or zero. Any
/// other operator between two operands evaluates the right side first and
/// then the left side. `=` stores the value of the right side in the
/// variable on its left; the other assignments store what their operator
/// makes of the variable's number and that value. An assignment to what is
/// no variable evaluates both sides and has the value of the left side.
pub open spec fn value_of(e: ExprView, vars: Vars, a: Arithmetic) -> Valued
    decreases e,
{
    match e {
        ExprView::Number(n) => Valued { value: n, vars },
        ExprView::Variable(name) => Valued { value: number_of(value_in(vars, name)), vars },
        ExprView::Condition(condition, on_true, on_false) => {
            let c = value_of(*condition, vars, a);
            if (a.truth)(c.value) {
                value_of(*on_true, c.vars, a)
            } else {
                value_of(*on_false, c.vars, a)
            }
        },
        ExprView::Prefix(operator, right) => match operator {
            Operator::Increment | Operator::Decrement => match *right {
                ExprView::Variable(name) => {
                    let n = (a.binary)(
                        step_operator(operator),
                        number_of(value_in(vars, name)),
                        one(),
                    );
                    Valued { value: n, vars: stored(vars, name, n, a) }
                },
                _ => value_of(*right, vars, a),
            },
            Operator::Not => match *right {
                ExprView::Number(n) => Valued { value: truth_number(!(a.truth)(n)), vars },
                _ => Valued { value: one(), vars },
            },
            Operator::Negate | Operator::Subtract => {
                let r = value_of(*right, vars, a);
                Valued { value: (a.unary)(operator, r.value), vars: r.vars }
            },
            _ => value_of(*right, vars, a),
        },
        ExprView::Suffix(left, operator) => match operator {
            Operator::Increment | Operator::Decrement => match *left {
                ExprView::Variable(name) => {
                    let current = number_of(value_in(vars, name));
                    let n = (a.binary)(step_operator(operator), current, one());
                    Valued { value: current, vars: stored(vars, name, n, a) }
                },
                _ => value_of(*left, vars, a),
            },
            _ => value_of(*left, vars, a),
        },
        ExprView::Infix(left, operator, right) => match operator.class_of() {
            OperatorClass::Logical => {
                let l = value_of(*left, vars, a);
                if (a.truth)(l.value) == (operator == Operator::Or) {
                    Valued { value: truth_number((a.truth)(l.value)), vars: l.vars }
                } else {
                    let r = value_of(*right, l.vars, a);
                    Valued { value: truth_number((a.truth)(r.value)), vars: r.vars }
                }
            },
            OperatorClass::Binary => {
                let r = value_of(*right, vars, a);
                let l = value_of(*left, r.vars, a);
                Valued { value: (a.binary)(operator, l.value, r.value), vars: l.vars }
            },
            OperatorClass::Unary => {
                let r = value_of(*right, vars, a);
                value_of(*left, r.vars, a)
            },
            OperatorClass::Compound(base) => {
                let r = value_of(*right, vars, a);
                match *left {
                    ExprView::Variable(name) => {
                        let n = (a.binary)(base, number_of(value_in(r.vars, name)), r.value);
                        Valued { value: n, vars: stored(r.vars, name, n, a) }
                    },
                    _ => value_of(*left, r.vars, a),
                }
            },
            OperatorClass::Assign => {
                let r = value_of(*right, vars, a);
                match *left {
                    ExprView::Variable(name) => Valued {
                        value: r.value,
                        vars: stored(r.vars, name, r.value, a),
                    },
                    _ => value_of(*left, r.vars, a),
                }
            },
        },
    }
}

/// The size of an expression: the number of its nodes.
pub open spec fn size(e: ExprView) -> nat
    decreases e,
{
    match e {
        ExprView::Number(_) => 1,
        ExprView::Variable(_) => 1,
        ExprView::Infix(left, _, right) => 1 + size(*left) + size(*right),
        ExprView::Prefix(_, right) => 1 + size(*right),
        ExprView::Suffix(left, _) => 1 + size(*left),
        ExprView::Condition(condition, on_true, on_false) => 1 + size(*condition) + size(
            *on_true,
        ) + size(*on_false),
    }
}

/// A bound on the steps that a frame still stands for.
pub open spec fn frame_weight(f: FrameView) -> nat {
    match f {
        FrameView::Done => 0,
        FrameView::Choice { on_true, on_false } => 10 * (size(on_true) + size(on_false)),
        FrameView::InfixLeft { operator, left } => 10 * size(left) + 5,
        FrameView::InfixApply { operator, right } => 4,
        FrameView::Result => 2,
        FrameView::ThenEval { next } => 10 * size(next),
        FrameView::LogicLeft { operator, right } => 10 * size(right) + 5,
        FrameView::LogicRight => 4,
        FrameView::Negation => 2,
        FrameView::UnaryApply { operator } => 5,
        FrameView::AssignTo { operator, name } => 8,
        FrameView::Store { name, keep } => 4,
        FrameView::Write { name, result } => 2,
    }
}

/// A bound on the steps that the frames still stand for.
pub open spec fn stack_weight(stack: Seq<FrameView>) -> nat
    decreases stack.len(),
{
    if stack.len() == 0 {
        0
    } else {
        stack_weight(stack.drop_last()) + frame_weight(stack.last())
    }
}

/// A bound on the steps that an evaluation still takes.
pub open spec fn weight(m: EvaluationView) -> nat {
    stack_weight(m.stack) + match m.state {
        StateView::Eval(e) => 10 * size(e),
        StateView::Value(_) => 2,
        StateView::Waiting => 1,
        StateView::Finished => 0,
    }
}

/// The answer that the arithmetic `a` gives to a request.
pub open spec fn answer_to(request: RequestView, a: Arithmetic) -> AnswerView {
    match request {
        RequestView::Binary { operator, left, right } => AnswerView::Number(
            (a.binary)(operator, left, right),
        ),
        RequestView::Unary { operator, operand } => AnswerView::Number(
            (a.unary)(operator, operand),
        ),
        RequestView::Truth(n) => AnswerView::Truth((a.truth)(n)),
        RequestView::Render(n) => AnswerView::Text((a.render)(n)),
        _ => AnswerView::Continue,
    }
}

/// The weight after pushing a frame.
pub proof fn lemma_weight_push(stack: Seq<FrameView>, f: FrameView)
    ensures
        stack_weight(stack.push(f)) == stack_weight(stack) + frame_weight(f),
{
    assert(stack.push(f).drop_last() =~= stack);
}

/// Every expression has a node.
pub proof fn lemma_size_positive(e: ExprView)
    ensures
        size(e) >= 1,
{
}

/// Every step that does not end an evaluation brings it nearer to its end.
pub proof fn lemma_step_lightens(m: EvaluationView, vars: Vars, answer: AnswerView)
    ensures
        ({
            let s = m.next(vars, answer);
            !(s.request is Done) && !(s.request is Confused) ==> weight(s.evaluation) < weight(m)
        }),
{
    let s = m.next(vars, answer);
    if !(s.request is Done) && !(s.request is Confused) {
        match m.state {
            StateView::Eval(e) => {
                lemma_eval_lightens(m, vars, e);
            },
            StateView::Value(n) => {
                let rest = m.popped();
                lemma_weight_push(rest.stack, m.stack.last());
                assert(rest.stack.push(m.stack.last()) =~= m.stack);
                match m.stack.last() {
                    FrameView::InfixLeft { operator, left } => {
                        lemma_weight_push(
                            rest.stack,
                            FrameView::InfixApply { operator, right: n },
                        );
                    },
                    FrameView::InfixApply { operator, right } => {
                        lemma_weight_push(rest.stack, FrameView::Result);
                    },
                    FrameView::UnaryApply { operator } => {
                        lemma_weight_push(rest.stack, FrameView::Result);
                    },
                    FrameView::AssignTo { operator, name } => {
                        lemma_weight_push(rest.stack, FrameView::Store { name, keep: None });
                        lemma_weight_push(rest.stack, FrameView::Write { name, result: n });
                    },
                    _ => {},
                }
            },
            StateView::Waiting => {
                let rest = m.popped();
                lemma_weight_push(rest.stack, m.stack.last());
                assert(rest.stack.push(m.stack.last()) =~= m.stack);
                match m.stack.last() {
                    FrameView::Choice { on_true, on_false } => {
                        lemma_size_positive(on_true);
                        lemma_size_positive(on_false);
                    },
                    FrameView::LogicLeft { operator, right } => {
                        lemma_weight_push(rest.stack, FrameView::LogicRight);
                    },
                    FrameView::Store { name, keep } => match answer {
                        AnswerView::Number(n) => {
                            lemma_weight_push(
                                rest.stack,
                                FrameView::Write {
                                    name,
                                    result: match keep {
                                        Some(kept) => kept,
                                        None => n,
                                    },
                                },
                            );
                        },
                        _ => {},
                    },
                    _ => {},
                }
            },
            StateView::Finished => {},
        }
    }
}

proof fn lemma_eval_lightens(m: EvaluationView, vars: Vars, e: ExprView)
    requires
        m.state == StateView::Eval(e),
    ensures
        weight(m.eval(vars, e).evaluation) < weight(m),
{
    match e {
        ExprView::Number(n) => {},
        ExprView::Variable(name) => {},
        ExprView::Condition(condition, on_true, on_false) => {
            lemma_weight_push(
                m.stack,
                FrameView::Choice { on_true: *on_true, on_false: *on_false },
            );
        },
        ExprView::Prefix(operator, right) => {
            lemma_size_positive(*right);
            match *right {
                ExprView::Variable(name) => {
                    lemma_weight_push(m.stack, FrameView::Store { name, keep: None });
                },
                _ => {},
            }
            lemma_weight_push(m.stack, FrameView::Negation);
            lemma_weight_push(m.stack, FrameView::UnaryApply { operator });
        },
        ExprView::Suffix(left, operator) => {
            lemma_size_positive(*left);
            match *left {
                ExprView::Variable(name) => {
                    lemma_weight_push(
                        m.stack,
                        FrameView::Store { name, keep: Some(number_of(value_in(vars, name))) },
                    );
                },
                _ => {},
            }
        },
        ExprView::Infix(left, operator, right) => {
            lemma_size_positive(*left);
            lemma_size_positive(*right);
            lemma_weight_push(m.stack, FrameView::LogicLeft { operator, right: *right });
            lemma_weight_push(m.stack, FrameView::InfixLeft { operator, left: *left });
            lemma_weight_push(m.stack, FrameView::ThenEval { next: *left });
            match *left {
                ExprView::Variable(name) => {
                    lemma_weight_push(m.stack, FrameView::AssignTo { operator, name });
                },
                _ => {},
            }
        },
    }
}

/// The value that the evaluation `m` ends with when every request that it
/// hands out is answered by the arithmetic `a`; `None` where the evaluation
/// ends confused.
pub open spec fn settled(m: EvaluationView, vars: Vars, answer: AnswerView, a: Arithmetic) -> Option<
    Valued,
>
    decreases weight(m),
{
    let s = m.next(vars, answer);
    match s.request {
        RequestView::Done(n) => Some(Valued { value: n, vars: s.vars }),
        RequestView::Confused => None,
        _ => {
            proof {
                lemma_step_lightens(m, vars, answer);
            }
            settled(s.evaluation, s.vars, answer_to(s.request, a), a)
        },
    }
}

/// The evaluation with the frames `stack` that is about to do `state`.
pub open spec fn machine(stack: Seq<FrameView>, state: StateView) -> EvaluationView {
    EvaluationView { stack, state }
}

/// The steps that store the number `n` in `name` and go on with the value
/// `result`: the number is asked for as text, and the text is written.
proof fn lemma_store(
    stack: Seq<FrameView>,
    name: Seq<char>,
    keep: Option<LiteralView>,
    n: LiteralView,
    vars: Vars,
    a: Arithmetic,
)
    ensures
        settled(
            machine(stack.push(FrameView::Store { name, keep }), StateView::Waiting),
            vars,
            AnswerView::Number(n),
            a,
        ) == settled(
            machine(
                stack,
                StateView::Value(
                    match keep {
                        Some(kept) => kept,
                        None => n,
                    },
                ),
            ),
            stored(vars, name, n, a),
            AnswerView::Continue,
            a,
        ),
{
    let result = match keep {
        Some(kept) => kept,
        None => n,
    };
    let store = FrameView::Store { name, keep };
    let write = FrameView::Write { name, result };
    assert(stack.push(store).drop_last() =~= stack);
    assert(stack.push(write).drop_last() =~= stack);
    let m0 = machine(stack.push(store), StateView::Waiting);
    let m1 = machine(stack.push(write), StateView::Waiting);
    let m2 = machine(stack, StateView::Value(result));
    assert(m0.next(vars, AnswerView::Number(n)).evaluation == m1);
    assert(settled(m0, vars, AnswerView::Number(n), a) == settled(
        m1,
        vars,
        AnswerView::Text((a.render)(n)),
        a,
    ));
    assert(m1.next(vars, AnswerView::Text((a.render)(n))).evaluation == m2);
}

/// The steps that ask for a number and go on with it as the value.
proof fn lemma_result(stack: Seq<FrameView>, n: LiteralView, vars: Vars, a: Arithmetic)
    ensures
        settled(
            machine(stack.push(FrameView::Result), StateView::Waiting),
            vars,
            AnswerView::Number(n),
            a,
        ) == settled(machine(stack, StateView::Value(n)), vars, AnswerView::Continue, a),
{
    assert(stack.push(FrameView::Result).drop_last() =~= stack);
    let m0 = machine(stack.push(FrameView::Result), StateView::Waiting);
    assert(m0.next(vars, AnswerView::Number(n)).evaluation == machine(
        stack,
        StateView::Value(n),
    ));
}

/// The evaluation of `e` under any frames comes to the value of `e`, which
/// is handed to the frame on top, and leaves the variables as the
/// evaluation of `e` leaves them.
proof fn lemma_value(stack: Seq<FrameView>, e: ExprView, vars: Vars, a: Arithmetic)
    ensures
        settled(machine(stack, StateView::Eval(e)), vars, AnswerView::Continue, a) == settled(
            machine(stack, StateView::Value(value_of(e, vars, a).value)),
            value_of(e, vars, a).vars,
            AnswerView::Continue,
            a,
        ),
    decreases e, 1nat,
{
    let go = AnswerView::Continue;
    let m0 = machine(stack, StateView::Eval(e));
    match e {
        ExprView::Number(n) => {},
        ExprView::Variable(name) => {},
        ExprView::Condition(condition, on_true, on_false) => {
            let choice = FrameView::Choice { on_true: *on_true, on_false: *on_false };
            let inner = stack.push(choice);
            assert(inner.drop_last() =~= stack);
            assert(m0.next(vars, go).evaluation == machine(inner, StateView::Eval(*condition)));
            lemma_value(inner, *condition, vars, a);
            let c = value_of(*condition, vars, a);
            let m2 = machine(inner, StateView::Value(c.value));
            let m3 = machine(inner, StateView::Waiting);
            assert(m2.next(c.vars, go).evaluation == m3);
            assert(settled(m2, c.vars, go, a) == settled(
                m3,
                c.vars,
                AnswerView::Truth((a.truth)(c.value)),
                a,
            ));
            if (a.truth)(c.value) {
                assert(m3.next(c.vars, AnswerView::Truth(true)).evaluation == machine(
                    stack,
                    StateView::Eval(*on_true),
                ));
                lemma_value(stack, *on_true, c.vars, a);
            } else {
                assert(m3.next(c.vars, AnswerView::Truth(false)).evaluation == machine(
                    stack,
                    StateView::Eval(*on_false),
                ));
                lemma_value(stack, *on_false, c.vars, a);
            }
        },
        ExprView::Prefix(operator, right) => match operator {
            Operator::Increment | Operator::Decrement => match *right {
                ExprView::Variable(name) => {
                    let n = (a.binary)(
                        step_operator(operator),
                        number_of(value_in(vars, name)),
                        one(),
                    );
                    assert(m0.next(vars, go).evaluation == machine(
                        stack.push(FrameView::Store { name, keep: None }),
                        StateView::Waiting,
                    ));
                    lemma_store(stack, name, None, n, vars, a);
                },
                _ => {
                    assert(m0.next(vars, go).evaluation == machine(stack, StateView::Eval(*right)));
                    lemma_value(stack, *right, vars, a);
                },
            },
            Operator::Not => match *right {
                ExprView::Number(n) => {
                    let inner = stack.push(FrameView::Negation);
                    assert(inner.drop_last() =~= stack);
                    let m1 = machine(inner, StateView::Waiting);
                    assert(m0.next(vars, go).evaluation == m1);
                    assert(settled(m0, vars, go, a) == settled(
                        m1,
                        vars,
                        AnswerView::Truth((a.truth)(n)),
                        a,
                    ));
                    assert(m1.next(vars, AnswerView::Truth((a.truth)(n))).evaluation == machine(
                        stack,
                        StateView::Value(truth_number(!(a.truth)(n))),
                    ));
                },
                _ => {},
            },
            Operator::Negate | Operator::Subtract => {
                let inner = stack.push(FrameView::UnaryApply { operator });
                assert(inner.drop_last() =~= stack);
                assert(m0.next(vars, go).evaluation == machine(inner, StateView::Eval(*right)));
                lemma_value(inner, *right, vars, a);
                let r = value_of(*right, vars, a);
                let m2 = machine(inner, StateView::Value(r.value));
                let m3 = machine(stack.push(FrameView::Result), StateView::Waiting);
                assert(m2.next(r.vars, go).evaluation == m3);
                assert(settled(m2, r.vars, go, a) == settled(
                    m3,
                    r.vars,
                    AnswerView::Number((a.unary)(operator, r.value)),
                    a,
                ));
                lemma_result(stack, (a.unary)(operator, r.value), r.vars, a);
            },
            _ => {
                assert(m0.next(vars, go).evaluation == machine(stack, StateView::Eval(*right)));
                lemma_value(stack, *right, vars, a);
            },
        },
        ExprView::Suffix(left, operator) => match operator {
            Operator::Increment | Operator::Decrement => match *left {
                ExprView::Variable(name) => {
                    let current = number_of(value_in(vars, name));
                    let n = (a.binary)(step_operator(operator), current, one());
                    assert(m0.next(vars, go).evaluation == machine(
                        stack.push(FrameView::Store { name, keep: Some(current) }),
                        StateView::Waiting,
                    ));
                    lemma_store(stack, name, Some(current), n, vars, a);
                },
                _ => {
                    assert(m0.next(vars, go).evaluation == machine(stack, StateView::Eval(*left)));
                    lemma_value(stack, *left, vars, a);
                },
            },
            _ => {
                assert(m0.next(vars, go).evaluation == machine(stack, StateView::Eval(*left)));
                lemma_value(stack, *left, vars, a);
            },
        },
        ExprView::Infix(left, operator, right) => match operator.class_of() {
            OperatorClass::Logical => {
                let frame = FrameView::LogicLeft { operator, right: *right };
                let inner = stack.push(frame);
                assert(inner.drop_last() =~= stack);
                assert(m0.next(vars, go).evaluation == machine(inner, StateView::Eval(*left)));
                lemma_value(inner, *left, vars, a);
                let l = value_of(*left, vars, a);
                let m2 = machine(inner, StateView::Value(l.value));
                let m3 = machine(inner, StateView::Waiting);
                let lt = (a.truth)(l.value);
                assert(m2.next(l.vars, go).evaluation == m3);
                assert(settled(m2, l.vars, go, a) == settled(m3, l.vars, AnswerView::Truth(lt), a));
                if lt == (operator == Operator::Or) {
                    assert(m3.next(l.vars, AnswerView::Truth(lt)).evaluation == machine(
                        stack,
                        StateView::Value(truth_number(lt)),
                    ));
                } else {
                    let second = stack.push(FrameView::LogicRight);
                    assert(second.drop_last() =~= stack);
                    assert(m3.next(l.vars, AnswerView::Truth(lt)).evaluation == machine(
                        second,
                        StateView::Eval(*right),
                    ));
                    lemma_value(second, *right, l.vars, a);
                    let r = value_of(*right, l.vars, a);
                    let m5 = machine(second, StateView::Value(r.value));
                    let m6 = machine(second, StateView::Waiting);
                    let rt = (a.truth)(r.value);
                    assert(m5.next(r.vars, go).evaluation == m6);
                    assert(settled(m5, r.vars, go, a) == settled(
                        m6,
                        r.vars,
                        AnswerView::Truth(rt),
                        a,
                    ));
                    assert(m6.next(r.vars, AnswerView::Truth(rt)).evaluation == machine(
                        stack,
                        StateView::Value(truth_number(rt)),
                    ));
                }
            },
            OperatorClass::Binary => {
                let first = stack.push(FrameView::InfixLeft { operator, left: *left });
                assert(first.drop_last() =~= stack);
                assert(m0.next(vars, go).evaluation == machine(first, StateView::Eval(*right)));
                lemma_value(first, *right, vars, a);
                let r = value_of(*right, vars, a);
                let second = stack.push(FrameView::InfixApply { operator, right: r.value });
                assert(second.drop_last() =~= stack);
                let m2 = machine(first, StateView::Value(r.value));
                assert(m2.next(r.vars, go).evaluation == machine(second, StateView::Eval(*left)));
                lemma_value(second, *left, r.vars, a);
                let l = value_of(*left, r.vars, a);
                let m4 = machine(second, StateView::Value(l.value));
                let m5 = machine(stack.push(FrameView::Result), StateView::Waiting);
                let n = (a.binary)(operator, l.value, r.value);
                assert(m4.next(l.vars, go).evaluation == m5);
                assert(settled(m4, l.vars, go, a) == settled(m5, l.vars, AnswerView::Number(n), a));
                lemma_result(stack, n, l.vars, a);
            },
            OperatorClass::Unary => {
                lemma_two_sides(stack, *left, operator, *right, vars, a);
            },
            OperatorClass::Compound(base) => match *left {
                ExprView::Variable(name) => {
                    let inner = stack.push(FrameView::AssignTo { operator, name });
                    assert(inner.drop_last() =~= stack);
                    assert(m0.next(vars, go).evaluation == machine(inner, StateView::Eval(*right)));
                    lemma_value(inner, *right, vars, a);
                    let r = value_of(*right, vars, a);
                    let m2 = machine(inner, StateView::Value(r.value));
                    let m3 = machine(
                        stack.push(FrameView::Store { name, keep: None }),
                        StateView::Waiting,
                    );
                    let n = (a.binary)(base, number_of(value_in(r.vars, name)), r.value);
                    assert(m2.next(r.vars, go).evaluation == m3);
                    assert(settled(m2, r.vars, go, a) == settled(
                        m3,
                        r.vars,
                        AnswerView::Number(n),
                        a,
                    ));
                    lemma_store(stack, name, None, n, r.vars, a);
                },
                _ => {
                    lemma_two_sides(stack, *left, operator, *right, vars, a);
                },
            },
            OperatorClass::Assign => match *left {
                ExprView::Variable(name) => {
                    let inner = stack.push(FrameView::AssignTo { operator, name });
                    assert(inner.drop_last() =~= stack);
                    assert(m0.next(vars, go).evaluation == machine(inner, StateView::Eval(*right)));
                    lemma_value(inner, *right, vars, a);
                    let r = value_of(*right, vars, a);
                    let write = stack.push(FrameView::Write { name, result: r.value });
                    assert(write.drop_last() =~= stack);
                    let m2 = machine(inner, StateView::Value(r.value));
                    let m3 = machine(write, StateView::Waiting);
                    assert(m2.next(r.vars, go).evaluation == m3);
                    assert(settled(m2, r.vars, go, a) == settled(
                        m3,
                        r.vars,
                        AnswerView::Text((a.render)(r.value)),
                        a,
                    ));
                    assert(m3.next(r.vars, AnswerView::Text((a.render)(r.value))).evaluation
                        == machine(stack, StateView::Value(r.value)));
                },
                _ => {
                    lemma_two_sides(stack, *left, operator, *right, vars, a);
                },
            },
        },
    }
}

/// The evaluation of an operator that only evaluates its right side and
/// then its left side, whose value is its own.
proof fn lemma_two_sides(
    stack: Seq<FrameView>,
    left: ExprView,
    operator: Operator,
    right: ExprView,
    vars: Vars,
    a: Arithmetic,
)
    requires
        operator.class_of() is Unary || ((operator.class_of() is Assign || operator.class_of()
            is Compound) && !(left is Variable)),
    ensures
        ({
            let e = ExprView::Infix(Box::new(left), operator, Box::new(right));
            let r = value_of(right, vars, a);
            let l = value_of(left, r.vars, a);
            settled(machine(stack, StateView::Eval(e)), vars, AnswerView::Continue, a) == settled(
                machine(stack, StateView::Value(l.value)),
                l.vars,
                AnswerView::Continue,
                a,
            )
        }),
    decreases ExprView::Infix(Box::new(left), operator, Box::new(right)), 0nat,
{
    let go = AnswerView::Continue;
    let e = ExprView::Infix(Box::new(left), operator, Box::new(right));
    let m0 = machine(stack, StateView::Eval(e));
    let inner = stack.push(FrameView::ThenEval { next: left });
    assert(inner.drop_last() =~= stack);
    assert(m0.next(vars, go).evaluation == machine(inner, StateView::Eval(right)));
    lemma_value(inner, right, vars, a);
    let r = value_of(right, vars, a);
    let m2 = machine(inner, StateView::Value(r.value));
    assert(m2.next(r.vars, go).evaluation == machine(stack, StateView::Eval(left)));
    lemma_value(stack, left, r.vars, a);
}

/// The step-by-step evaluation of an expression, with every request
/// answered by the arithmetic `a`, ends with the value of the expression and
/// leaves the variables as its evaluation leaves them.
pub proof fn lemma_evaluation_means(e: ExprView, vars: Vars, a: Arithmetic)
    ensures
        settled(EvaluationView::start(e), vars, AnswerView::Continue, a) == Some(
            value_of(e, vars, a),
        ),
{
    let stack = seq![FrameView::Done];
    lemma_value(stack, e, vars, a);
    let v = value_of(e, vars, a);
    let m = machine(stack, StateView::Value(v.value));
    assert(m.next(v.vars, AnswerView::Continue).request == RequestView::Done(v.value));
}

} // verus!

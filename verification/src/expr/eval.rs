//! Evaluating an expression, in small steps. The evaluation decides what is
//! evaluated in which order, and reads and writes the variables; the
//! arithmetic on numbers is done by the caller: a step hands out a request,
//! and the next step takes the answer.

use crate::env::variables::{value_in, Variables};
use crate::expr::lexer::{number_of, read_number};
use crate::expr::types::{
    Condition, Expr, ExprView, Infix, Literal, LiteralView, Operator, OperatorClass, Prefix,
    Suffix,
};
use vstd::prelude::*;

verus! {

/// What an evaluation asks of its caller.
#[derive(Debug, PartialEq, Eq)]
pub enum Request {
    /// Nothing: take the next step.
    Continue,
    /// Combine two numbers with an operator.
    Binary { operator: Operator, left: Literal, right: Literal },
    /// The negative of a number, for `Subtract`, or the complement of its
    /// integer part, for `Negate`.
    Unary { operator: Operator, operand: Literal },
    /// Whether a number is other than zero.
    Truth(Literal),
    /// A number as text.
    Render(Literal),
    /// Nothing more: this is the value of the expression.
    Done(Literal),
    /// Nothing more: the answer did not fit the request, or the evaluation
    /// was over.
    Confused,
}

pub enum RequestView {
    Continue,
    Binary { operator: Operator, left: LiteralView, right: LiteralView },
    Unary { operator: Operator, operand: LiteralView },
    Truth(LiteralView),
    Render(LiteralView),
    Done(LiteralView),
    Confused,
}

impl View for Request {
    type V = RequestView;

    open spec fn view(&self) -> RequestView {
        match self {
            Request::Continue => RequestView::Continue,
            Request::Binary { operator, left, right } => RequestView::Binary {
                operator: *operator,
                left: left@,
                right: right@,
            },
            Request::Unary { operator, operand } => RequestView::Unary {
                operator: *operator,
                operand: operand@,
            },
            Request::Truth(n) => RequestView::Truth(n@),
            Request::Render(n) => RequestView::Render(n@),
            Request::Done(n) => RequestView::Done(n@),
            Request::Confused => RequestView::Confused,
        }
    }
}

/// What the caller answers.
#[derive(Debug, PartialEq, Eq)]
pub enum Answer {
    /// Nothing: the last request was `Continue`, or the evaluation has just
    /// begun.
    Continue,
    /// The number asked for.
    Number(Literal),
    /// Whether the number is other than zero.
    Truth(bool),
    /// The number as text.
    Text(String),
}

pub enum AnswerView {
    Continue,
    Number(LiteralView),
    Truth(bool),
    Text(Seq<char>),
}

impl View for Answer {
    type V = AnswerView;

    open spec fn view(&self) -> AnswerView {
        match self {
            Answer::Continue => AnswerView::Continue,
            Answer::Number(n) => AnswerView::Number(n@),
            Answer::Truth(b) => AnswerView::Truth(*b),
            Answer::Text(t) => AnswerView::Text(t@),
        }
    }
}

/// What is left to do with the value under way, or with the answer to a
/// request.
#[allow(inconsistent_fields)]
pub enum Frame {
    /// The value is the value of the whole expression.
    Done,
    /// The value is a condition: one of the two branches follows.
    Choice { on_true: Expr, on_false: Expr },
    /// The value is the right side of an operator; the left side follows.
    InfixLeft { operator: Operator, left: Expr },
    /// The value is the left side of an operator, to combine with `right`.
    InfixApply { operator: Operator, right: Literal },
    /// The number in the answer is the value.
    Result,
    /// The value does not count; `next` follows.
    ThenEval { next: Expr },
    /// The value is the left side of `&&` or `||`.
    LogicLeft { operator: Operator, right: Expr },
    /// The value is the right side of `&&` or `||`.
    LogicRight,
    /// The opposite of the truth in the answer is the value.
    Negation,
    /// The value is the operand of a unary operator.
    UnaryApply { operator: Operator },
    /// The value is the right side of an assignment to `name`.
    AssignTo { operator: Operator, name: String },
    /// The number in the answer is stored in `name`; the value is `keep`,
    /// or that number where there is no `keep`.
    Store { name: String, keep: Option<Literal> },
    /// The text in the answer is written to `name`; `result` is the value.
    Write { name: String, result: Literal },
}

#[allow(inconsistent_fields)]
pub enum FrameView {
    Done,
    Choice { on_true: ExprView, on_false: ExprView },
    InfixLeft { operator: Operator, left: ExprView },
    InfixApply { operator: Operator, right: LiteralView },
    Result,
    ThenEval { next: ExprView },
    LogicLeft { operator: Operator, right: ExprView },
    LogicRight,
    Negation,
    UnaryApply { operator: Operator },
    AssignTo { operator: Operator, name: Seq<char> },
    Store { name: Seq<char>, keep: Option<LiteralView> },
    Write { name: Seq<char>, result: LiteralView },
}

impl View for Frame {
    type V = FrameView;

    open spec fn view(&self) -> FrameView {
        match self {
            Frame::Done => FrameView::Done,
            Frame::Choice { on_true, on_false } => FrameView::Choice {
                on_true: on_true@,
                on_false: on_false@,
            },
            Frame::InfixLeft { operator, left } => FrameView::InfixLeft {
                operator: *operator,
                left: left@,
            },
            Frame::InfixApply { operator, right } => FrameView::InfixApply {
                operator: *operator,
                right: right@,
            },
            Frame::Result => FrameView::Result,
            Frame::ThenEval { next } => FrameView::ThenEval { next: next@ },
            Frame::LogicLeft { operator, right } => FrameView::LogicLeft {
                operator: *operator,
                right: right@,
            },
            Frame::LogicRight => FrameView::LogicRight,
            Frame::Negation => FrameView::Negation,
            Frame::UnaryApply { operator } => FrameView::UnaryApply { operator: *operator },
            Frame::AssignTo { operator, name } => FrameView::AssignTo {
                operator: *operator,
                name: name@,
            },
            Frame::Store { name, keep } => FrameView::Store {
                name: name@,
                keep: match keep {
                    Some(n) => Some(n@),
                    None => None,
                },
            },
            Frame::Write { name, result } => FrameView::Write { name: name@, result: result@ },
        }
    }
}

/// What an evaluation is about to do.
pub enum State {
    /// Evaluate an expression.
    Eval(Expr),
    /// Hand a value to the frame on top.
    Value(Literal),
    /// Take the answer to the request that was handed out.
    Waiting,
    /// Nothing: the evaluation is over.
    Finished,
}

pub enum StateView {
    Eval(ExprView),
    Value(LiteralView),
    Waiting,
    Finished,
}

impl View for State {
    type V = StateView;

    open spec fn view(&self) -> StateView {
        match self {
            State::Eval(e) => StateView::Eval(e@),
            State::Value(n) => StateView::Value(n@),
            State::Waiting => StateView::Waiting,
            State::Finished => StateView::Finished,
        }
    }
}

/// The state of an evaluation: what is left to do, and what comes next.
pub struct EvaluationView {
    pub stack: Seq<FrameView>,
    pub state: StateView,
}

/// The result of a step: the evaluation and the variables after it, and
/// the request handed out.
pub struct Evaluated {
    pub evaluation: EvaluationView,
    pub vars: Map<Seq<char>, Seq<char>>,
    pub request: RequestView,
}

/// The number one.
pub open spec fn one() -> LiteralView {
    LiteralView::Integer(1)
}

/// The number that stands for a truth value: one for true, zero for false.
pub open spec fn truth_number(b: bool) -> LiteralView {
    LiteralView::Integer(
        if b {
            1
        } else {
            0
        },
    )
}

/// The operator that `++` and `--` combine a variable and the number one
/// with.
pub open spec fn step_operator(operator: Operator) -> Operator {
    if operator == Operator::Increment {
        Operator::Add
    } else {
        Operator::Subtract
    }
}

impl EvaluationView {
    /// The evaluation of `e`, with nothing done.
    pub open spec fn start(e: ExprView) -> EvaluationView {
        EvaluationView { stack: seq![FrameView::Done], state: StateView::Eval(e) }
    }

    pub open spec fn pushed(self, frame: FrameView) -> EvaluationView {
        EvaluationView { stack: self.stack.push(frame), ..self }
    }

    pub open spec fn popped(self) -> EvaluationView {
        EvaluationView { stack: self.stack.drop_last(), ..self }
    }

    /// A step that asks nothing of the caller and goes on in `state`.
    pub open spec fn go(self, vars: Map<Seq<char>, Seq<char>>, state: StateView) -> Evaluated {
        Evaluated {
            evaluation: EvaluationView { state, ..self },
            vars,
            request: RequestView::Continue,
        }
    }

    /// A step that hands out `request` and takes the answer next.
    pub open spec fn ask(self, vars: Map<Seq<char>, Seq<char>>, request: RequestView) -> Evaluated {
        Evaluated { evaluation: EvaluationView { state: StateView::Waiting, ..self }, vars, request }
    }

    /// A step that ends the evaluation because the answer or the evaluation
    /// itself is not as it has to be.
    pub open spec fn confused(self, vars: Map<Seq<char>, Seq<char>>) -> Evaluated {
        Evaluated {
            evaluation: EvaluationView { state: StateView::Finished, ..self },
            vars,
            request: RequestView::Confused,
        }
    }

    /// One step of the evaluation: `vars` are the variables and `answer` is
    /// the answer to the request of the step before.
    pub open spec fn next(self, vars: Map<Seq<char>, Seq<char>>, answer: AnswerView) -> Evaluated {
        match self.state {
            StateView::Finished => self.confused(vars),
            StateView::Eval(e) => if answer is Continue {
                self.eval(vars, e)
            } else {
                self.confused(vars)
            },
            StateView::Value(n) => if answer is Continue {
                self.returned(vars, n)
            } else {
                self.confused(vars)
            },
            StateView::Waiting => self.answered(vars, answer),
        }
    }

    /// The step that begins to evaluate `e`. A number is its own value. A
    /// variable has the number that its value stands for. A condition begins
    /// with its first part. `++` and `--` on a variable ask for the variable's
    /// number plus or minus one, which is stored; on anything else they
    /// stand for the operand alone. `!` of a number asks for its truth; of
    /// anything else it is one. The other prefix operators begin with their
    /// operand. `&&` and `||` begin with their left side, every other
    /// operator between two operands with its right side.
    pub open spec fn eval(self, vars: Map<Seq<char>, Seq<char>>, e: ExprView) -> Evaluated {
        match e {
            ExprView::Number(n) => self.go(vars, StateView::Value(n)),
            ExprView::Variable(name) => self.go(
                vars,
                StateView::Value(number_of(value_in(vars, name))),
            ),
            ExprView::Condition(condition, on_true, on_false) => self.pushed(
                FrameView::Choice { on_true: *on_true, on_false: *on_false },
            ).go(vars, StateView::Eval(*condition)),
            ExprView::Prefix(operator, right) => match operator {
                Operator::Increment | Operator::Decrement => match *right {
                    ExprView::Variable(name) => self.pushed(
                        FrameView::Store { name, keep: None },
                    ).ask(
                        vars,
                        RequestView::Binary {
                            operator: step_operator(operator),
                            left: number_of(value_in(vars, name)),
                            right: one(),
                        },
                    ),
                    _ => self.go(vars, StateView::Eval(*right)),
                },
                Operator::Not => match *right {
                    ExprView::Number(n) => self.pushed(FrameView::Negation).ask(
                        vars,
                        RequestView::Truth(n),
                    ),
                    _ => self.go(vars, StateView::Value(one())),
                },
                Operator::Negate | Operator::Subtract => self.pushed(
                    FrameView::UnaryApply { operator },
                ).go(vars, StateView::Eval(*right)),
                _ => self.go(vars, StateView::Eval(*right)),
            },
            ExprView::Suffix(left, operator) => match operator {
                Operator::Increment | Operator::Decrement => match *left {
                    ExprView::Variable(name) => self.pushed(
                        FrameView::Store { name, keep: Some(number_of(value_in(vars, name))) },
                    ).ask(
                        vars,
                        RequestView::Binary {
                            operator: step_operator(operator),
                            left: number_of(value_in(vars, name)),
                            right: one(),
                        },
                    ),
                    _ => self.go(vars, StateView::Eval(*left)),
                },
                _ => self.go(vars, StateView::Eval(*left)),
            },
            ExprView::Infix(left, operator, right) => match operator.class_of() {
                OperatorClass::Logical => self.pushed(
                    FrameView::LogicLeft { operator, right: *right },
                ).go(vars, StateView::Eval(*left)),
                OperatorClass::Binary => self.pushed(
                    FrameView::InfixLeft { operator, left: *left },
                ).go(vars, StateView::Eval(*right)),
                OperatorClass::Unary => self.pushed(FrameView::ThenEval { next: *left }).go(
                    vars,
                    StateView::Eval(*right),
                ),
                _ => match *left {
                    ExprView::Variable(name) => self.pushed(
                        FrameView::AssignTo { operator, name },
                    ).go(vars, StateView::Eval(*right)),
                    _ => self.pushed(FrameView::ThenEval { next: *left }).go(
                        vars,
                        StateView::Eval(*right),
                    ),
                },
            },
        }
    }

    /// The step that hands the value `n` to the frame on top. At the bottom
    /// it is the value of the expression. The truth of a condition and of a
    /// side of `&&` or `||` is asked for. After the right side of an operator
    /// its left side follows; then the two are combined. The value to assign
    /// is stored as it is for `=`, and combined with the variable first for
    /// the other assignments.
    pub open spec fn returned(self, vars: Map<Seq<char>, Seq<char>>, n: LiteralView) -> Evaluated {
        if self.stack.len() == 0 {
            self.confused(vars)
        } else {
            let rest = self.popped();
            match self.stack.last() {
                FrameView::Done => Evaluated {
                    evaluation: EvaluationView { state: StateView::Finished, ..rest },
                    vars,
                    request: RequestView::Done(n),
                },
                FrameView::Choice { on_true, on_false } => self.ask(vars, RequestView::Truth(n)),
                FrameView::LogicLeft { operator, right } => self.ask(vars, RequestView::Truth(n)),
                FrameView::LogicRight => self.ask(vars, RequestView::Truth(n)),
                FrameView::InfixLeft { operator, left } => rest.pushed(
                    FrameView::InfixApply { operator, right: n },
                ).go(vars, StateView::Eval(left)),
                FrameView::InfixApply { operator, right } => rest.pushed(FrameView::Result).ask(
                    vars,
                    RequestView::Binary { operator, left: n, right },
                ),
                FrameView::ThenEval { next } => rest.go(vars, StateView::Eval(next)),
                FrameView::UnaryApply { operator } => rest.pushed(FrameView::Result).ask(
                    vars,
                    RequestView::Unary { operator, operand: n },
                ),
                FrameView::AssignTo { operator, name } => match operator.class_of() {
                    OperatorClass::Compound(base) => rest.pushed(
                        FrameView::Store { name, keep: None },
                    ).ask(
                        vars,
                        RequestView::Binary {
                            operator: base,
                            left: number_of(value_in(vars, name)),
                            right: n,
                        },
                    ),
                    _ => rest.pushed(FrameView::Write { name, result: n }).ask(
                        vars,
                        RequestView::Render(n),
                    ),
                },
                _ => rest.confused(vars),
            }
        }
    }

    /// The step that takes the answer to a request. The truth of a condition
    /// chooses the branch. `&&` is zero after a false left side and `||` is
    /// one after a true left side, without a look at the right side; else
    /// the right side follows, whose truth is the value. A number that is
    /// to be stored is asked for as text; the text is written to the
    /// variable.
    pub open spec fn answered(self, vars: Map<Seq<char>, Seq<char>>, answer: AnswerView) -> Evaluated {
        if self.stack.len() == 0 {
            self.confused(vars)
        } else {
            let rest = self.popped();
            match self.stack.last() {
                FrameView::Choice { on_true, on_false } => match answer {
                    AnswerView::Truth(b) => rest.go(
                        vars,
                        StateView::Eval(
                            if b {
                                on_true
                            } else {
                                on_false
                            },
                        ),
                    ),
                    _ => rest.confused(vars),
                },
                FrameView::LogicLeft { operator, right } => match answer {
                    AnswerView::Truth(b) => if operator == Operator::Or {
                        if b {
                            rest.go(vars, StateView::Value(truth_number(true)))
                        } else {
                            rest.pushed(FrameView::LogicRight).go(vars, StateView::Eval(right))
                        }
                    } else {
                        if b {
                            rest.pushed(FrameView::LogicRight).go(vars, StateView::Eval(right))
                        } else {
                            rest.go(vars, StateView::Value(truth_number(false)))
                        }
                    },
                    _ => rest.confused(vars),
                },
                FrameView::LogicRight => match answer {
                    AnswerView::Truth(b) => rest.go(vars, StateView::Value(truth_number(b))),
                    _ => rest.confused(vars),
                },
                FrameView::Negation => match answer {
                    AnswerView::Truth(b) => rest.go(vars, StateView::Value(truth_number(!b))),
                    _ => rest.confused(vars),
                },
                FrameView::Result => match answer {
                    AnswerView::Number(n) => rest.go(vars, StateView::Value(n)),
                    _ => rest.confused(vars),
                },
                FrameView::Store { name, keep } => match answer {
                    AnswerView::Number(n) => rest.pushed(
                        FrameView::Write {
                            name,
                            result: match keep {
                                Some(kept) => kept,
                                None => n,
                            },
                        },
                    ).ask(vars, RequestView::Render(n)),
                    _ => rest.confused(vars),
                },
                FrameView::Write { name, result } => match answer {
                    AnswerView::Text(text) => rest.go(
                        vars.insert(name, text),
                        StateView::Value(result),
                    ),
                    _ => rest.confused(vars),
                },
                _ => rest.confused(vars),
            }
        }
    }
}

/// An evaluation under way.
pub struct Evaluation {
    stack: Vec<Frame>,
    state: State,
}

impl View for Evaluation {
    type V = EvaluationView;

    closed spec fn view(&self) -> EvaluationView {
        EvaluationView {
            stack: Seq::new(self.stack@.len(), |i: int| self.stack@[i]@),
            state: self.state@,
        }
    }
}

fn step_of(operator: Operator) -> (r: Operator)
    ensures
        r == step_operator(operator),
{
    match operator {
        Operator::Increment => Operator::Add,
        _ => Operator::Subtract,
    }
}

fn number_for(b: bool) -> (n: Literal)
    ensures
        n@ == truth_number(b),
{
    if b {
        Literal::Integer(1)
    } else {
        Literal::Integer(0)
    }
}

impl Expr {
    /// Begins to evaluate the expression: the evaluation that is returned
    /// is taken through its steps by the caller, who does the arithmetic.
    pub fn evaluate(self) -> (r: Evaluation)
        ensures
            r@ == EvaluationView::start(self@),
    {
        Evaluation::new(self)
    }
}

impl Evaluation {
    /// The evaluation of `e`.
    pub fn new(e: Expr) -> (r: Evaluation)
        ensures
            r@ == EvaluationView::start(e@),
    {
        let r = Evaluation { stack: vec![Frame::Done], state: State::Eval(e) };
        assert(r@.stack =~= seq![FrameView::Done]);
        r
    }

    /// Whether the evaluation is over.
    pub fn is_finished(&self) -> (b: bool)
        ensures
            b == (self@.state is Finished),
    {
        match &self.state {
            State::Finished => true,
            _ => false,
        }
    }

    fn push(&mut self, frame: Frame)
        ensures
            final(self)@ == old(self)@.pushed(frame@),
    {
        self.stack.push(frame);
        assert(self@.stack =~= old(self)@.stack.push(frame@));
    }

    fn pop(&mut self) -> (f: Option<Frame>)
        ensures
            match f {
                Some(f) => old(self)@.stack.len() > 0 && f@ == old(self)@.stack.last()
                    && final(self)@ == old(self)@.popped(),
                None => old(self)@.stack.len() == 0 && final(self)@ == old(self)@,
            },
    {
        let f = self.stack.pop();
        proof {
            if f is Some {
                assert(self@.stack =~= old(self)@.stack.drop_last());
            } else {
                assert(self@.stack =~= old(self)@.stack);
            }
        }
        f
    }

    fn go(&mut self, state: State, Ghost(vars): Ghost<Map<Seq<char>, Seq<char>>>) -> (request:
        Request)
        ensures
            (Evaluated { evaluation: final(self)@, vars, request: request@ }) == old(self)@.go(
                vars,
                state@,
            ),
    {
        self.state = state;
        Request::Continue
    }

    fn ask(&mut self, request: Request, Ghost(vars): Ghost<Map<Seq<char>, Seq<char>>>) -> (r:
        Request)
        ensures
            (Evaluated { evaluation: final(self)@, vars, request: r@ }) == old(self)@.ask(
                vars,
                request@,
            ),
    {
        self.state = State::Waiting;
        request
    }

    fn confused(&mut self, Ghost(vars): Ghost<Map<Seq<char>, Seq<char>>>) -> (request: Request)
        ensures
            (Evaluated { evaluation: final(self)@, vars, request: request@ }) == old(
                self,
            )@.confused(vars),
    {
        self.state = State::Finished;
        Request::Confused
    }

    fn eval(&mut self, vars: &Variables, e: Expr) -> (request: Request)
        ensures
            (Evaluated { evaluation: final(self)@, vars: vars@, request: request@ }) == old(
                self,
            )@.eval(vars@, e@),
    {
        let ghost v = vars@;
        match e {
            Expr::Number(n) => self.go(State::Value(n), Ghost(v)),
            Expr::Variable(name) => {
                let n = read_number(vars.value(name.as_str()).as_str());
                self.go(State::Value(n), Ghost(v))
            },
            Expr::Condition(c) => {
                let c = *c;
                self.push(Frame::Choice { on_true: c.on_true, on_false: c.on_false });
                self.go(State::Eval(c.condition), Ghost(v))
            },
            Expr::Prefix(p) => {
                let p = *p;
                let operator = p.operator;
                match operator {
                    Operator::Increment | Operator::Decrement => match p.right {
                        Expr::Variable(name) => {
                            let current = read_number(vars.value(name.as_str()).as_str());
                            self.push(Frame::Store { name, keep: None });
                            self.ask(
                                Request::Binary {
                                    operator: step_of(operator),
                                    left: current,
                                    right: Literal::Integer(1),
                                },
                                Ghost(v),
                            )
                        },
                        other => self.go(State::Eval(other), Ghost(v)),
                    },
                    Operator::Not => match p.right {
                        Expr::Number(n) => {
                            self.push(Frame::Negation);
                            self.ask(Request::Truth(n), Ghost(v))
                        },
                        _ => self.go(State::Value(Literal::Integer(1)), Ghost(v)),
                    },
                    Operator::Negate | Operator::Subtract => {
                        self.push(Frame::UnaryApply { operator });
                        self.go(State::Eval(p.right), Ghost(v))
                    },
                    _ => self.go(State::Eval(p.right), Ghost(v)),
                }
            },
            Expr::Suffix(s) => {
                let s = *s;
                let operator = s.operator;
                match operator {
                    Operator::Increment | Operator::Decrement => match s.left {
                        Expr::Variable(name) => {
                            let current = read_number(vars.value(name.as_str()).as_str());
                            let kept = current.clone();
                            self.push(Frame::Store { name, keep: Some(kept) });
                            self.ask(
                                Request::Binary {
                                    operator: step_of(operator),
                                    left: current,
                                    right: Literal::Integer(1),
                                },
                                Ghost(v),
                            )
                        },
                        other => self.go(State::Eval(other), Ghost(v)),
                    },
                    _ => self.go(State::Eval(s.left), Ghost(v)),
                }
            },
            Expr::Infix(i) => {
                let i = *i;
                let operator = i.operator;
                match operator.class() {
                    OperatorClass::Logical => {
                        self.push(Frame::LogicLeft { operator, right: i.right });
                        self.go(State::Eval(i.left), Ghost(v))
                    },
                    OperatorClass::Binary => {
                        self.push(Frame::InfixLeft { operator, left: i.left });
                        self.go(State::Eval(i.right), Ghost(v))
                    },
                    OperatorClass::Unary => {
                        self.push(Frame::ThenEval { next: i.left });
                        self.go(State::Eval(i.right), Ghost(v))
                    },
                    _ => match i.left {
                        Expr::Variable(name) => {
                            self.push(Frame::AssignTo { operator, name });
                            self.go(State::Eval(i.right), Ghost(v))
                        },
                        other => {
                            self.push(Frame::ThenEval { next: other });
                            self.go(State::Eval(i.right), Ghost(v))
                        },
                    },
                }
            },
        }
    }

    fn returned(&mut self, vars: &Variables, n: Literal) -> (request: Request)
        ensures
            (Evaluated { evaluation: final(self)@, vars: vars@, request: request@ }) == old(
                self,
            )@.returned(vars@, n@),
    {
        let ghost v = vars@;
        let frame = match self.pop() {
            Some(frame) => frame,
            None => {
                return self.confused(Ghost(v));
            },
        };
        match frame {
            Frame::Done => {
                self.state = State::Finished;
                Request::Done(n)
            },
            Frame::Choice { on_true, on_false } => {
                self.push(Frame::Choice { on_true, on_false });
                assert(self@.stack =~= old(self)@.stack);
                self.ask(Request::Truth(n), Ghost(v))
            },
            Frame::LogicLeft { operator, right } => {
                self.push(Frame::LogicLeft { operator, right });
                assert(self@.stack =~= old(self)@.stack);
                self.ask(Request::Truth(n), Ghost(v))
            },
            Frame::LogicRight => {
                self.push(Frame::LogicRight);
                assert(self@.stack =~= old(self)@.stack);
                self.ask(Request::Truth(n), Ghost(v))
            },
            Frame::InfixLeft { operator, left } => {
                self.push(Frame::InfixApply { operator, right: n });
                self.go(State::Eval(left), Ghost(v))
            },
            Frame::InfixApply { operator, right } => {
                self.push(Frame::Result);
                self.ask(Request::Binary { operator, left: n, right }, Ghost(v))
            },
            Frame::ThenEval { next } => self.go(State::Eval(next), Ghost(v)),
            Frame::UnaryApply { operator } => {
                self.push(Frame::Result);
                self.ask(Request::Unary { operator, operand: n }, Ghost(v))
            },
            Frame::AssignTo { operator, name } => match operator.class() {
                OperatorClass::Compound(base) => {
                    let current = read_number(vars.value(name.as_str()).as_str());
                    self.push(Frame::Store { name, keep: None });
                    self.ask(Request::Binary { operator: base, left: current, right: n }, Ghost(v))
                },
                _ => {
                    let result = n.clone();
                    self.push(Frame::Write { name, result });
                    self.ask(Request::Render(n), Ghost(v))
                },
            },
            _ => self.confused(Ghost(v)),
        }
    }

    fn answered(&mut self, vars: &mut Variables, answer: Answer) -> (request: Request)
        ensures
            (Evaluated { evaluation: final(self)@, vars: final(vars)@, request: request@ }) == old(
                self,
            )@.answered(old(vars)@, answer@),
    {
        let ghost v = vars@;
        let frame = match self.pop() {
            Some(frame) => frame,
            None => {
                return self.confused(Ghost(v));
            },
        };
        match frame {
            Frame::Choice { on_true, on_false } => match answer {
                Answer::Truth(b) => {
                    if b {
                        self.go(State::Eval(on_true), Ghost(v))
                    } else {
                        self.go(State::Eval(on_false), Ghost(v))
                    }
                },
                _ => self.confused(Ghost(v)),
            },
            Frame::LogicLeft { operator, right } => match answer {
                Answer::Truth(b) => {
                    let is_or = match operator {
                        Operator::Or => true,
                        _ => false,
                    };
                    if is_or == b {
                        self.go(State::Value(number_for(b)), Ghost(v))
                    } else {
                        self.push(Frame::LogicRight);
                        self.go(State::Eval(right), Ghost(v))
                    }
                },
                _ => self.confused(Ghost(v)),
            },
            Frame::LogicRight => match answer {
                Answer::Truth(b) => self.go(State::Value(number_for(b)), Ghost(v)),
                _ => self.confused(Ghost(v)),
            },
            Frame::Negation => match answer {
                Answer::Truth(b) => self.go(State::Value(number_for(!b)), Ghost(v)),
                _ => self.confused(Ghost(v)),
            },
            Frame::Result => match answer {
                Answer::Number(n) => self.go(State::Value(n), Ghost(v)),
                _ => self.confused(Ghost(v)),
            },
            Frame::Store { name, keep } => match answer {
                Answer::Number(n) => {
                    let result = match keep {
                        Some(kept) => kept,
                        None => n.clone(),
                    };
                    self.push(Frame::Write { name, result });
                    self.ask(Request::Render(n), Ghost(v))
                },
                _ => self.confused(Ghost(v)),
            },
            Frame::Write { name, result } => match answer {
                Answer::Text(text) => {
                    vars.define(name.as_str(), text.as_str());
                    self.go(State::Value(result), Ghost(vars@))
                },
                _ => self.confused(Ghost(v)),
            },
            _ => self.confused(Ghost(v)),
        }
    }

    /// Takes one step: `answer` is the answer to the request of the step
    /// before, and the request to answer next is handed out.
    pub fn step(&mut self, vars: &mut Variables, answer: Answer) -> (request: Request)
        ensures
            final(self)@ == old(self)@.next(old(vars)@, answer@).evaluation,
            final(vars)@ == old(self)@.next(old(vars)@, answer@).vars,
            request@ == old(self)@.next(old(vars)@, answer@).request,
    {
        let ghost v = vars@;
        let mut state = State::Finished;
        std::mem::swap(&mut self.state, &mut state);
        let ghost taken = self@;
        match state {
            State::Finished => self.confused(Ghost(v)),
            State::Eval(e) => match answer {
                Answer::Continue => {
                    assert(taken.eval(v, e@) == old(self)@.eval(v, e@));
                    self.eval(vars, e)
                },
                _ => self.confused(Ghost(v)),
            },
            State::Value(n) => match answer {
                Answer::Continue => {
                    assert(taken.returned(v, n@) == old(self)@.returned(v, n@));
                    self.returned(vars, n)
                },
                _ => self.confused(Ghost(v)),
            },
            State::Waiting => {
                assert(taken.answered(v, answer@) == old(self)@.answered(v, answer@));
                self.answered(vars, answer)
            },
        }
    }
}

} // verus!

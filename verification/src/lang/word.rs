//! Words: the texts of a command line before expansion, and their
//! expansion against the variables.

use crate::env::variables::{value_in, Variables};
use crate::expr::errors::{Error, ErrorView};
use crate::expr::parser::{parse, parse_text, parsed_view};
use crate::expr::types::{Expr, ExprView};
use crate::text::{append_chars, chars_of, string_of};
use vstd::prelude::*;

verus! {

/// One part of a word.
#[derive(Debug, PartialEq, Eq)]
pub enum Token {
    /// A tilde at the start of a word: the user's home directory.
    Tilde,
    /// A quoted stretch, itself made of parts.
    Quoted(Word),
    /// A character written behind a backslash.
    Escape(char),
    /// A reference to a variable, by name.
    Variable(String),
    /// An arithmetic expression, itself written as a word.
    Expr(Word),
    /// Text that stands for itself.
    Slice(String),
}

/// A word: a sequence of parts.
#[derive(Debug, PartialEq, Eq)]
pub struct Word {
    pub parts: Vec<Token>,
}

/// What a part of a word stands for in contracts.
pub enum PartView {
    Tilde,
    Quoted(Seq<PartView>),
    Escape(char),
    Variable(Seq<char>),
    Expr(Seq<PartView>),
    Slice(Seq<char>),
}

impl View for Token {
    type V = PartView;

    open spec fn view(&self) -> PartView
        decreases self,
    {
        match self {
            Token::Tilde => PartView::Tilde,
            Token::Quoted(w) => PartView::Quoted(w.view()),
            Token::Escape(c) => PartView::Escape(*c),
            Token::Variable(name) => PartView::Variable(name@),
            Token::Expr(w) => PartView::Expr(w.view()),
            Token::Slice(text) => PartView::Slice(text@),
        }
    }
}

impl View for Word {
    type V = Seq<PartView>;

    open spec fn view(&self) -> Seq<PartView>
        decreases self,
    {
        Seq::new(
            self.parts@.len(),
            |i: int|
                if 0 <= i < self.parts@.len() {
                    self.parts@[i].view()
                } else {
                    PartView::Tilde
                },
        )
    }
}

impl Clone for Token {
    fn clone(&self) -> (r: Self)
        ensures
            r@ == self@,
    {
        self.duplicate()
    }
}

impl Clone for Word {
    fn clone(&self) -> (r: Self)
        ensures
            r@ == self@,
    {
        self.duplicate()
    }
}

/// The character that an escape stands for: `n` and `t` are line feed and
/// tab; a backslash, a quote of either kind, a blank, `$`, `|`, a backquote,
/// `&`, a brace and a line feed stand for themselves; anything else gives
/// the replacement character.
pub open spec fn escape_value(c: char) -> char {
    if c == 'n' {
        '\n'
    } else if c == 't' {
        '\t'
    } else if c == '\\' || c == '"' || c == '\'' || c == ' ' || c == '$' || c == '|' || c == '`'
        || c == '&' || c == '{' || c == '}' || c == '\n' {
        c
    } else {
        '\u{FFFD}'
    }
}

/// The character that the escape `c` stands for.
pub fn unescape(c: char) -> (r: char)
    ensures
        r == escape_value(c),
{
    if c == 'n' {
        '\n'
    } else if c == 't' {
        '\t'
    } else if c == '\\' || c == '"' || c == '\'' || c == ' ' || c == '$' || c == '|' || c == '`'
        || c == '&' || c == '{' || c == '}' || c == '\n' {
        c
    } else {
        '\u{FFFD}'
    }
}

/// One instruction of the expansion of a word. A word is expanded from left
/// to right into a text; what stands between `Open` and `Close` is the text
/// of an arithmetic expression, whose value takes its place.
#[derive(Debug, PartialEq, Eq)]
pub enum Op {
    /// Write a text.
    Text(String),
    /// Write a character.
    Char(char),
    /// Write the value of a variable.
    Variable(String),
    /// Write the value of `HOME`.
    Home,
    /// Start the text of an expression.
    Open,
    /// End the text of an expression.
    Close,
}

pub enum OpView {
    Text(Seq<char>),
    Char(char),
    Variable(Seq<char>),
    Home,
    Open,
    Close,
}

impl View for Op {
    type V = OpView;

    open spec fn view(&self) -> OpView {
        match self {
            Op::Text(t) => OpView::Text(t@),
            Op::Char(c) => OpView::Char(*c),
            Op::Variable(n) => OpView::Variable(n@),
            Op::Home => OpView::Home,
            Op::Open => OpView::Open,
            Op::Close => OpView::Close,
        }
    }
}

/// What a sequence of instructions stands for in contracts.
pub open spec fn ops_view(ops: Seq<Op>) -> Seq<OpView> {
    Seq::new(ops.len(), |i: int| ops[i]@)
}

/// The instructions of one part. A quoted stretch expands as its parts do;
/// the parts of an expression stand between `Open` and `Close`.
pub open spec fn part_ops(part: PartView) -> Seq<OpView>
    decreases part, 0nat,
{
    match part {
        PartView::Tilde => seq![OpView::Home],
        PartView::Quoted(inner) => ops_upto(inner, inner.len()),
        PartView::Escape(c) => seq![OpView::Char(escape_value(c))],
        PartView::Variable(name) => seq![OpView::Variable(name)],
        PartView::Expr(inner) => seq![OpView::Open] + ops_upto(inner, inner.len()) + seq![
            OpView::Close,
        ],
        PartView::Slice(text) => seq![OpView::Text(text)],
    }
}

/// The instructions of the first `n` parts, in order.
pub open spec fn ops_upto(parts: Seq<PartView>, n: nat) -> Seq<OpView>
    decreases parts, n,
{
    if n == 0 || n > parts.len() {
        Seq::empty()
    } else {
        ops_upto(parts, (n - 1) as nat) + part_ops(parts[n - 1])
    }
}

/// The instructions of a whole word.
pub open spec fn word_ops(parts: Seq<PartView>) -> Seq<OpView> {
    ops_upto(parts, parts.len())
}

impl Token {
    /// A copy of the part.
    pub fn duplicate(&self) -> (r: Token)
        ensures
            r@ == self@,
        decreases self, 0nat,
    {
        match self {
            Token::Tilde => Token::Tilde,
            Token::Quoted(w) => Token::Quoted(w.duplicate()),
            Token::Escape(c) => Token::Escape(*c),
            Token::Variable(name) => Token::Variable(name.clone()),
            Token::Expr(w) => Token::Expr(w.duplicate()),
            Token::Slice(text) => Token::Slice(text.clone()),
        }
    }

    /// Appends the instructions of this part to `out`.
    fn emit(&self, out: &mut Vec<Op>)
        ensures
            ops_view(final(out)@) == ops_view(old(out)@) + part_ops(self@),
        decreases self, 0nat,
    {
        match self {
            Token::Tilde => {
                out.push(Op::Home);
            },
            Token::Quoted(w) => {
                w.emit(out);
            },
            Token::Escape(c) => {
                out.push(Op::Char(unescape(*c)));
            },
            Token::Variable(name) => {
                out.push(Op::Variable(name.clone()));
            },
            Token::Expr(w) => {
                out.push(Op::Open);
                let ghost opened = ops_view(out@);
                w.emit(out);
                let ghost filled = ops_view(out@);
                out.push(Op::Close);
                assert(ops_view(out@) =~= filled + seq![OpView::Close]);
                assert(opened =~= ops_view(old(out)@) + seq![OpView::Open]);
            },
            Token::Slice(text) => {
                out.push(Op::Text(text.clone()));
            },
        }
        assert(ops_view(out@) =~= ops_view(old(out)@) + part_ops(self@));
    }
}

impl Word {
    /// A word without parts.
    pub fn new() -> (w: Word)
        ensures
            w@ == Seq::<PartView>::empty(),
    {
        let w = Word { parts: Vec::new() };
        assert(w@ =~= Seq::<PartView>::empty());
        w
    }

    /// A word of one part, the text `text` that stands for itself.
    pub fn literal(text: &str) -> (w: Word)
        ensures
            w@ == seq![PartView::Slice(text@)],
    {
        let w = Word { parts: vec![Token::Slice(text.to_owned())] };
        assert(w@ =~= seq![PartView::Slice(text@)]);
        w
    }

    /// A word made of the given parts.
    pub fn from(parts: Vec<Token>) -> (w: Word)
        ensures
            w.parts == parts,
    {
        Word { parts }
    }

    /// A copy of the word.
    #[verifier::loop_isolation(false)]
    pub fn duplicate(&self) -> (r: Word)
        ensures
            r@ == self@,
        decreases self, 1nat,
    {
        let mut parts: Vec<Token> = Vec::new();
        let mut i: usize = 0;
        while i < self.parts.len()
            invariant
                i <= self.parts.len(),
                parts@.len() == i,
                forall|k: int| 0 <= k < i ==> parts@[k]@ == self.parts@[k]@,
            decreases self.parts.len() - i,
        {
            parts.push(self.parts[i].duplicate());
            i += 1;
        }
        let r = Word { parts };
        assert(r@ =~= self@);
        r
    }

    /// Appends the instructions of this word to `out`.
    #[verifier::loop_isolation(false)]
    fn emit(&self, out: &mut Vec<Op>)
        ensures
            ops_view(final(out)@) == ops_view(old(out)@) + word_ops(self@),
        decreases self, 1nat,
    {
        let mut i: usize = 0;
        assert(ops_view(out@) =~= ops_view(old(out)@) + ops_upto(self@, 0));
        while i < self.parts.len()
            invariant
                i <= self.parts.len(),
                ops_view(out@) == ops_view(old(out)@) + ops_upto(self@, i as nat),
            decreases self.parts.len() - i,
        {
            let ghost before = ops_view(out@);
            self.parts[i].emit(out);
            i += 1;
            assert(ops_view(out@) =~= ops_view(old(out)@) + ops_upto(self@, i as nat));
        }
    }

    /// The instructions that expand this word.
    pub fn program(&self) -> (ops: Vec<Op>)
        ensures
            ops_view(ops@) == word_ops(self@),
    {
        let mut ops: Vec<Op> = Vec::new();
        self.emit(&mut ops);
        assert(ops_view(ops@) =~= word_ops(self@));
        ops
    }
}

/// The name of the variable that a tilde stands for.
pub open spec fn home_name() -> Seq<char> {
    seq!['H', 'O', 'M', 'E']
}

/// The state of an expansion: the instructions, how many of them are done,
/// and the texts under way. The last text is the one being written; the
/// texts before it wait for the values of the expressions that they hold.
pub struct ExpansionView {
    pub ops: Seq<OpView>,
    pub pc: nat,
    pub buffers: Seq<Seq<char>>,
}

/// How far an expansion has come.
pub enum Progress {
    /// The word is expanded: this is its text.
    Done(String),
    /// An expression has to be evaluated: its value is due with the next
    /// call.
    Evaluate(Expr),
    /// The text of an expression could not be read.
    Failed(Error),
}

pub enum ProgressView {
    Done(Seq<char>),
    Evaluate(ExprView),
    Failed(ErrorView),
}

impl View for Progress {
    type V = ProgressView;

    open spec fn view(&self) -> ProgressView {
        match self {
            Progress::Done(text) => ProgressView::Done(text@),
            Progress::Evaluate(e) => ProgressView::Evaluate(e@),
            Progress::Failed(e) => ProgressView::Failed(e@),
        }
    }
}

/// Where a run of an expansion has stopped, and how.
pub struct Ran {
    pub progress: ProgressView,
    pub state: ExpansionView,
}

impl ExpansionView {
    /// The expansion of the word `parts`, with nothing done.
    pub open spec fn start(parts: Seq<PartView>) -> ExpansionView {
        ExpansionView { ops: word_ops(parts), pc: 0, buffers: seq![Seq::empty()] }
    }

    /// The state after `text` has been written and one instruction is done.
    pub open spec fn written(self, text: Seq<char>) -> ExpansionView {
        ExpansionView { pc: self.pc + 1, ..self.supplied(text) }
    }

    /// The state after `text` has been written.
    pub open spec fn supplied(self, text: Seq<char>) -> ExpansionView {
        if self.buffers.len() == 0 {
            self
        } else {
            ExpansionView {
                buffers: self.buffers.update(self.buffers.len() - 1, self.buffers.last() + text),
                ..self
            }
        }
    }

    /// Runs from the present instruction on, against the variables `vars`,
    /// until the word is expanded or the text of an expression is complete.
    /// Instructions are done in order: texts, characters and the values of
    /// variables are written as they come; a variable without a value writes
    /// nothing. At the end of an expression its text is read as an
    /// expression, which is handed out, or the failure to read it.
    pub open spec fn proceed(self, vars: Map<Seq<char>, Seq<char>>) -> Ran
        decreases self.ops.len() - self.pc,
    {
        if self.pc >= self.ops.len() || self.buffers.len() == 0 {
            Ran {
                progress: ProgressView::Done(
                    if self.buffers.len() > 0 {
                        self.buffers.last()
                    } else {
                        Seq::empty()
                    },
                ),
                state: self,
            }
        } else {
            match self.ops[self.pc as int] {
                OpView::Text(text) => self.written(text).proceed(vars),
                OpView::Char(c) => self.written(seq![c]).proceed(vars),
                OpView::Variable(name) => self.written(value_in(vars, name)).proceed(vars),
                OpView::Home => self.written(value_in(vars, home_name())).proceed(vars),
                OpView::Open => ExpansionView {
                    pc: self.pc + 1,
                    buffers: self.buffers.push(Seq::empty()),
                    ..self
                }.proceed(vars),
                OpView::Close => {
                    let state = ExpansionView {
                        pc: self.pc + 1,
                        buffers: self.buffers.drop_last(),
                        ..self
                    };
                    match parse_text(self.buffers.last()) {
                        Ok(e) => Ran { progress: ProgressView::Evaluate(e), state },
                        Err(e) => Ran { progress: ProgressView::Failed(e), state },
                    }
                },
            }
        }
    }

    /// The run that follows when `value` is given for the expression handed
    /// out last; with `None`, the run from the state as it is.
    pub open spec fn resumed(self, value: Option<Seq<char>>, vars: Map<Seq<char>, Seq<char>>) -> Ran {
        match value {
            Some(v) => self.supplied(v).proceed(vars),
            None => self.proceed(vars),
        }
    }
}

/// An expansion under way. The caller evaluates the expressions: it calls
/// `resume` until that returns the text, and gives with each call the value
/// of the expression that the call before handed out.
pub struct Expansion {
    ops: Vec<Op>,
    pc: usize,
    buffers: Vec<Vec<char>>,
}

/// What an optional text stands for in contracts.
pub open spec fn text_view(value: Option<&str>) -> Option<Seq<char>> {
    match value {
        Some(v) => Some(v@),
        None => None,
    }
}

impl View for Expansion {
    type V = ExpansionView;

    closed spec fn view(&self) -> ExpansionView {
        ExpansionView {
            ops: ops_view(self.ops@),
            pc: self.pc as nat,
            buffers: Seq::new(self.buffers@.len(), |i: int| self.buffers@[i]@),
        }
    }
}

impl Word {
    /// Begins to expand the word: the expansion that is returned is taken
    /// through its steps by the caller, who evaluates the expressions.
    pub fn compile(&self) -> (e: Expansion)
        ensures
            e@ == ExpansionView::start(self@),
    {
        Expansion::new(self)
    }
}

impl Expansion {
    /// Starts the expansion of `word`.
    pub fn new(word: &Word) -> (e: Expansion)
        ensures
            e@ == ExpansionView::start(word@),
    {
        let e = Expansion { ops: word.program(), pc: 0, buffers: vec![Vec::new()] };
        assert(e@.buffers =~= seq![Seq::<char>::empty()]);
        e
    }

    fn write(&mut self, text: &Vec<char>)
        requires
            old(self).buffers@.len() > 0,
        ensures
            final(self)@ == old(self)@.supplied(text@),
            final(self).pc == old(self).pc,
            final(self).ops == old(self).ops,
            final(self).buffers@.len() == old(self).buffers@.len(),
    {
        let mut top = match self.buffers.pop() {
            Some(top) => top,
            None => Vec::new(),
        };
        append_chars(&mut top, text);
        self.buffers.push(top);
        assert(self@.buffers =~= old(self)@.supplied(text@).buffers);
    }

    /// Goes on with the expansion against the variables `vars`. `value` is
    /// the value of the expression that the last call handed out, and `None`
    /// at the first call.
    pub fn resume(&mut self, vars: &Variables, value: Option<&str>) -> (p: Progress)
        ensures
            p@ == old(self)@.resumed(text_view(value), vars@).progress,
            final(self)@ == old(self)@.resumed(text_view(value), vars@).state,
    {
        let ghost goal = old(self)@.resumed(text_view(value), vars@);
        match value {
            Some(v) => {
                if self.buffers.len() > 0 {
                    self.write(&chars_of(v));
                }
            },
            None => {},
        }
        proof {
            reveal_strlit("HOME");
            assert("HOME"@ =~= home_name());
        }
        while self.pc < self.ops.len() && self.buffers.len() > 0
            invariant
                self@.proceed(vars@) == goal,
                goal == old(self)@.resumed(text_view(value), vars@),
                "HOME"@ == home_name(),
            decreases self.ops.len() - self.pc,
        {
            let ghost before = self@;
            assert(before.ops[before.pc as int] == self.ops@[self.pc as int]@);
            match &self.ops[self.pc] {
                Op::Text(text) => {
                    let text = chars_of(text.as_str());
                    self.write(&text);
                    self.pc = self.pc + 1;
                    assert(self@ == before.written(text@));
                },
                Op::Char(c) => {
                    let text = vec![*c];
                    assert(text@ =~= seq![*c]);
                    self.write(&text);
                    self.pc = self.pc + 1;
                    assert(self@ == before.written(seq![*c]));
                },
                Op::Variable(name) => {
                    let text = chars_of(vars.value(name.as_str()).as_str());
                    self.write(&text);
                    self.pc = self.pc + 1;
                    assert(self@ == before.written(text@));
                },
                Op::Home => {
                    let text = chars_of(vars.value("HOME").as_str());
                    self.write(&text);
                    self.pc = self.pc + 1;
                    assert(self@ == before.written(text@));
                },
                Op::Open => {
                    self.buffers.push(Vec::new());
                    self.pc = self.pc + 1;
                    assert(self@.buffers =~= before.buffers.push(Seq::empty()));
                    assert(self@ == (ExpansionView {
                        pc: before.pc + 1,
                        buffers: before.buffers.push(Seq::empty()),
                        ..before
                    }));
                },
                Op::Close => {
                    let text = match self.buffers.pop() {
                        Some(text) => text,
                        None => Vec::new(),
                    };
                    self.pc = self.pc + 1;
                    assert(self@.buffers =~= before.buffers.drop_last());
                    assert(self@ == (ExpansionView {
                        pc: before.pc + 1,
                        buffers: before.buffers.drop_last(),
                        ..before
                    }));
                    assert(text@ == before.buffers.last());
                    let source = string_of(&text);
                    let parsed = parse(source.as_str());
                    assert(parsed_view(parsed) == parse_text(before.buffers.last()));
                    assert(before.ops[before.pc as int] == OpView::Close);
                    assert(before.proceed(vars@).state == self@);
                    return match parsed {
                        Ok(e) => {
                            assert(before.proceed(vars@).progress == ProgressView::Evaluate(e@));
                            Progress::Evaluate(e)
                        },
                        Err(e) => {
                            assert(before.proceed(vars@).progress == ProgressView::Failed(e@));
                            Progress::Failed(e)
                        },
                    };
                },
            }
            assert(before.proceed(vars@) == self@.proceed(vars@));
        }
        if self.buffers.len() > 0 {
            Progress::Done(string_of(&self.buffers[self.buffers.len() - 1]))
        } else {
            Progress::Done(String::new())
        }
    }
}

} // verus!

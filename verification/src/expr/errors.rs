//! What can go wrong while an expression is read, and where.

use crate::text::{append_chars, chars_of, decimal, render_decimal, string_of};
use vstd::prelude::*;

verus! {

/// The kinds of failure.
#[derive(Debug, Clone, Copy, PartialEq, Eq, Structural)]
pub enum ErrorKind {
    InvalidCharacter(char),
    InvalidToken,
    InvalidPrefixOperator,
    InvalidInfixOperator,
    ExpectingTernaryElse,
    ExpectingRightParentheses,
    InvalidNumber,
    UnexpectedEof,
}

/// Where in the input a failure was found.
#[derive(Debug, PartialEq, Eq)]
pub struct Context {
    pub input: String,
    pub token: String,
    pub column: usize,
    pub line: usize,
}

/// A failure, with the place where it was found once that is known.
#[derive(Debug, PartialEq, Eq)]
pub struct Error {
    pub parser_context: Option<Context>,
    pub kind: ErrorKind,
}

pub struct ContextView {
    pub input: Seq<char>,
    pub token: Seq<char>,
    pub column: nat,
    pub line: nat,
}

pub struct ErrorView {
    pub kind: ErrorKind,
    pub context: Option<ContextView>,
}

impl View for Context {
    type V = ContextView;

    open spec fn view(&self) -> ContextView {
        ContextView {
            input: self.input@,
            token: self.token@,
            column: self.column as nat,
            line: self.line as nat,
        }
    }
}

impl View for Error {
    type V = ErrorView;

    open spec fn view(&self) -> ErrorView {
        ErrorView {
            kind: self.kind,
            context: match self.parser_context {
                Some(c) => Some(c@),
                None => None,
            },
        }
    }
}

/// `n` copies of `c`.
pub open spec fn repeated(c: char, n: nat) -> Seq<char> {
    Seq::new(n, |i: int| c)
}

impl ErrorKind {
    /// The sentence that describes a kind of failure.
    pub open spec fn description(self) -> Seq<char> {
        match self {
            ErrorKind::InvalidCharacter(c) => "unable to parse string, illegal character '"@
                + seq![c] + "'"@,
            ErrorKind::InvalidToken => "invalid token"@,
            ErrorKind::InvalidPrefixOperator =>
                "unexpected prefix operator, Expecting one of ~, !, +, -, ++, --, a number, or a variable."@,
            ErrorKind::InvalidInfixOperator =>
                "unexpected infix operator, expecting an operator like +, -, *, %, etc."@,
            ErrorKind::ExpectingTernaryElse =>
                "expecting a ternary condition 'else' block beginning with ':'"@,
            ErrorKind::ExpectingRightParentheses => "expecting right parentheses"@,
            ErrorKind::InvalidNumber =>
                "invalid number, please only use numbers, unary +/-, decimal points, and exponents."@,
            ErrorKind::UnexpectedEof => "unexpected end-of-expression"@,
        }
    }

    fn describe(&self) -> (v: Vec<char>)
        ensures
            v@ == self.description(),
    {
        match self {
            ErrorKind::InvalidCharacter(c) => {
                let mut v = chars_of("unable to parse string, illegal character '");
                v.push(*c);
                append_chars(&mut v, &chars_of("'"));
                v
            },
            ErrorKind::InvalidToken => chars_of("invalid token"),
            ErrorKind::InvalidPrefixOperator => chars_of(
                "unexpected prefix operator, Expecting one of ~, !, +, -, ++, --, a number, or a variable.",
            ),
            ErrorKind::InvalidInfixOperator => chars_of(
                "unexpected infix operator, expecting an operator like +, -, *, %, etc.",
            ),
            ErrorKind::ExpectingTernaryElse => chars_of(
                "expecting a ternary condition 'else' block beginning with ':'",
            ),
            ErrorKind::ExpectingRightParentheses => chars_of("expecting right parentheses"),
            ErrorKind::InvalidNumber => chars_of(
                "invalid number, please only use numbers, unary +/-, decimal points, and exponents.",
            ),
            ErrorKind::UnexpectedEof => chars_of("unexpected end-of-expression"),
        }
    }

    /// The description of this kind of failure, as text.
    pub fn message(&self) -> (s: String)
        ensures
            s@ == self.description(),
    {
        string_of(&self.describe())
    }
}

impl ContextView {
    /// The margin of the lines that carry no line number: as wide as the
    /// line number, then a blank and a bar.
    pub open spec fn margin(self) -> Seq<char> {
        repeated(' ', decimal(self.line).len()) + seq![' ', '|']
    }

    /// Three lines: an empty one under the margin; the line number and the
    /// input; and carets under the offending token, one for each of its
    /// characters, `column` places into the input.
    pub open spec fn rendering(self) -> Seq<char> {
        self.margin() + seq!['\n'] + decimal(self.line) + seq![' ', '|', ' ', ' '] + self.input
            + seq!['\n'] + self.margin() + seq![' ', ' '] + repeated(' ', self.column) + repeated(
            '^',
            self.token.len(),
        ) + seq!['\n']
    }
}

fn push_repeated(v: &mut Vec<char>, c: char, n: usize)
    ensures
        final(v)@ == old(v)@ + repeated(c, n as nat),
{
    let mut i: usize = 0;
    while i < n
        invariant
            i <= n,
            v@ == old(v)@ + repeated(c, i as nat),
        decreases n - i,
    {
        v.push(c);
        assert(repeated(c, (i + 1) as nat) =~= repeated(c, i as nat).push(c));
        i += 1;
    }
    assert(old(v)@ + repeated(c, 0) =~= old(v)@);
}

impl Context {
    fn render_chars(&self) -> (v: Vec<char>)
        ensures
            v@ == self@.rendering(),
    {
        let number = render_decimal(self.line as u64);
        let token = chars_of(self.token.as_str());
        let mut margin: Vec<char> = Vec::new();
        push_repeated(&mut margin, ' ', number.len());
        margin.push(' ');
        margin.push('|');
        assert(margin@ =~= self@.margin());
        let mut v: Vec<char> = Vec::new();
        append_chars(&mut v, &margin);
        v.push('\n');
        append_chars(&mut v, &number);
        append_chars(&mut v, &chars_of(" |  "));
        append_chars(&mut v, &chars_of(self.input.as_str()));
        v.push('\n');
        append_chars(&mut v, &margin);
        v.push(' ');
        v.push(' ');
        push_repeated(&mut v, ' ', self.column);
        push_repeated(&mut v, '^', token.len());
        v.push('\n');
        proof {
            reveal_strlit(" |  ");
            assert(" |  "@ =~= seq![' ', '|', ' ', ' ']);
            assert(v@ =~= self@.rendering());
        }
        v
    }

    /// The three lines that point at the offending token.
    pub fn render(&self) -> (s: String)
        ensures
            s@ == self@.rendering(),
    {
        string_of(&self.render_chars())
    }
}

impl Clone for Context {
    fn clone(&self) -> (r: Self)
        ensures
            r@ == self@,
    {
        Context {
            input: self.input.clone(),
            token: self.token.clone(),
            column: self.column,
            line: self.line,
        }
    }
}

impl ErrorView {
    /// The description of the failure on a line of its own, then the lines
    /// that point at the place, if it is known.
    pub open spec fn rendering(self) -> Seq<char> {
        self.kind.description() + seq!['\n'] + match self.context {
            Some(c) => c.rendering(),
            None => Seq::empty(),
        }
    }
}

impl Error {
    /// A failure of the given kind whose place is not known yet.
    pub fn new(kind: ErrorKind) -> (e: Error)
        ensures
            e@ == (ErrorView { kind, context: None }),
    {
        Error { parser_context: None, kind }
    }

    pub fn kind(&self) -> (k: &ErrorKind)
        ensures
            *k == self@.kind,
    {
        &self.kind
    }

    /// The same failure, found at `ctx`.
    pub fn with(self, ctx: Context) -> (e: Error)
        ensures
            e@ == (ErrorView { kind: self@.kind, context: Some(ctx@) }),
    {
        Error { parser_context: Some(ctx), kind: self.kind }
    }

    /// The whole diagnostic text.
    pub fn message(&self) -> (s: String)
        ensures
            s@ == self@.rendering(),
    {
        let mut v = self.kind.describe();
        v.push('\n');
        match &self.parser_context {
            Some(c) => {
                append_chars(&mut v, &c.render_chars());
            },
            None => {
                assert(v@ + Seq::<char>::empty() =~= v@);
            },
        }
        string_of(&v)
    }
}

} // verus!

//! Builds expression trees from tokens, by precedence climbing with one
//! token of lookahead.

use crate::expr::errors::{Context, ContextView, Error, ErrorKind, ErrorView};
use crate::expr::lexer::{lemma_step_advances, step, TokenStream};
use crate::expr::types::{
    Condition, Expr, ExprView, Infix, Literal, LiteralView, Operator, Precedence, Prefix, Suffix,
    Token, TokenView,
};
use crate::text::string_of;
use vstd::prelude::*;

verus! {

/// The state of a parser: the text, how far the lexer has read it, the
/// lexer's column, the token that was read ahead, and the parser's own
/// column.
pub struct ParserView {
    pub text: Seq<char>,
    pub position: int,
    pub stream_column: nat,
    pub peek: Option<TokenView>,
    pub column: nat,
}

/// The result of taking one token.
pub struct Advanced {
    pub outcome: Result<Option<TokenView>, ErrorView>,
    pub parser: ParserView,
}

impl ParserView {
    pub open spec fn well_formed(self) -> bool {
        0 <= self.position <= self.text.len()
    }

    /// A bound on the tokens that are still to come: the unread characters
    /// and the token read ahead.
    pub open spec fn remaining(self) -> nat {
        if self.well_formed() {
            (self.text.len() - self.position + if self.peek is Some {
                1int
            } else {
                0int
            }) as nat
        } else {
            0
        }
    }

    /// A parser over `text` that has read nothing.
    pub open spec fn start(text: Seq<char>) -> ParserView {
        ParserView { text, position: 0, stream_column: 1, peek: None, column: 1 }
    }

    /// A failure of the given kind at the parser's column, on the token
    /// written as `token`.
    pub open spec fn failure(self, kind: ErrorKind, token: Seq<char>) -> ErrorView {
        ErrorView {
            kind,
            context: Some(
                ContextView { input: self.text, token, column: self.column, line: 1 },
            ),
        }
    }

    /// The failure reported when the text ends where an operand is due: it
    /// points behind the last character.
    pub open spec fn end_of_text(self) -> ErrorView {
        ErrorView {
            kind: ErrorKind::UnexpectedEof,
            context: Some(
                ContextView {
                    input: self.text,
                    token: seq![' '],
                    column: self.text.len(),
                    line: 1,
                },
            ),
        }
    }

    /// Takes one token: hands out the token read ahead and reads the next
    /// one ahead. The parser's column becomes the lexer's column from before
    /// that reading. A failure of the lexer is reported at that column, and
    /// leaves the token read ahead in place.
    pub open spec fn advance(self) -> Advanced {
        let lexed = step(self.text, self.position);
        let moved = ParserView {
            text: self.text,
            position: lexed.position,
            stream_column: self.position as nat,
            peek: self.peek,
            column: self.stream_column,
        };
        match lexed.outcome {
            Some(Err(e)) => Advanced {
                outcome: Err(moved.failure(e.kind, seq![' '])),
                parser: moved,
            },
            Some(Ok(t)) => Advanced {
                outcome: Ok(self.peek),
                parser: ParserView { peek: Some(t), ..moved },
            },
            None => Advanced { outcome: Ok(self.peek), parser: ParserView { peek: None, ..moved } },
        }
    }

    /// An operand that must be there: where none is found, the text has
    /// ended too early.
    pub open spec fn required(self, precedence: Precedence) -> Result<
        (ExprView, ParserView),
        ErrorView,
    >
        decreases self.remaining(), 3int,
        when self.well_formed()
    {
        match self.operand(precedence) {
            Err(e) => Err(e),
            Ok((Some(e), q)) => Ok((e, q)),
            Ok((None, q)) => Err(self.end_of_text()),
        }
    }

    /// An operand and the operators that follow it and bind before
    /// `precedence`; `None` where no token is left. The operand is a number,
    /// a name, a prefix operator with its operand, or an expression in
    /// parentheses.
    pub open spec fn operand(self, precedence: Precedence) -> Result<
        (Option<ExprView>, ParserView),
        ErrorView,
    >
        decreases self.remaining(), 2int,
        when self.well_formed()
    {
        let a = self.advance();
        let q = a.parser;
        match a.outcome {
            Err(e) => Err(e),
            Ok(None) => Ok((None, q)),
            Ok(Some(token)) => {
                proof {
                    lemma_advance_progress(self);
                }
                match token {
                    TokenView::Number(n) => q.continued(
                        ExprView::Number(LiteralView::Integer(n)),
                        precedence,
                    ),
                    TokenView::FloatingNumber(text) => q.continued(
                        ExprView::Number(LiteralView::Decimal(text)),
                        precedence,
                    ),
                    TokenView::Variable(name) => q.continued(ExprView::Variable(name), precedence),
                    TokenView::Operator(operator) => if !operator.prefix() {
                        Err(q.failure(ErrorKind::InvalidPrefixOperator, token.text()))
                    } else {
                        match q.required(Precedence::Prefix) {
                            Err(e) => Err(e),
                            Ok((right, r)) => if r.remaining() < self.remaining() {
                                r.continued(ExprView::Prefix(operator, Box::new(right)), precedence)
                            } else {
                                Err(r.end_of_text())
                            },
                        }
                    },
                    TokenView::LeftParen => match q.required(Precedence::Parentheses) {
                        Err(e) => Err(e),
                        Ok((inner, r)) => {
                            let closing = r.advance();
                            match closing.outcome {
                                Err(e) => Err(e),
                                Ok(Some(TokenView::RightParen)) => if closing.parser.remaining()
                                    < self.remaining() {
                                    closing.parser.continued(inner, precedence)
                                } else {
                                    Err(r.end_of_text())
                                },
                                Ok(Some(other)) => Err(
                                    closing.parser.failure(
                                        ErrorKind::ExpectingRightParentheses,
                                        other.text(),
                                    ),
                                ),
                                Ok(None) => Err(
                                    closing.parser.failure(
                                        ErrorKind::ExpectingRightParentheses,
                                        token.text(),
                                    ),
                                ),
                            }
                        },
                    },
                    _ => Err(q.failure(ErrorKind::InvalidToken, token.text())),
                }
            },
        }
    }

    /// What follows an operand `left`. At the end of the text or before a
    /// right parenthesis the operand stands as it is. A suffix operator is
    /// taken into the operand. Then the infix operators follow.
    pub open spec fn continued(self, left: ExprView, precedence: Precedence) -> Result<
        (Option<ExprView>, ParserView),
        ErrorView,
    >
        decreases self.remaining(), 1int,
        when self.well_formed()
    {
        match self.peek {
            None => Ok((Some(left), self)),
            Some(TokenView::RightParen) => Ok((Some(left), self)),
            Some(TokenView::Operator(operator)) => if operator.suffix() {
                let a = self.advance();
                proof {
                    lemma_advance_progress(self);
                }
                match a.outcome {
                    Err(e) => Err(e),
                    Ok(_) => a.parser.infix(
                        ExprView::Suffix(Box::new(left), operator),
                        precedence,
                    ),
                }
            } else {
                self.infix(left, precedence)
            },
            Some(_) => self.infix(left, precedence),
        }
    }

    /// The infix operators after `left`, as long as the class of the token
    /// read ahead binds strictly before `precedence`. The right-hand side of
    /// an operator is read at the operator's own class, so that operators of
    /// one class group from the left; the right-hand side of an assignment
    /// and the second branch of a condition are read one class further, so
    /// that assignments and conditions group from the right. The first
    /// branch of a condition is read at the class of the condition, and a
    /// colon must part the branches. A comma, a colon or a
    /// right parenthesis that is reached this way is taken and ends the
    /// expression. A number or a name where an operator is due is a failure,
    /// and so is a left parenthesis.
    pub open spec fn infix(self, left: ExprView, precedence: Precedence) -> Result<
        (Option<ExprView>, ParserView),
        ErrorView,
    >
        decreases self.remaining(), 0int,
        when self.well_formed()
    {
        match self.peek {
            None => Ok((Some(left), self)),
            Some(token) => match Precedence::of_token(token) {
                None => Err(self.failure(ErrorKind::InvalidInfixOperator, token.text())),
                Some(class) => if !class.before(precedence) {
                    Ok((Some(left), self))
                } else {
                    let a = self.advance();
                    let q = a.parser;
                    proof {
                        lemma_advance_progress(self);
                    }
                    match a.outcome {
                        Err(e) => Err(e),
                        Ok(_) => match token {
                            TokenView::Operator(operator) => match q.required(class.right_side()) {
                                Err(e) => Err(e),
                                Ok((right, r)) => if r.remaining() < self.remaining() {
                                    r.infix(
                                        ExprView::Infix(Box::new(left), operator, Box::new(right)),
                                        precedence,
                                    )
                                } else {
                                    Err(r.end_of_text())
                                },
                            },
                            TokenView::QuestionMark => match q.required(class) {
                                Err(e) => Err(e),
                                Ok((on_true, r)) => {
                                    let colon = r.advance();
                                    match colon.outcome {
                                        Err(e) => Err(e),
                                        Ok(Some(TokenView::Colon)) => if colon.parser.remaining()
                                            < self.remaining() {
                                            match colon.parser.required(class.right_side()) {
                                                Err(e) => Err(e),
                                                Ok((on_false, w)) => if w.remaining()
                                                    < self.remaining() {
                                                    w.infix(
                                                        ExprView::Condition(
                                                            Box::new(left),
                                                            Box::new(on_true),
                                                            Box::new(on_false),
                                                        ),
                                                        precedence,
                                                    )
                                                } else {
                                                    Err(w.end_of_text())
                                                },
                                            }
                                        } else {
                                            Err(r.end_of_text())
                                        },
                                        Ok(_) => Err(
                                            colon.parser.failure(
                                                ErrorKind::ExpectingTernaryElse,
                                                token.text(),
                                            ),
                                        ),
                                    }
                                },
                            },
                            TokenView::LeftParen => Err(
                                q.failure(ErrorKind::InvalidInfixOperator, token.text()),
                            ),
                            _ => Ok((Some(left), q)),
                        },
                    }
                },
            },
        }
    }

    /// The whole expression: the first token is read ahead, then an operand
    /// is required at the loosest class.
    pub open spec fn parse(self) -> Result<(ExprView, ParserView), ErrorView> {
        let a = self.advance();
        match a.outcome {
            Err(e) => Err(e),
            Ok(_) => a.parser.required(Precedence::Separator),
        }
    }
}

/// The expression that `text` writes, or the failure that reading it ends
/// in.
pub open spec fn parse_text(text: Seq<char>) -> Result<ExprView, ErrorView> {
    match ParserView::start(text).parse() {
        Ok((e, _)) => Ok(e),
        Err(e) => Err(e),
    }
}

/// Taking a token never lets the parser fall back, and taking the token
/// that was read ahead brings it nearer to the end of the text.
pub proof fn lemma_advance_progress(p: ParserView)
    ensures
        p.well_formed() ==> p.advance().parser.well_formed(),
        p.advance().parser.text == p.text,
        p.well_formed() ==> p.advance().parser.remaining() <= p.remaining(),
        p.well_formed() && p.peek is Some && p.advance().outcome is Ok
            ==> p.advance().parser.remaining() < p.remaining(),
        p.advance().outcome matches Ok(t) ==> t == p.peek,
{
    if p.well_formed() {
        lemma_step_advances(p.text, p.position);
    }
}

/// What an optional token stands for in contracts.
pub open spec fn token_view(t: Option<Token>) -> Option<TokenView> {
    match t {
        Some(t) => Some(t@),
        None => None,
    }
}

/// What the result of taking a token stands for in contracts.
pub open spec fn taken_view(r: Result<Option<Token>, Error>) -> Result<
    Option<TokenView>,
    ErrorView,
> {
    match r {
        Ok(t) => Ok(token_view(t)),
        Err(e) => Err(e@),
    }
}

/// Whether the result `r` of a parsing step that left the parser in the
/// state `after` is the result `expected`: the same failure, or the same
/// tree and the same state.
pub open spec fn agrees(
    r: Result<Option<Expr>, Error>,
    after: ParserView,
    expected: Result<(Option<ExprView>, ParserView), ErrorView>,
) -> bool {
    match (r, expected) {
        (Ok(Some(e)), Ok((Some(v), q))) => e@ == v && after == q,
        (Ok(None), Ok((None, q))) => after == q,
        (Err(e), Err(v)) => e@ == v,
        _ => false,
    }
}

/// As `agrees`, for a step that hands out a tree or fails.
pub open spec fn agrees_required(
    r: Result<Expr, Error>,
    after: ParserView,
    expected: Result<(ExprView, ParserView), ErrorView>,
) -> bool {
    match (r, expected) {
        (Ok(e), Ok((v, q))) => e@ == v && after == q,
        (Err(e), Err(v)) => e@ == v,
        _ => false,
    }
}

/// What the result of parsing a text stands for in contracts.
pub open spec fn parsed_view(r: Result<Expr, Error>) -> Result<ExprView, ErrorView> {
    match r {
        Ok(e) => Ok(e@),
        Err(e) => Err(e@),
    }
}

/// A parser over a text.
pub struct Parser {
    tokens: TokenStream,
    peek: Option<Token>,
    column: usize,
}

impl Parser {
    /// The parser's state.
    pub closed spec fn view(&self) -> ParserView {
        ParserView {
            text: self.tokens.text(),
            position: self.tokens.position_of() as int,
            stream_column: self.tokens.column_of(),
            peek: token_view(self.peek),
            column: self.column as nat,
        }
    }

    /// A parser that takes its tokens from `t`.
    pub fn new(t: TokenStream) -> (p: Parser)
        ensures
            p.view() == (ParserView {
                text: t.text(),
                position: t.position_of() as int,
                stream_column: t.column_of(),
                peek: None,
                column: 1,
            }),
            p.view().well_formed(),
    {
        let _ = t.length();
        Parser { peek: None, tokens: t, column: 1 }
    }

    /// A parser over the text `s`.
    pub fn from(s: &str) -> (p: Parser)
        ensures
            p.view() == ParserView::start(s@),
    {
        Parser::new(TokenStream::new(s))
    }

    pub fn column(&self) -> (c: usize)
        ensures
            c == self.view().column,
    {
        self.column
    }

    /// The token that was read ahead.
    pub fn peek(&self) -> (t: &Option<Token>)
        ensures
            token_view(*t) == self.view().peek,
    {
        &self.peek
    }

    /// Takes one token.
    pub fn next_token(&mut self) -> (r: Result<Option<Token>, Error>)
        ensures
            old(self).view().well_formed(),
            final(self).view().well_formed(),
            taken_view(r) == old(self).view().advance().outcome,
            final(self).view() == old(self).view().advance().parser,
            final(self).view().text == old(self).view().text,
            final(self).view().remaining() <= old(self).view().remaining(),
    {
        let _ = self.tokens.length();
        proof {
            lemma_step_advances(self.tokens.text(), self.tokens.position_of() as int);
            lemma_advance_progress(self.view());
        }
        let column = self.tokens.column();
        self.column = column;
        match self.tokens.next() {
            Some(Ok(v)) => {
                let tok = self.peek.take();
                self.peek = Some(v);
                Ok(tok)
            },
            Some(Err(e)) => {
                proof {
                    reveal_strlit(" ");
                    assert(" "@ =~= seq![' ']);
                }
                Err(
                    e.with(
                        Context {
                            token: String::from_str(" "),
                            input: self.tokens.full().to_owned(),
                            column,
                            line: 1,
                        },
                    ),
                )
            },
            None => {
                let tok = self.peek.take();
                Ok(tok)
            },
        }
    }

    /// The place of a failure on the token `tok`, at the parser's column.
    fn context(&self, tok: &Token) -> (c: Context)
        ensures
            c@ == (ContextView {
                input: self.view().text,
                token: tok@.text(),
                column: self.view().column,
                line: 1,
            }),
    {
        Context {
            token: string_of(&tok.text_chars()),
            input: self.tokens.full().to_owned(),
            column: self.column,
            line: 1,
        }
    }

    fn fail(&self, kind: ErrorKind, tok: &Token) -> (e: Error)
        ensures
            e@ == self.view().failure(kind, tok@.text()),
    {
        Error::new(kind).with(self.context(tok))
    }

    fn must_parse_precedence(&mut self, p: Precedence) -> (r: Result<Expr, Error>)
        requires
            old(self).view().well_formed(),
        ensures
            final(self).view().well_formed(),
            final(self).view().text == old(self).view().text,
            agrees_required(r, final(self).view(), old(self).view().required(p)),
            r is Ok ==> final(self).view().remaining() < old(self).view().remaining(),
        decreases old(self).view().remaining(), 3int,
    {
        let ghost before = self.view();
        match self.parse_precedence(p) {
            Ok(Some(v)) => Ok(v),
            Ok(None) => {
                proof {
                    reveal_strlit(" ");
                    assert(" "@ =~= seq![' ']);
                }
                Err(
                    Error::new(ErrorKind::UnexpectedEof).with(
                        Context {
                            token: String::from_str(" "),
                            input: self.tokens.full().to_owned(),
                            column: self.tokens.length(),
                            line: 1,
                        },
                    ),
                )
            },
            Err(e) => Err(e),
        }
    }

    fn parse_precedence(&mut self, precedence: Precedence) -> (r: Result<Option<Expr>, Error>)
        requires
            old(self).view().well_formed(),
        ensures
            final(self).view().well_formed(),
            final(self).view().text == old(self).view().text,
            agrees(r, final(self).view(), old(self).view().operand(precedence)),
            r is Ok ==> final(self).view().remaining() <= old(self).view().remaining(),
            r matches Ok(Some(_)) ==> final(self).view().remaining() < old(self).view().remaining(),
        decreases old(self).view().remaining(), 2int,
    {
        let ghost before = self.view();
        proof {
            lemma_advance_progress(before);
        }
        let token = match self.next_token() {
            Err(e) => {
                return Err(e);
            },
            Ok(None) => {
                return Ok(None);
            },
            Ok(Some(v)) => v,
        };
        let ghost q = self.view();
        match token {
            Token::Number(n) => self.parse_continued(Expr::Number(Literal::Integer(n)), precedence),
            Token::FloatingNumber(text) => self.parse_continued(
                Expr::Number(Literal::Decimal(text)),
                precedence,
            ),
            Token::Variable(name) => self.parse_continued(Expr::Variable(name), precedence),
            Token::Operator(operator) => {
                if !operator.is_prefix() {
                    return Err(
                        self.fail(ErrorKind::InvalidPrefixOperator, &Token::Operator(operator)),
                    );
                }
                let right = match self.must_parse_precedence(Precedence::Prefix) {
                    Ok(v) => v,
                    Err(e) => {
                        return Err(e);
                    },
                };
                self.parse_continued(Expr::Prefix(Box::new(Prefix { operator, right })), precedence)
            },
            Token::LeftParen => {
                let inner = match self.must_parse_precedence(Precedence::Parentheses) {
                    Ok(v) => v,
                    Err(e) => {
                        return Err(e);
                    },
                };
                proof {
                    lemma_advance_progress(self.view());
                }
                match self.next_token() {
                    Err(e) => Err(e),
                    Ok(Some(Token::RightParen)) => self.parse_continued(inner, precedence),
                    Ok(Some(other)) => Err(self.fail(ErrorKind::ExpectingRightParentheses, &other)),
                    Ok(None) => Err(
                        self.fail(ErrorKind::ExpectingRightParentheses, &Token::LeftParen),
                    ),
                }
            },
            other => Err(self.fail(ErrorKind::InvalidToken, &other)),
        }
    }

    fn parse_continued(&mut self, left: Expr, precedence: Precedence) -> (r: Result<
        Option<Expr>,
        Error,
    >)
        requires
            old(self).view().well_formed(),
        ensures
            final(self).view().well_formed(),
            final(self).view().text == old(self).view().text,
            agrees(r, final(self).view(), old(self).view().continued(left@, precedence)),
            r is Ok ==> final(self).view().remaining() <= old(self).view().remaining(),
            r is Ok ==> r->Ok_0 is Some,
        decreases old(self).view().remaining(), 1int,
    {
        let suffix: Option<Operator> = match &self.peek {
            None => {
                return Ok(Some(left));
            },
            Some(Token::RightParen) => {
                return Ok(Some(left));
            },
            Some(Token::Operator(operator)) => if operator.is_suffix() {
                Some(*operator)
            } else {
                None
            },
            Some(_) => None,
        };
        match suffix {
            Some(operator) => {
                proof {
                    lemma_advance_progress(self.view());
                }
                match self.next_token() {
                    Err(e) => Err(e),
                    Ok(_) => self.parse_infix(
                        Expr::Suffix(Box::new(Suffix { left, operator })),
                        precedence,
                    ),
                }
            },
            None => self.parse_infix(left, precedence),
        }
    }

    fn parse_infix(&mut self, left: Expr, precedence: Precedence) -> (r: Result<
        Option<Expr>,
        Error,
    >)
        requires
            old(self).view().well_formed(),
        ensures
            final(self).view().well_formed(),
            final(self).view().text == old(self).view().text,
            agrees(r, final(self).view(), old(self).view().infix(left@, precedence)),
            r is Ok ==> final(self).view().remaining() <= old(self).view().remaining(),
            r is Ok ==> r->Ok_0 is Some,
        decreases old(self).view().remaining(), 0int,
    {
        let ghost before = self.view();
        let class = match &self.peek {
            None => {
                return Ok(Some(left));
            },
            Some(token) => match Precedence::from_token(token) {
                Some(class) => class,
                None => {
                    return Err(self.fail(ErrorKind::InvalidInfixOperator, token));
                },
            },
        };
        if !class.binds_before(&precedence) {
            return Ok(Some(left));
        }
        proof {
            lemma_advance_progress(before);
        }
        let token = match self.next_token() {
            Err(e) => {
                return Err(e);
            },
            Ok(None) => {
                return Ok(Some(left));
            },
            Ok(Some(v)) => v,
        };
        match token {
            Token::Operator(operator) => {
                let right = match self.must_parse_precedence(class.right_level()) {
                    Ok(v) => v,
                    Err(e) => {
                        return Err(e);
                    },
                };
                self.parse_infix(Expr::Infix(Box::new(Infix { left, operator, right })), precedence)
            },
            Token::QuestionMark => {
                let on_true = match self.must_parse_precedence(class) {
                    Ok(v) => v,
                    Err(e) => {
                        return Err(e);
                    },
                };
                proof {
                    lemma_advance_progress(self.view());
                }
                match self.next_token() {
                    Err(e) => {
                        return Err(e);
                    },
                    Ok(Some(Token::Colon)) => {},
                    Ok(_) => {
                        return Err(
                            self.fail(ErrorKind::ExpectingTernaryElse, &Token::QuestionMark),
                        );
                    },
                }
                let on_false = match self.must_parse_precedence(class.right_level()) {
                    Ok(v) => v,
                    Err(e) => {
                        return Err(e);
                    },
                };
                self.parse_infix(
                    Expr::Condition(Box::new(Condition { condition: left, on_true, on_false })),
                    precedence,
                )
            },
            Token::LeftParen => Err(self.fail(ErrorKind::InvalidInfixOperator, &Token::LeftParen)),
            _ => Ok(Some(left)),
        }
    }

    /// Reads the whole expression.
    pub fn parse(&mut self) -> (r: Result<Expr, Error>)
        ensures
            agrees_required(r, final(self).view(), old(self).view().parse()),
    {
        match self.next_token() {
            Err(e) => Err(e),
            Ok(_) => self.must_parse_precedence(Precedence::Separator),
        }
    }
}

/// Reads the expression that `s` writes.
pub fn parse(s: &str) -> (r: Result<Expr, Error>)
    ensures
        parsed_view(r) == parse_text(s@),
{
    let mut parser = Parser::from(s);
    parser.parse()
}

} // verus!

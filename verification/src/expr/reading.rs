//! Reading an expression depends on the tokens of its text alone: two
//! texts that are made of the same tokens are read as the same tree, and
//! where the reading of one fails, the reading of the other fails alike.

use crate::expr::errors::{ErrorKind, ErrorView};
use crate::expr::laws::lemma_reading_advances;
use crate::expr::lexer::{lemma_step_advances, step};
use crate::expr::parser::{lemma_advance_progress, parse_text, ParserView};
use crate::expr::types::{ExprView, LiteralView, Precedence, TokenView};
use vstd::prelude::*;

verus! {

/// The tokens that a text is made of from some place on, and the failure
/// that the lexer ends in behind them, if it ends in one.
pub struct Lexed {
    pub tokens: Seq<TokenView>,
    pub failure: Option<ErrorKind>,
}

/// The tokens of `s` from position `pos` on.
pub open spec fn tokens_from(s: Seq<char>, pos: int) -> Lexed
    decreases s.len() - pos,
    when 0 <= pos <= s.len()
{
    let lexed = step(s, pos);
    match lexed.outcome {
        None => Lexed { tokens: Seq::empty(), failure: None },
        Some(Err(e)) => Lexed { tokens: Seq::empty(), failure: Some(e.kind) },
        Some(Ok(t)) => {
            proof {
                lemma_step_advances(s, pos);
            }
            let rest = tokens_from(s, lexed.position);
            Lexed { tokens: seq![t] + rest.tokens, failure: rest.failure }
        },
    }
}

/// The tokens of the whole text `s`.
pub open spec fn tokens_of(s: Seq<char>) -> Lexed {
    tokens_from(s, 0)
}

/// Two parsers are alike where they have the same token read ahead and the
/// same tokens still to come. Their texts, positions and columns may
/// differ.
pub open spec fn alike(p: ParserView, q: ParserView) -> bool {
    &&& p.well_formed()
    &&& q.well_formed()
    &&& p.peek == q.peek
    &&& tokens_from(p.text, p.position) == tokens_from(q.text, q.position)
}

/// Two results of a parsing step are alike where both hold the same tree
/// and leave parsers that are alike, or both are failures of one kind.
pub open spec fn same_reading(
    x: Result<(Option<ExprView>, ParserView), ErrorView>,
    y: Result<(Option<ExprView>, ParserView), ErrorView>,
) -> bool {
    match (x, y) {
        (Ok((e, p)), Ok((f, q))) => e == f && alike(p, q),
        (Err(a), Err(b)) => a.kind == b.kind,
        _ => false,
    }
}

/// As `same_reading`, for a step that hands out a tree or fails.
pub open spec fn same_required(
    x: Result<(ExprView, ParserView), ErrorView>,
    y: Result<(ExprView, ParserView), ErrorView>,
) -> bool {
    match (x, y) {
        (Ok((e, p)), Ok((f, q))) => e == f && alike(p, q),
        (Err(a), Err(b)) => a.kind == b.kind,
        _ => false,
    }
}

/// Parsers that are alike take the same token, and are alike afterwards;
/// or the lexer fails under both, in the same way.
pub proof fn lemma_advance_alike(p: ParserView, q: ParserView)
    requires
        alike(p, q),
    ensures
        match (p.advance().outcome, q.advance().outcome) {
            (Ok(x), Ok(y)) => x == y && x == p.peek && alike(p.advance().parser, q.advance().parser),
            (Err(a), Err(b)) => a.kind == b.kind,
            _ => false,
        },
{
    lemma_advance_progress(p);
    lemma_advance_progress(q);
    let a = step(p.text, p.position);
    let b = step(q.text, q.position);
    let first = tokens_from(p.text, p.position);
    let second = tokens_from(q.text, q.position);
    match (a.outcome, b.outcome) {
        (Some(Ok(t)), Some(Ok(u))) => {
            lemma_step_advances(p.text, p.position);
            lemma_step_advances(q.text, q.position);
            let r = tokens_from(p.text, a.position);
            let s = tokens_from(q.text, b.position);
            assert(first.tokens == seq![t] + r.tokens);
            assert(second.tokens == seq![u] + s.tokens);
            assert((seq![t] + r.tokens)[0] == t);
            assert((seq![u] + s.tokens)[0] == u);
            assert((seq![t] + r.tokens).skip(1) =~= r.tokens);
            assert((seq![u] + s.tokens).skip(1) =~= s.tokens);
            assert(r.tokens == s.tokens);
            assert(r.failure == s.failure);
        },
        (Some(Ok(t)), _) => {
            let r = tokens_from(p.text, a.position);
            assert(first.tokens == seq![t] + r.tokens);
            assert(first.tokens.len() > 0);
            assert(second.tokens.len() == 0);
        },
        (_, Some(Ok(u))) => {
            let s = tokens_from(q.text, b.position);
            assert(second.tokens == seq![u] + s.tokens);
            assert(second.tokens.len() > 0);
            assert(first.tokens.len() == 0);
        },
        _ => {},
    }
}

/// Parsers that are alike read the same operand that must be there.
pub proof fn lemma_required_alike(p: ParserView, q: ParserView, precedence: Precedence)
    requires
        alike(p, q),
    ensures
        same_required(p.required(precedence), q.required(precedence)),
    decreases p.remaining(), 3int,
{
    lemma_operand_alike(p, q, precedence);
}

proof fn lemma_operand_alike(p: ParserView, q: ParserView, precedence: Precedence)
    requires
        alike(p, q),
    ensures
        same_reading(p.operand(precedence), q.operand(precedence)),
    decreases p.remaining(), 2int,
{
    lemma_advance_alike(p, q);
    lemma_advance_progress(p);
    lemma_advance_progress(q);
    let a = p.advance();
    let b = q.advance();
    match a.outcome {
        Ok(Some(token)) => match token {
            TokenView::Number(n) => {
                lemma_continued_alike(
                    a.parser,
                    b.parser,
                    ExprView::Number(LiteralView::Integer(n)),
                    precedence,
                );
            },
            TokenView::FloatingNumber(text) => {
                lemma_continued_alike(
                    a.parser,
                    b.parser,
                    ExprView::Number(LiteralView::Decimal(text)),
                    precedence,
                );
            },
            TokenView::Variable(name) => {
                lemma_continued_alike(a.parser, b.parser, ExprView::Variable(name), precedence);
            },
            TokenView::Operator(operator) => {
                if operator.prefix() {
                    lemma_required_alike(a.parser, b.parser, Precedence::Prefix);
                    lemma_reading_advances(a.parser, Precedence::Prefix);
                    lemma_reading_advances(b.parser, Precedence::Prefix);
                    match (
                        a.parser.required(Precedence::Prefix),
                        b.parser.required(Precedence::Prefix),
                    ) {
                        (Ok((right, r)), Ok((_, s))) => {
                            lemma_continued_alike(
                                r,
                                s,
                                ExprView::Prefix(operator, Box::new(right)),
                                precedence,
                            );
                        },
                        _ => {},
                    }
                }
            },
            TokenView::LeftParen => {
                lemma_required_alike(a.parser, b.parser, Precedence::Parentheses);
                lemma_reading_advances(a.parser, Precedence::Parentheses);
                lemma_reading_advances(b.parser, Precedence::Parentheses);
                match (
                    a.parser.required(Precedence::Parentheses),
                    b.parser.required(Precedence::Parentheses),
                ) {
                    (Ok((inner, r)), Ok((_, s))) => {
                        lemma_advance_alike(r, s);
                        lemma_advance_progress(r);
                        lemma_advance_progress(s);
                        match r.advance().outcome {
                            Ok(Some(TokenView::RightParen)) => {
                                lemma_continued_alike(
                                    r.advance().parser,
                                    s.advance().parser,
                                    inner,
                                    precedence,
                                );
                            },
                            _ => {},
                        }
                    },
                    _ => {},
                }
            },
            _ => {},
        },
        _ => {},
    }
}

proof fn lemma_continued_alike(
    p: ParserView,
    q: ParserView,
    left: ExprView,
    precedence: Precedence,
)
    requires
        alike(p, q),
    ensures
        same_reading(p.continued(left, precedence), q.continued(left, precedence)),
    decreases p.remaining(), 1int,
{
    match p.peek {
        Some(TokenView::Operator(operator)) => {
            if operator.suffix() {
                lemma_advance_alike(p, q);
                lemma_advance_progress(p);
                lemma_advance_progress(q);
                if p.advance().outcome is Ok {
                    lemma_infix_alike(
                        p.advance().parser,
                        q.advance().parser,
                        ExprView::Suffix(Box::new(left), operator),
                        precedence,
                    );
                }
            } else {
                lemma_infix_alike(p, q, left, precedence);
            }
        },
        Some(TokenView::RightParen) => {},
        Some(_) => {
            lemma_infix_alike(p, q, left, precedence);
        },
        None => {},
    }
}

proof fn lemma_infix_alike(p: ParserView, q: ParserView, left: ExprView, precedence: Precedence)
    requires
        alike(p, q),
    ensures
        same_reading(p.infix(left, precedence), q.infix(left, precedence)),
    decreases p.remaining(), 0int,
{
    match p.peek {
        None => {},
        Some(token) => match Precedence::of_token(token) {
            None => {},
            Some(class) => {
                if class.before(precedence) {
                    lemma_advance_alike(p, q);
                    lemma_advance_progress(p);
                    lemma_advance_progress(q);
                    let a = p.advance().parser;
                    let b = q.advance().parser;
                    if p.advance().outcome is Ok {
                        match token {
                            TokenView::Operator(operator) => {
                                lemma_required_alike(a, b, class.right_side());
                                lemma_reading_advances(a, class.right_side());
                                lemma_reading_advances(b, class.right_side());
                                match (
                                    a.required(class.right_side()),
                                    b.required(class.right_side()),
                                ) {
                                    (Ok((right, r)), Ok((_, s))) => {
                                        lemma_infix_alike(
                                            r,
                                            s,
                                            ExprView::Infix(
                                                Box::new(left),
                                                operator,
                                                Box::new(right),
                                            ),
                                            precedence,
                                        );
                                    },
                                    _ => {},
                                }
                            },
                            TokenView::QuestionMark => {
                                lemma_required_alike(a, b, class);
                                lemma_reading_advances(a, class);
                                lemma_reading_advances(b, class);
                                match (a.required(class), b.required(class)) {
                                    (Ok((on_true, r)), Ok((_, s))) => {
                                        lemma_advance_alike(r, s);
                                        lemma_advance_progress(r);
                                        lemma_advance_progress(s);
                                        let c = r.advance().parser;
                                        let d = s.advance().parser;
                                        match r.advance().outcome {
                                            Ok(Some(TokenView::Colon)) => {
                                                lemma_required_alike(c, d, class.right_side());
                                                lemma_reading_advances(c, class.right_side());
                                                lemma_reading_advances(d, class.right_side());
                                                match (
                                                    c.required(class.right_side()),
                                                    d.required(class.right_side()),
                                                ) {
                                                    (Ok((on_false, w)), Ok((_, x))) => {
                                                        lemma_infix_alike(
                                                            w,
                                                            x,
                                                            ExprView::Condition(
                                                                Box::new(left),
                                                                Box::new(on_true),
                                                                Box::new(on_false),
                                                            ),
                                                            precedence,
                                                        );
                                                    },
                                                    _ => {},
                                                }
                                            },
                                            _ => {},
                                        }
                                    },
                                    _ => {},
                                }
                            },
                            _ => {},
                        }
                    }
                }
            },
        },
    }
}

/// Two texts that are made of the same tokens are read as the same
/// expression; and where the reading of one fails, the reading of the
/// other fails in the same way. White space, and the way in which a number
/// is written, make no difference.
pub proof fn lemma_reading_depends_on_tokens(a: Seq<char>, b: Seq<char>)
    requires
        tokens_of(a) == tokens_of(b),
    ensures
        match (parse_text(a), parse_text(b)) {
            (Ok(e), Ok(f)) => e == f,
            (Err(x), Err(y)) => x.kind == y.kind,
            _ => false,
        },
{
    let p = ParserView::start(a);
    let q = ParserView::start(b);
    assert(alike(p, q));
    lemma_advance_alike(p, q);
    if p.advance().outcome is Ok {
        lemma_required_alike(p.advance().parser, q.advance().parser, Precedence::Separator);
    }
}

} // verus!

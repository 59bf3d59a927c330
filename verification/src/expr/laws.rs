//! What holds of names, numbers, operators and classes, and of the
//! progress of reading.

use crate::expr::lexer::{
    decimal_end, digit_value, integer_span, operator_at, radix_value, run_end, scan, CharClass,
    OperatorMatch, Scanned,
};
use crate::expr::parser::{lemma_advance_progress, ParserView};
use crate::expr::types::{ExprView, LiteralView, Operator, Precedence, TokenView};
use crate::text::{decimal, digit_char};
use vstd::prelude::*;

verus! {

/// Whether `s` is a name: a letter or an underscore, and then letters,
/// digits and underscores.
pub open spec fn is_name(s: Seq<char>) -> bool {
    &&& s.len() > 0
    &&& !CharClass::Digit.holds(s[0])
    &&& forall|k: int| 0 <= k < s.len() ==> CharClass::Name.holds(#[trigger] s[k])
}

/// A run of a class covers a text whose characters from `from` on are all
/// of that class.
pub proof fn lemma_run_covers(s: Seq<char>, from: int, class: CharClass)
    requires
        0 <= from <= s.len(),
        forall|k: int| from <= k < s.len() ==> class.holds(#[trigger] s[k]),
    ensures
        run_end(s, from, class) == s.len(),
    decreases s.len() - from,
{
    if from < s.len() {
        lemma_run_covers(s, from + 1, class);
    }
}

/// The decimal notation of a number is made of digits, begins with a zero
/// only if the number is zero, and writes that number.
pub proof fn lemma_decimal(n: nat)
    ensures
        decimal(n).len() > 0,
        forall|k: int| 0 <= k < decimal(n).len() ==> CharClass::Digit.holds(#[trigger] decimal(n)[k]),
        decimal(n)[0] == '0' ==> decimal(n).len() == 1,
        radix_value(decimal(n), 10) == n,
    decreases n,
{
    if n < 10 {
        assert(decimal(n).drop_last() =~= Seq::<char>::empty());
        assert(radix_value(decimal(n).drop_last(), 10) == 0);
    } else {
        lemma_decimal(n / 10);
        let head = decimal(n / 10);
        let d = digit_char(n % 10);
        assert(decimal(n) == head.push(d));
        assert(decimal(n).drop_last() =~= head);
        assert(digit_value(d) == n % 10);
        assert forall|k: int| 0 <= k < decimal(n).len() implies CharClass::Digit.holds(
            #[trigger] decimal(n)[k],
        ) by {
            if k < head.len() {
                assert(decimal(n)[k] == head[k]);
            }
        }
        assert(decimal(n)[0] == head[0]);
        if head[0] == '0' {
            assert(head.len() == 1);
            assert(head.drop_last() =~= Seq::<char>::empty());
            assert(radix_value(head.drop_last(), 10) == 0);
            assert(head.last() == '0');
            assert(radix_value(head, 10) == 0);
        }
    }
}

/// The classes are in a total order: two classes of one rank are the
/// same class, and of two different classes one binds before the other.
pub proof fn lemma_precedence_is_total(p: Precedence, q: Precedence)
    ensures
        p.rank_of() == q.rank_of() <==> p == q,
        p == q || p.before(q) || q.before(p),
        !(p.before(q) && q.before(p)),
{
}

/// Every operator is read back from its symbol, and the whole symbol is
/// taken: where one operator begins another, the longer one is read.
pub proof fn lemma_operator_reads_back(operator: Operator)
    ensures
        operator_at(operator.symbol(), 0) == Some(
            OperatorMatch { operator, length: operator.symbol().len() as int },
        ),
        scan(operator.symbol(), 0) == (Scanned::Token {
            token: TokenView::Operator(operator),
            end: operator.symbol().len() as int,
        }),
{
    let s = operator.symbol();
    assert(run_end(s, 0, CharClass::Digit) == 0);
    assert(decimal_end(s, 0) is None);
    assert(integer_span(s, 0) is None);
    assert(!CharClass::Name.holds(s[0]));
}

/// Reading never stalls: an operand that is read leaves fewer tokens to
/// come than there were, and what follows an operand never leaves more.
/// So wherever the reading of an expression goes on behind a part that was
/// read, it goes on nearer to the end of the text.
pub proof fn lemma_reading_advances(p: ParserView, precedence: Precedence)
    requires
        p.well_formed(),
    ensures
        p.required(precedence) matches Ok((_, q)) ==> q.well_formed() && q.remaining()
            < p.remaining(),
        p.operand(precedence) matches Ok((e, q)) ==> q.well_formed() && q.remaining()
            <= p.remaining() && (e is Some ==> q.remaining() < p.remaining()),
    decreases p.remaining(), 3int,
{
    lemma_operand_advances(p, precedence);
}

proof fn lemma_operand_advances(p: ParserView, precedence: Precedence)
    requires
        p.well_formed(),
    ensures
        p.operand(precedence) matches Ok((e, q)) ==> q.well_formed() && q.remaining()
            <= p.remaining() && (e is Some ==> q.remaining() < p.remaining()),
    decreases p.remaining(), 2int,
{
    lemma_advance_progress(p);
    let a = p.advance();
    let q = a.parser;
    match a.outcome {
        Ok(Some(token)) => match token {
            TokenView::Number(n) => {
                lemma_continued_advances(q, ExprView::Number(LiteralView::Integer(n)), precedence);
            },
            TokenView::FloatingNumber(text) => {
                lemma_continued_advances(
                    q,
                    ExprView::Number(LiteralView::Decimal(text)),
                    precedence,
                );
            },
            TokenView::Variable(name) => {
                lemma_continued_advances(q, ExprView::Variable(name), precedence);
            },
            TokenView::Operator(operator) => {
                if operator.prefix() {
                    lemma_reading_advances(q, Precedence::Prefix);
                    match q.required(Precedence::Prefix) {
                        Ok((right, r)) => {
                            lemma_continued_advances(
                                r,
                                ExprView::Prefix(operator, Box::new(right)),
                                precedence,
                            );
                        },
                        Err(_) => {},
                    }
                }
            },
            TokenView::LeftParen => {
                lemma_reading_advances(q, Precedence::Parentheses);
                match q.required(Precedence::Parentheses) {
                    Ok((inner, r)) => {
                        lemma_advance_progress(r);
                        let closing = r.advance();
                        match closing.outcome {
                            Ok(Some(TokenView::RightParen)) => {
                                lemma_continued_advances(closing.parser, inner, precedence);
                            },
                            _ => {},
                        }
                    },
                    Err(_) => {},
                }
            },
            _ => {},
        },
        _ => {},
    }
}

proof fn lemma_continued_advances(p: ParserView, left: ExprView, precedence: Precedence)
    requires
        p.well_formed(),
    ensures
        p.continued(left, precedence) matches Ok((e, q)) ==> q.well_formed() && q.remaining()
            <= p.remaining() && e is Some,
    decreases p.remaining(), 1int,
{
    match p.peek {
        Some(TokenView::Operator(operator)) => {
            if operator.suffix() {
                lemma_advance_progress(p);
                let a = p.advance();
                if a.outcome is Ok {
                    lemma_infix_advances(
                        a.parser,
                        ExprView::Suffix(Box::new(left), operator),
                        precedence,
                    );
                }
            } else {
                lemma_infix_advances(p, left, precedence);
            }
        },
        Some(TokenView::RightParen) => {},
        Some(_) => {
            lemma_infix_advances(p, left, precedence);
        },
        None => {},
    }
}

proof fn lemma_infix_advances(p: ParserView, left: ExprView, precedence: Precedence)
    requires
        p.well_formed(),
    ensures
        p.infix(left, precedence) matches Ok((e, q)) ==> q.well_formed() && q.remaining()
            <= p.remaining() && e is Some,
    decreases p.remaining(), 0int,
{
    match p.peek {
        None => {},
        Some(token) => match Precedence::of_token(token) {
            None => {},
            Some(class) => {
                if class.before(precedence) {
                    lemma_advance_progress(p);
                    let a = p.advance();
                    let q = a.parser;
                    if a.outcome is Ok {
                        match token {
                            TokenView::Operator(operator) => {
                                lemma_reading_advances(q, class.right_side());
                                match q.required(class.right_side()) {
                                    Ok((right, r)) => {
                                        lemma_infix_advances(
                                            r,
                                            ExprView::Infix(
                                                Box::new(left),
                                                operator,
                                                Box::new(right),
                                            ),
                                            precedence,
                                        );
                                    },
                                    Err(_) => {},
                                }
                            },
                            TokenView::QuestionMark => {
                                lemma_reading_advances(q, class);
                                match q.required(class) {
                                    Ok((on_true, r)) => {
                                        lemma_advance_progress(r);
                                        let colon = r.advance();
                                        match colon.outcome {
                                            Ok(Some(TokenView::Colon)) => {
                                                lemma_reading_advances(
                                                    colon.parser,
                                                    class.right_side(),
                                                );
                                                match colon.parser.required(class.right_side()) {
                                                    Ok((on_false, w)) => {
                                                        lemma_infix_advances(
                                                            w,
                                                            ExprView::Condition(
                                                                Box::new(left),
                                                                Box::new(on_true),
                                                                Box::new(on_false),
                                                            ),
                                                            precedence,
                                                        );
                                                    },
                                                    Err(_) => {},
                                                }
                                            },
                                            _ => {},
                                        }
                                    },
                                    Err(_) => {},
                                }
                            },
                            _ => {},
                        }
                    }
                }
            },
        },
    }
}

} // verus!

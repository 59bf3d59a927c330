//! Why an expression is read back from the text that it is written as:
//! the text is made of the tokens of the expression, and those tokens are
//! read as the expression.

use crate::expr::errors::ErrorView;
use crate::expr::laws::{is_name, lemma_decimal, lemma_reading_advances};
use crate::expr::lexer::{
    decimal_end, exponent_end, integer_span, lemma_radix_value_nonnegative, lemma_run_end_bounds,
    operator_at, prefixed_end, run_end, scan, step, CharClass, IntegerSpan,
    OperatorMatch, Scanned,
};
use crate::expr::meaning::{value_of, Arithmetic, Vars};
use crate::expr::parser::{lemma_advance_progress, parse_text, ParserView};
use crate::expr::reading::{tokens_from, tokens_of, Lexed};
use crate::expr::types::{
    spelled, ExprView, LiteralView, Operator, Piece, Precedence, TokenView,
};
use crate::text::{decimal, signed_decimal};
use vstd::prelude::*;

verus! {

/// Whether `t` is a decimal literal and nothing else.
pub open spec fn is_decimal(t: Seq<char>) -> bool {
    decimal_end(t, 0) == Some(t.len() as int)
}

/// Whether the token is one that the lexer hands out: an integer that is
/// not negative and fits the machine, a name, a decimal literal, an
/// operator or a punctuation mark.
pub open spec fn valid_token(t: TokenView) -> bool {
    match t {
        TokenView::Number(n) => 0 <= n <= isize::MAX,
        TokenView::Variable(name) => is_name(name),
        TokenView::FloatingNumber(text) => is_decimal(text),
        _ => true,
    }
}

/// The characters that operators are written with.
pub open spec fn operator_char(c: char) -> bool {
    c == '=' || c == '<' || c == '>' || c == '^' || c == '|' || c == '&' || c == '+' || c == '-'
        || c == '*' || c == '/' || c == '%' || c == '~' || c == '!'
}

/// Whether the character `c` behind the token `t` is no part of it: behind
/// a number or a name, no letter, digit, underscore or point; behind an
/// operator, no character of an operator.
pub open spec fn parts(t: TokenView, c: char) -> bool {
    match t {
        TokenView::Number(_) | TokenView::Variable(_) | TokenView::FloatingNumber(_) =>
            !CharClass::Name.holds(c) && c != '.',
        TokenView::Operator(_) => !operator_char(c),
        _ => true,
    }
}

/// Whether the text of the token `t` stands at `pos` in `s`, and what
/// follows it there is no part of it.
pub open spec fn placed(s: Seq<char>, pos: int, t: TokenView) -> bool {
    &&& 0 <= pos
    &&& pos + t.text().len() <= s.len()
    &&& s.subrange(pos, pos + t.text().len()) == t.text()
    &&& (pos + t.text().len() < s.len() ==> parts(t, s[pos + t.text().len()]))
}

/// A run whose characters are all of the class, and which the end of the
/// text or a character of another class follows, ends there.
pub proof fn lemma_run_exact(s: Seq<char>, from: int, to: int, class: CharClass)
    requires
        0 <= from <= to <= s.len(),
        forall|k: int| from <= k < to ==> class.holds(#[trigger] s[k]),
        to < s.len() ==> !class.holds(s[to]),
    ensures
        run_end(s, from, class) == to,
    decreases to - from,
{
    if from < to {
        lemma_run_exact(s, from + 1, to, class);
    }
}

/// The characters of a run are of its class.
pub proof fn lemma_run_holds(s: Seq<char>, from: int, class: CharClass)
    requires
        0 <= from <= s.len(),
    ensures
        forall|k: int| from <= k < run_end(s, from, class) ==> class.holds(#[trigger] s[k]),
        from <= run_end(s, from, class) <= s.len(),
        run_end(s, from, class) < s.len() ==> !class.holds(s[run_end(s, from, class)]),
    decreases s.len() - from,
{
    if from < s.len() && class.holds(s[from]) {
        lemma_run_holds(s, from + 1, class);
    }
}

/// A run inside a part of a text that is cut out where a character of
/// another class or the end follows: it ends in the text where it ends in
/// the part.
proof fn lemma_run_placed(s: Seq<char>, pos: int, t: Seq<char>, k: int, class: CharClass)
    requires
        0 <= pos,
        pos + t.len() <= s.len(),
        s.subrange(pos, pos + t.len()) == t,
        0 <= k <= t.len(),
        pos + t.len() < s.len() ==> !class.holds(s[pos + t.len()]),
    ensures
        run_end(s, pos + k, class) == pos + run_end(t, k, class),
    decreases t.len() - k,
{
    if k < t.len() {
        assert(t[k] == s.subrange(pos, pos + t.len())[k]);
        if class.holds(t[k]) {
            lemma_run_placed(s, pos, t, k + 1, class);
        }
    }
}

/// A run inside a part that is cut out of a text ends where it ends in the
/// text, or at the end of the part.
proof fn lemma_run_cut(s: Seq<char>, pos: int, end: int, k: int, class: CharClass)
    requires
        0 <= pos <= end <= s.len(),
        0 <= k <= end - pos,
    ensures
        run_end(s.subrange(pos, end), k, class) == if run_end(s, pos + k, class) < end {
            run_end(s, pos + k, class) - pos
        } else {
            end - pos
        },
    decreases end - pos - k,
{
    let t = s.subrange(pos, end);
    lemma_run_end_bounds(s, pos + k, class);
    if k < end - pos {
        assert(t[k] == s[pos + k]);
        if class.holds(t[k]) {
            lemma_run_cut(s, pos, end, k + 1, class);
        }
    }
}

proof fn lemma_placed_chars(s: Seq<char>, pos: int, t: TokenView)
    requires
        placed(s, pos, t),
    ensures
        forall|k: int| 0 <= k < t.text().len() ==> s[pos + k] == #[trigger] t.text()[k],
{
    let w = t.text();
    assert forall|k: int| 0 <= k < w.len() implies s[pos + k] == #[trigger] w[k] by {
        assert(s.subrange(pos, pos + w.len())[k] == s[pos + k]);
    }
}

proof fn lemma_scan_name(s: Seq<char>, pos: int, name: Seq<char>)
    requires
        is_name(name),
        placed(s, pos, TokenView::Variable(name)),
    ensures
        scan(s, pos) == (Scanned::Token {
            token: TokenView::Variable(name),
            end: pos + name.len(),
        }),
{
    lemma_placed_chars(s, pos, TokenView::Variable(name));
    assert(s[pos] == name[0]);
    assert(run_end(s, pos, CharClass::Digit) == pos);
    assert(decimal_end(s, pos) is None);
    assert(integer_span(s, pos) is None);
    assert forall|k: int| pos <= k < pos + name.len() implies CharClass::Name.holds(
        #[trigger] s[k],
    ) by {
        assert(s[pos + (k - pos)] == name[k - pos]);
    }
    lemma_run_exact(s, pos, pos + name.len(), CharClass::Name);
}

proof fn lemma_scan_integer(s: Seq<char>, pos: int, n: int)
    requires
        0 <= n <= isize::MAX,
        placed(s, pos, TokenView::Number(n)),
    ensures
        scan(s, pos) == (Scanned::Token {
            token: TokenView::Number(n),
            end: pos + signed_decimal(n).len(),
        }),
{
    let w = decimal(n as nat);
    lemma_decimal(n as nat);
    lemma_placed_chars(s, pos, TokenView::Number(n));
    let end = pos + w.len();
    assert forall|k: int| pos <= k < end implies CharClass::Digit.holds(#[trigger] s[k]) by {
        assert(s[pos + (k - pos)] == w[k - pos]);
    }
    lemma_run_exact(s, pos, end, CharClass::Digit);
    assert(exponent_end(s, end) is None);
    assert(decimal_end(s, pos) is None);
    assert(s[pos] == w[0]);
    if s[pos] == '0' {
        assert(w.len() == 1);
    } else {
        assert(s[pos + 1 - 1] != '0');
    }
    assert(prefixed_end(s, pos, 'x', 'X', CharClass::Hexadecimal) is None);
    assert(prefixed_end(s, pos, 'o', 'O', CharClass::Octal) is None);
    assert(prefixed_end(s, pos, 'b', 'B', CharClass::Binary) is None);
    assert(integer_span(s, pos) == Some(IntegerSpan { start: pos, end, radix: 10 }));
    assert(s.subrange(pos, end) =~= w);
}

proof fn lemma_scan_decimal(s: Seq<char>, pos: int, t: Seq<char>)
    requires
        is_decimal(t),
        placed(s, pos, TokenView::FloatingNumber(t)),
    ensures
        scan(s, pos) == (Scanned::Token {
            token: TokenView::FloatingNumber(t),
            end: pos + t.len(),
        }),
        t.len() > 0,
{
    let digit = CharClass::Digit;
    lemma_placed_chars(s, pos, TokenView::FloatingNumber(t));
    lemma_run_end_bounds(t, 0, digit);
    lemma_run_placed(s, pos, t, 0, digit);
    let a = run_end(t, 0, digit);
    if a < t.len() {
        assert(s[pos + a] == t[a]);
        lemma_run_end_bounds(t, a + 1, digit);
        lemma_run_placed(s, pos, t, a + 1, digit);
    }
    if a < t.len() && t[a] == '.' {
        let b = run_end(t, a + 1, digit);
        lemma_exponent_placed(s, pos, t, b);
    } else {
        lemma_exponent_placed(s, pos, t, a);
    }
    assert(decimal_end(s, pos) == Some(pos + t.len()));
    assert(s.subrange(pos, pos + t.len()) =~= t);
}

/// An exponent inside a decimal literal that stands in a text ends in the
/// text where it ends in the literal, if it reaches the end of the literal
/// or is none.
proof fn lemma_exponent_placed(s: Seq<char>, pos: int, t: Seq<char>, k: int)
    requires
        0 <= pos,
        pos + t.len() <= s.len(),
        s.subrange(pos, pos + t.len()) == t,
        0 <= k <= t.len(),
        pos + t.len() < s.len() ==> !CharClass::Name.holds(s[pos + t.len()]),
        exponent_end(t, k) is Some ==> exponent_end(t, k) == Some(t.len() as int),
        exponent_end(t, k) is None ==> k == t.len(),
    ensures
        exponent_end(s, pos + k) == match exponent_end(t, k) {
            Some(e) => Some(pos + e),
            None => None,
        },
{
    let digit = CharClass::Digit;
    if k < t.len() {
        assert(t[k] == s.subrange(pos, pos + t.len())[k]);
        let j = if k + 1 < t.len() && (t[k + 1] == '+' || t[k + 1] == '-') {
            k + 2
        } else {
            k + 1
        };
        lemma_run_end_bounds(t, k + 1, digit);
        if k + 1 < t.len() {
            assert(t[k + 1] == s.subrange(pos, pos + t.len())[k + 1]);
        } else {
            assert(run_end(t, j, digit) == j);
        }
        if j <= t.len() {
            lemma_run_placed(s, pos, t, j, digit);
        }
    }
}

proof fn lemma_scan_operator(s: Seq<char>, pos: int, operator: Operator)
    requires
        placed(s, pos, TokenView::Operator(operator)),
    ensures
        scan(s, pos) == (Scanned::Token {
            token: TokenView::Operator(operator),
            end: pos + operator.symbol().len(),
        }),
        operator.symbol().len() > 0,
        operator_char(operator.symbol()[0]),
{
    lemma_placed_chars(s, pos, TokenView::Operator(operator));
    let w = operator.symbol();
    assert(s[pos] == w[0]);
    if w.len() > 1 {
        assert(s[pos + 1] == w[1]);
    }
    if w.len() > 2 {
        assert(s[pos + 2] == w[2]);
    }
    assert(run_end(s, pos, CharClass::Digit) == pos);
    assert(decimal_end(s, pos) is None);
    assert(integer_span(s, pos) is None);
    assert(!CharClass::Name.holds(s[pos]));
    assert(operator_at(s, pos) == Some(OperatorMatch { operator, length: w.len() as int }));
}

/// A token that stands in a text, with nothing behind it that could be
/// part of it, is the token that the lexer finds there.
pub proof fn lemma_scan_placed(s: Seq<char>, pos: int, t: TokenView)
    requires
        valid_token(t),
        placed(s, pos, t),
    ensures
        t.text().len() > 0,
        !CharClass::Space.holds(t.text()[0]),
        pos < s.len(),
        s[pos] == t.text()[0],
        scan(s, pos) == (Scanned::Token { token: t, end: pos + t.text().len() }),
{
    lemma_placed_chars(s, pos, t);
    match t {
        TokenView::Number(n) => {
            lemma_decimal(n as nat);
            lemma_scan_integer(s, pos, n);
        },
        TokenView::Variable(name) => {
            lemma_scan_name(s, pos, name);
        },
        TokenView::FloatingNumber(text) => {
            lemma_scan_decimal(s, pos, text);
            lemma_run_end_bounds(text, 0, CharClass::Digit);
            assert(s[pos] == text[0]);
        },
        TokenView::Operator(operator) => {
            lemma_scan_operator(s, pos, operator);
        },
        _ => {
            assert(s[pos] == t.text()[0]);
            assert(run_end(s, pos, CharClass::Digit) == pos);
            assert(decimal_end(s, pos) is None);
            assert(integer_span(s, pos) is None);
            assert(operator_at(s, pos) is None);
        },
    }
}


/// The tokens among the pieces, in their order.
pub open spec fn tokens_in(pieces: Seq<Piece>) -> Seq<TokenView>
    decreases pieces.len(),
{
    if pieces.len() == 0 {
        Seq::empty()
    } else {
        match pieces[0] {
            Piece::Blank => tokens_in(pieces.skip(1)),
            Piece::Token(t) => seq![t] + tokens_in(pieces.skip(1)),
        }
    }
}

/// Whether the pieces can be told apart once they are written: they are
/// valid tokens, each followed by the end, by one blank and another token,
/// or by a token whose first character is no part of it.
pub open spec fn neat(pieces: Seq<Piece>) -> bool
    decreases pieces.len(),
{
    pieces.len() == 0 || match pieces[0] {
        Piece::Blank => false,
        Piece::Token(t) => valid_token(t) && (pieces.len() == 1 || match pieces[1] {
            Piece::Blank => pieces.len() > 2 && pieces[2] is Token && neat(pieces.skip(2)),
            Piece::Token(u) => parts(t, u.text()[0]) && neat(pieces.skip(1)),
        }),
    }
}

/// What is cut off a text that is made of two parts.
proof fn lemma_cut(s: Seq<char>, pos: int, a: Seq<char>, b: Seq<char>)
    requires
        0 <= pos <= s.len(),
        s.subrange(pos, s.len() as int) == a + b,
    ensures
        pos + a.len() <= s.len(),
        s.subrange(pos, pos + a.len()) == a,
        s.subrange(pos + a.len(), s.len() as int) == b,
        b.len() > 0 ==> s[pos + a.len()] == b[0],
{
    let whole = s.subrange(pos, s.len() as int);
    assert(whole.len() == a.len() + b.len());
    assert forall|k: int| 0 <= k < a.len() implies s.subrange(pos, pos + a.len())[k] == a[k] by {
        assert(whole[k] == a[k]);
    }
    assert(s.subrange(pos, pos + a.len()) =~= a);
    assert forall|k: int| 0 <= k < b.len() implies s.subrange(pos + a.len(), s.len() as int)[k]
        == b[k] by {
        assert(whole[a.len() + k] == b[k]);
    }
    assert(s.subrange(pos + a.len(), s.len() as int) =~= b);
    if b.len() > 0 {
        assert(whole[a.len() as int] == b[0]);
    }
}

/// A text that is written with pieces that can be told apart is made of
/// the tokens among them, and the lexer fails nowhere in it.
pub proof fn lemma_written_tokens(s: Seq<char>, pos: int, pieces: Seq<Piece>)
    requires
        neat(pieces),
        0 <= pos <= s.len(),
        s.subrange(pos, s.len() as int) == spelled(pieces),
    ensures
        tokens_from(s, pos) == (Lexed { tokens: tokens_in(pieces), failure: None }),
    decreases pieces.len(),
{
    let space = CharClass::Space;
    if pieces.len() == 0 {
        assert(s.subrange(pos, s.len() as int).len() == 0);
        assert(tokens_from(s, pos).tokens =~= tokens_in(pieces));
    } else {
        let t = pieces[0]->Token_0;
        let w = t.text();
        let rest = pieces.skip(1);
        lemma_cut(s, pos, w, spelled(rest));
        let end = pos + w.len();
        if rest.len() == 0 {
            assert(spelled(rest).len() == 0);
            assert(end == s.len());
            assert(placed(s, pos, t));
            lemma_scan_placed(s, pos, t);
            assert(run_end(s, pos, space) == pos);
            assert(run_end(s, end, space) == end);
            lemma_written_tokens(s, end, rest);
            assert(tokens_from(s, pos).tokens =~= tokens_in(pieces));
        } else {
            match rest[0] {
                Piece::Blank => {
                    let more = pieces.skip(2);
                    assert(rest.skip(1) =~= more);
                    lemma_cut(s, end, seq![' '], spelled(more));
                    assert(s.subrange(end, end + 1)[0] == ' ');
                    assert(s[end] == ' ');
                    assert(placed(s, pos, t));
                    lemma_scan_placed(s, pos, t);
                    let u = more[0]->Token_0;
                    assert(more[0] == pieces[2]);
                    lemma_cut(s, end + 1, u.text(), spelled(more.skip(1)));
                    assert(placed_start(s, end + 1, more));
                    lemma_first_char(s, end + 1, more);
                    assert(run_end(s, pos, space) == pos);
                    assert(run_end(s, end + 1, space) == end + 1);
                    assert(run_end(s, end, space) == end + 1);
                    lemma_written_tokens(s, end + 1, more);
                    assert(tokens_in(rest) == tokens_in(more));
                    assert(tokens_from(s, pos).tokens =~= tokens_in(pieces));
                },
                Piece::Token(u) => {
                    assert(placed_start(s, end, rest));
                    lemma_first_char(s, end, rest);
                    assert(s[end] == u.text()[0]);
                    assert(placed(s, pos, t));
                    lemma_scan_placed(s, pos, t);
                    assert(run_end(s, pos, space) == pos);
                    assert(run_end(s, end, space) == end);
                    lemma_written_tokens(s, end, rest);
                    assert(tokens_from(s, pos).tokens =~= tokens_in(pieces));
                },
            }
        }
    }
}

/// Whether the pieces are written from `pos` to the end of `s`, and begin
/// with a token.
pub open spec fn placed_start(s: Seq<char>, pos: int, pieces: Seq<Piece>) -> bool {
    &&& neat(pieces)
    &&& pieces.len() > 0
    &&& 0 <= pos <= s.len()
    &&& s.subrange(pos, s.len() as int) == spelled(pieces)
}

/// Pieces that are written in a text begin with the first character of
/// their first token, which is no blank.
proof fn lemma_first_char(s: Seq<char>, pos: int, pieces: Seq<Piece>)
    requires
        placed_start(s, pos, pieces),
    ensures
        pos < s.len(),
        s[pos] == pieces[0]->Token_0.text()[0],
        !CharClass::Space.holds(s[pos]),
        pieces[0]->Token_0.text().len() > 0,
{
    let t = pieces[0]->Token_0;
    lemma_token_text(t);
    lemma_cut(s, pos, t.text(), spelled(pieces.skip(1)));
    assert(s.subrange(pos, pos + t.text().len())[0] == s[pos]);
}

/// A valid token is written with at least one character. A number or a
/// name begins with a letter, a digit, an underscore or a point; an
/// operator with a character of operators; no token with a blank.
pub proof fn lemma_token_text(t: TokenView)
    requires
        valid_token(t),
    ensures
        t.text().len() > 0,
        !CharClass::Space.holds(t.text()[0]),
        match t {
            TokenView::Number(_) | TokenView::Variable(_) | TokenView::FloatingNumber(_) =>
                CharClass::Name.holds(t.text()[0]) || t.text()[0] == '.',
            TokenView::Operator(_) => operator_char(t.text()[0]),
            TokenView::LeftParen => t.text()[0] == '(',
            TokenView::RightParen => t.text()[0] == ')',
            _ => true,
        },
{
    match t {
        TokenView::Number(n) => {
            lemma_decimal(n as nat);
        },
        TokenView::FloatingNumber(text) => {
            lemma_run_holds(text, 0, CharClass::Digit);
            let a = run_end(text, 0, CharClass::Digit);
            if a > 0 {
                assert(CharClass::Digit.holds(text[0]));
            }
        },
        _ => {},
    }
}


/// Whether the expression is made as reading makes expressions: its
/// integers are not negative and fit the machine, its decimal literals and
/// names are written as such, the operators before and behind a single
/// operand are ones that may stand there, and `++` and `--` stand between
/// two operands only where they can be read so.
pub open spec fn written(e: ExprView) -> bool
    decreases e,
{
    match e {
        ExprView::Number(LiteralView::Integer(n)) => 0 <= n <= isize::MAX,
        ExprView::Number(LiteralView::Decimal(text)) => is_decimal(text),
        ExprView::Variable(name) => is_name(name),
        ExprView::Prefix(operator, right) => operator.prefix() && written(*right),
        ExprView::Suffix(left, operator) => operator.suffix() && written(*left),
        ExprView::Infix(left, operator, right) => written(*left) && written(*right) && (
        operator.suffix() ==> left.hinged()),
        ExprView::Condition(condition, on_true, on_false) => written(*condition) && written(
            *on_true,
        ) && written(*on_false),
    }
}

/// The tokens of two rows of pieces are those of the first and then those
/// of the second.
pub proof fn lemma_tokens_concat(a: Seq<Piece>, b: Seq<Piece>)
    ensures
        tokens_in(a + b) == tokens_in(a) + tokens_in(b),
    decreases a.len(),
{
    if a.len() == 0 {
        assert(a + b =~= b);
        assert(tokens_in(a) + tokens_in(b) =~= tokens_in(b));
    } else {
        lemma_tokens_concat(a.skip(1), b);
        assert((a + b).skip(1) =~= a.skip(1) + b);
        assert((a + b)[0] == a[0]);
        assert(tokens_in(a + b) =~= tokens_in(a) + tokens_in(b));
    }
}

/// Pieces that can be told apart end with a token.
proof fn lemma_neat_ends(a: Seq<Piece>)
    requires
        neat(a),
        a.len() > 0,
    ensures
        a.last() is Token,
        a[0] is Token,
        valid_token(a.last()->Token_0),
        valid_token(a[0]->Token_0),
    decreases a.len(),
{
    if a.len() > 1 {
        match a[1] {
            Piece::Blank => {
                lemma_neat_ends(a.skip(2));
                assert(a.skip(2).last() == a.last());
            },
            Piece::Token(u) => {
                lemma_neat_ends(a.skip(1));
                assert(a.skip(1).last() == a.last());
            },
        }
    }
}

/// Two rows of pieces that can be told apart can be told apart when the
/// second follows the first, if its first character is no part of the last
/// token of the first.
proof fn lemma_neat_join(a: Seq<Piece>, b: Seq<Piece>)
    requires
        neat(a),
        neat(b),
        a.len() > 0,
        b.len() > 0,
        a.last() is Token,
        b[0] is Token,
        parts(a.last()->Token_0, b[0]->Token_0.text()[0]),
    ensures
        neat(a + b),
    decreases a.len(),
{
    let whole = a + b;
    assert(whole[0] == a[0]);
    if a.len() == 1 {
        assert(whole[1] == b[0]);
        assert(whole.skip(1) =~= b);
    } else {
        assert(whole[1] == a[1]);
        match a[1] {
            Piece::Blank => {
                assert(whole[2] == a[2]);
                assert(a.skip(2).last() == a.last());
                lemma_neat_join(a.skip(2), b);
                assert(whole.skip(2) =~= a.skip(2) + b);
            },
            Piece::Token(u) => {
                assert(a.skip(1).last() == a.last());
                lemma_neat_join(a.skip(1), b);
                assert(whole.skip(1) =~= a.skip(1) + b);
            },
        }
    }
}

/// Two rows of pieces that can be told apart can be told apart with a
/// blank between them.
proof fn lemma_neat_blank(a: Seq<Piece>, b: Seq<Piece>)
    requires
        neat(a),
        neat(b),
        a.len() > 0,
        b.len() > 0,
    ensures
        neat(a + seq![Piece::Blank] + b),
        (a + seq![Piece::Blank] + b).len() > 0,
    decreases a.len(),
{
    let whole = a + seq![Piece::Blank] + b;
    assert(whole[0] == a[0]);
    lemma_neat_ends(b);
    if a.len() == 1 {
        assert(whole[1] == Piece::Blank);
        assert(whole[2] == b[0]);
        assert(whole.skip(2) =~= b);
    } else {
        assert(whole[1] == a[1]);
        match a[1] {
            Piece::Blank => {
                assert(whole[2] == a[2]);
                lemma_neat_blank(a.skip(2), b);
                assert(whole.skip(2) =~= a.skip(2) + seq![Piece::Blank] + b);
            },
            Piece::Token(u) => {
                lemma_neat_blank(a.skip(1), b);
                assert(whole.skip(1) =~= a.skip(1) + seq![Piece::Blank] + b);
            },
        }
    }
}

/// Whether the pieces begin as an operand begins: with a token that no
/// operator before it runs into.
pub open spec fn opens(pieces: Seq<Piece>) -> bool {
    pieces.len() > 0 && pieces[0] is Token && !operator_char(pieces[0]->Token_0.text()[0])
}

/// Whether the pieces end as an operand ends: with a number, a name or a
/// right parenthesis.
pub open spec fn closes(pieces: Seq<Piece>) -> bool {
    pieces.len() > 0 && match pieces.last() {
        Piece::Token(TokenView::Number(_)) => true,
        Piece::Token(TokenView::Variable(_)) => true,
        Piece::Token(TokenView::FloatingNumber(_)) => true,
        Piece::Token(TokenView::RightParen) => true,
        _ => false,
    }
}

/// The three pieces that stand between two operands.
pub open spec fn between(t: TokenView) -> Seq<Piece> {
    seq![Piece::Blank, Piece::Token(t), Piece::Blank]
}

proof fn lemma_neat_between(a: Seq<Piece>, t: TokenView, b: Seq<Piece>)
    requires
        neat(a),
        neat(b),
        a.len() > 0,
        b.len() > 0,
        valid_token(t),
    ensures
        neat(a + between(t) + b),
        tokens_in(a + between(t) + b) == tokens_in(a) + seq![t] + tokens_in(b),
        (a + between(t) + b).len() > 0,
        (a + between(t) + b)[0] == a[0],
        (a + between(t) + b).last() == b.last(),
{
    let one = seq![Piece::Token(t)];
    lemma_neat_blank(one, b);
    let tail = one + seq![Piece::Blank] + b;
    lemma_neat_blank(a, tail);
    assert(a + between(t) + b =~= a + seq![Piece::Blank] + tail);
    lemma_tokens_concat(a + between(t), b);
    lemma_tokens_concat(a, between(t));
    let blank = seq![Piece::Blank];
    lemma_tokens_one(Piece::Blank);
    lemma_tokens_one(Piece::Token(t));
    lemma_tokens_concat(blank + one, blank);
    lemma_tokens_concat(blank, one);
    assert(between(t) =~= blank + one + blank);
    assert(tokens_in(between(t)) =~= seq![t]);
}

proof fn lemma_tokens_one(piece: Piece)
    ensures
        tokens_in(seq![piece]) == match piece {
            Piece::Blank => Seq::<TokenView>::empty(),
            Piece::Token(t) => seq![t],
        },
{
    let row = seq![piece];
    assert(row.skip(1) =~= Seq::<Piece>::empty());
    assert(tokens_in(row.skip(1)) =~= Seq::<TokenView>::empty());
    match piece {
        Piece::Blank => {},
        Piece::Token(t) => {
            assert(seq![t] + tokens_in(row.skip(1)) =~= seq![t]);
        },
    }
}

/// The pieces of an expression that is made as reading makes expressions
/// can be told apart, where it stands alone and where it is an operand.
pub proof fn lemma_pieces(e: ExprView)
    requires
        written(e),
    ensures
        neat(e.pieces()),
        e.pieces().len() > 0,
        neat(e.operand()),
        opens(e.operand()),
        closes(e.operand()),
        neat(e.open_pieces()),
        e.open_pieces().len() > 0,
    decreases e, 1nat,
{
    lemma_own_pieces(e);
    let colon = seq![Piece::Token(TokenView::Colon)];
    match e {
        ExprView::Infix(left, operator, right) => {
            if e.bare() {
                lemma_pieces(*left);
                lemma_pieces(*right);
                lemma_neat_between(
                    left.leading(operator),
                    TokenView::Operator(operator),
                    right.pieces(),
                );
            } else {
                lemma_neat_blank(e.pieces(), colon);
                assert(e.open_pieces() =~= e.pieces() + seq![Piece::Blank] + colon);
            }
        },
        ExprView::Condition(_, _, _) => {
            lemma_neat_blank(e.pieces(), colon);
            assert(e.open_pieces() =~= e.pieces() + seq![Piece::Blank] + colon);
        },
        _ => {},
    }
    if !e.atomic() {
        let open = seq![Piece::Token(TokenView::LeftParen)];
        let close = seq![Piece::Token(TokenView::RightParen)];
        lemma_neat_ends(e.pieces());
        lemma_neat_join(open, e.pieces());
        assert((open + e.pieces()).last() == e.pieces().last());
        lemma_token_text(e.pieces().last()->Token_0);
        lemma_neat_join(open + e.pieces(), close);
        assert(e.operand()[0] == open[0]);
        assert(e.operand().last() == close[0]);
    } else {
        lemma_token_text(e.pieces()[0]->Token_0);
    }
}

proof fn lemma_own_pieces(e: ExprView)
    requires
        written(e),
    ensures
        neat(e.pieces()),
        e.pieces().len() > 0,
        e.atomic() ==> e.pieces().len() == 1 && closes(e.pieces()) && e.pieces()[0] is Token
            && valid_token(e.pieces()[0]->Token_0),
    decreases e, 0nat,
{
    match e {
        ExprView::Number(_) => {},
        ExprView::Variable(_) => {},
        ExprView::Infix(left, operator, right) => {
            lemma_pieces(*left);
            lemma_pieces(*right);
            lemma_neat_between(
                left.leading(operator),
                TokenView::Operator(operator),
                right.operand(),
            );
        },
        ExprView::Prefix(operator, right) => {
            lemma_pieces(*right);
            let mark = seq![Piece::Token(TokenView::Operator(operator))];
            lemma_neat_join(mark, right.operand());
        },
        ExprView::Suffix(left, operator) => {
            lemma_pieces(*left);
            let mark = seq![Piece::Token(TokenView::Operator(operator))];
            lemma_token_text(TokenView::Operator(operator));
            lemma_neat_join(left.operand(), mark);
        },
        ExprView::Condition(condition, on_true, on_false) => {
            lemma_pieces(*condition);
            lemma_pieces(*on_true);
            lemma_pieces(*on_false);
            lemma_neat_between(condition.operand(), TokenView::QuestionMark, on_true.operand());
            lemma_neat_between(
                condition.operand() + between(TokenView::QuestionMark) + on_true.operand(),
                TokenView::Colon,
                on_false.operand(),
            );
        },
    }
}

/// The text that an expression is written as is made of the tokens among
/// its pieces.
pub proof fn lemma_rendering_tokens(e: ExprView)
    requires
        written(e),
    ensures
        tokens_of(e.rendering()) == (Lexed { tokens: tokens_in(e.pieces()), failure: None }),
{
    lemma_pieces(e);
    let s = e.rendering();
    assert(s.subrange(0, s.len() as int) =~= s);
    lemma_written_tokens(s, 0, e.pieces());
}


/// The tokens that an expression is written with.
pub open spec fn own(e: ExprView) -> Seq<TokenView> {
    tokens_in(e.pieces())
}

/// The tokens that an expression is written with where it is an operand.
pub open spec fn wrapped(e: ExprView) -> Seq<TokenView> {
    tokens_in(e.operand())
}

/// The tokens that an expression is written with where it is the left
/// operand of `operator`.
pub open spec fn lead(e: ExprView, operator: Operator) -> Seq<TokenView> {
    tokens_in(e.leading(operator))
}

/// The tokens that an expression is written with before `++` or `--`
/// between two operands.
pub open spec fn opened(e: ExprView) -> Seq<TokenView> {
    tokens_in(e.open_pieces())
}

proof fn lemma_tokens_between(a: Seq<Piece>, t: TokenView, b: Seq<Piece>)
    ensures
        tokens_in(a + between(t) + b) == tokens_in(a) + seq![t] + tokens_in(b),
{
    let one = seq![Piece::Token(t)];
    let blank = seq![Piece::Blank];
    lemma_tokens_concat(a + between(t), b);
    lemma_tokens_concat(a, between(t));
    lemma_tokens_one(Piece::Blank);
    lemma_tokens_one(Piece::Token(t));
    lemma_tokens_concat(blank + one, blank);
    lemma_tokens_concat(blank, one);
    assert(between(t) =~= blank + one + blank);
    assert(tokens_in(between(t)) =~= seq![t]);
}

/// The tokens of an expression, by its kind.
pub proof fn lemma_tokens(e: ExprView)
    ensures
        match e {
            ExprView::Number(LiteralView::Integer(n)) => own(e) == seq![TokenView::Number(n)],
            ExprView::Number(LiteralView::Decimal(text)) => own(e) == seq![
                TokenView::FloatingNumber(text),
            ],
            ExprView::Variable(name) => own(e) == seq![TokenView::Variable(name)],
            ExprView::Infix(left, operator, right) => own(e) == lead(*left, operator) + seq![
                TokenView::Operator(operator),
            ] + wrapped(*right) && (e.bare() ==> opened(e) == lead(*left, operator) + seq![
                TokenView::Operator(operator),
            ] + own(*right)),
            ExprView::Prefix(operator, right) => own(e) == seq![TokenView::Operator(operator)]
                + wrapped(*right),
            ExprView::Suffix(left, operator) => own(e) == wrapped(*left) + seq![
                TokenView::Operator(operator),
            ],
            ExprView::Condition(condition, on_true, on_false) => own(e) == wrapped(*condition)
                + seq![TokenView::QuestionMark] + wrapped(*on_true) + seq![TokenView::Colon]
                + wrapped(*on_false),
        },
        wrapped(e) == if e.atomic() {
            own(e)
        } else {
            seq![TokenView::LeftParen] + own(e) + seq![TokenView::RightParen]
        },
        !e.bare() ==> opened(e) == if e is Infix || e is Condition {
            own(e) + seq![TokenView::Colon]
        } else {
            own(e)
        },
        forall|operator: Operator| #[trigger]
            lead(e, operator) == if operator.suffix() && e.hinged() {
                opened(e)
            } else {
                wrapped(e)
            },
{
    if (e is Infix || e is Condition) && !e.bare() {
        let colon = seq![Piece::Blank, Piece::Token(TokenView::Colon)];
        lemma_tokens_concat(e.pieces(), colon);
        lemma_tokens_one(Piece::Blank);
        lemma_tokens_one(Piece::Token(TokenView::Colon));
        lemma_tokens_concat(seq![Piece::Blank], seq![Piece::Token(TokenView::Colon)]);
        assert(colon =~= seq![Piece::Blank] + seq![Piece::Token(TokenView::Colon)]);
        assert(tokens_in(colon) =~= seq![TokenView::Colon]);
    }
    match e {
        ExprView::Number(LiteralView::Integer(n)) => {
            lemma_tokens_one(Piece::Token(TokenView::Number(n)));
        },
        ExprView::Number(LiteralView::Decimal(text)) => {
            lemma_tokens_one(Piece::Token(TokenView::FloatingNumber(text)));
        },
        ExprView::Variable(name) => {
            lemma_tokens_one(Piece::Token(TokenView::Variable(name)));
        },
        ExprView::Infix(left, operator, right) => {
            lemma_tokens_between(
                left.leading(operator),
                TokenView::Operator(operator),
                right.operand(),
            );
            lemma_tokens_between(
                left.leading(operator),
                TokenView::Operator(operator),
                right.pieces(),
            );
        },
        ExprView::Prefix(operator, right) => {
            lemma_tokens_one(Piece::Token(TokenView::Operator(operator)));
            lemma_tokens_concat(
                seq![Piece::Token(TokenView::Operator(operator))],
                right.operand(),
            );
        },
        ExprView::Suffix(left, operator) => {
            lemma_tokens_one(Piece::Token(TokenView::Operator(operator)));
            lemma_tokens_concat(left.operand(), seq![Piece::Token(TokenView::Operator(operator))]);
        },
        ExprView::Condition(condition, on_true, on_false) => {
            lemma_tokens_between(
                condition.operand(),
                TokenView::QuestionMark,
                on_true.operand(),
            );
            lemma_tokens_between(
                condition.operand() + between(TokenView::QuestionMark) + on_true.operand(),
                TokenView::Colon,
                on_false.operand(),
            );
        },
    }
    if !e.atomic() {
        let open = seq![Piece::Token(TokenView::LeftParen)];
        let close = seq![Piece::Token(TokenView::RightParen)];
        lemma_tokens_one(Piece::Token(TokenView::LeftParen));
        lemma_tokens_one(Piece::Token(TokenView::RightParen));
        lemma_tokens_concat(open + e.pieces(), close);
        lemma_tokens_concat(open, e.pieces());
    }
}

/// Whether the parser `p` has the tokens `ts` before it and nothing else:
/// the first of them is read ahead, the others are still to be cut off the
/// text, and the lexer fails nowhere.
pub open spec fn ahead(p: ParserView, ts: Seq<TokenView>) -> bool {
    &&& p.well_formed()
    &&& if ts.len() == 0 {
        p.peek is None && tokens_from(p.text, p.position) == (Lexed {
            tokens: Seq::empty(),
            failure: None,
        })
    } else {
        p.peek == Some(ts[0]) && tokens_from(p.text, p.position) == (Lexed {
            tokens: ts.skip(1),
            failure: None,
        })
    }
}

/// A parser that has tokens before it takes the first of them, and has
/// the others before it afterwards.
pub proof fn lemma_take(p: ParserView, ts: Seq<TokenView>)
    requires
        ahead(p, ts),
        ts.len() > 0,
    ensures
        p.advance().outcome == Ok::<Option<TokenView>, ErrorView>(Some(ts[0])),
        ahead(p.advance().parser, ts.skip(1)),
        p.advance().parser.remaining() < p.remaining(),
{
    lemma_advance_progress(p);
    let lexed = step(p.text, p.position);
    let after = tokens_from(p.text, p.position);
    let rest = ts.skip(1);
    match lexed.outcome {
        Some(Ok(t)) => {
            let more = tokens_from(p.text, lexed.position);
            assert(after.tokens == seq![t] + more.tokens);
            assert((seq![t] + more.tokens)[0] == t);
            assert((seq![t] + more.tokens).skip(1) =~= more.tokens);
            assert(rest.len() > 0);
            assert(rest[0] == t);
            assert(rest.skip(1) =~= more.tokens);
        },
        Some(Err(e)) => {},
        None => {
            assert(after.tokens.len() == 0);
            assert(rest.len() == 0);
        },
    }
}


/// Whether an expression that is read at the class `level` ends before
/// the tokens `rest`: at the end of the text, or before a right
/// parenthesis where the expression stands in parentheses.
pub open spec fn settles(level: Precedence, rest: Seq<TokenView>) -> bool {
    if rest.len() == 0 {
        level == Precedence::Separator || level == Precedence::Parentheses
    } else {
        level == Precedence::Parentheses && rest[0] == TokenView::RightParen
    }
}

/// An operand that is written before the parser is read up to what
/// follows it: the parser goes on behind it with the operand in hand.
proof fn lemma_read_operand(
    e: ExprView,
    level: Precedence,
    p: ParserView,
    rest: Seq<TokenView>,
) -> (q: ParserView)
    requires
        written(e),
        ahead(p, wrapped(e) + rest),
    ensures
        p.operand(level) == q.continued(e, level),
        ahead(q, rest),
        q.remaining() < p.remaining(),
    decreases e, 2nat,
{
    lemma_tokens(e);
    let ts = wrapped(e) + rest;
    lemma_take(p, ts);
    let q1 = p.advance().parser;
    if e.atomic() {
        assert(wrapped(e).len() == 1);
        assert(ts.skip(1) =~= rest);
        assert(ts[0] == wrapped(e)[0]);
        q1
    } else {
        let inner = own(e) + (seq![TokenView::RightParen] + rest);
        assert(ts[0] == TokenView::LeftParen);
        assert(ts.skip(1) =~= inner);
        let q2 = lemma_read(e, Precedence::Parentheses, q1, seq![TokenView::RightParen] + rest);
        lemma_take(q2, seq![TokenView::RightParen] + rest);
        let q3 = q2.advance().parser;
        assert((seq![TokenView::RightParen] + rest).skip(1) =~= rest);
        assert(q1.required(Precedence::Parentheses) == Ok::<
            (ExprView, ParserView),
            ErrorView,
        >((e, q2)));
        q3
    }
}

/// An expression that is written before the parser, and ends where the
/// text ends or its parentheses close, is read as itself.
proof fn lemma_read(e: ExprView, level: Precedence, p: ParserView, rest: Seq<TokenView>) -> (q:
    ParserView)
    requires
        written(e),
        ahead(p, own(e) + rest),
        settles(level, rest),
    ensures
        p.operand(level) == Ok::<(Option<ExprView>, ParserView), ErrorView>((Some(e), q)),
        ahead(q, rest),
        q.remaining() < p.remaining(),
    decreases e, 1nat,
{
    match e {
        ExprView::Prefix(operator, right) => lemma_read_prefix(e, level, p, rest),
        ExprView::Suffix(left, operator) => lemma_read_suffix(e, level, p, rest),
        ExprView::Infix(left, operator, right) => lemma_read_infix(e, level, p, rest),
        ExprView::Condition(condition, on_true, on_false) => lemma_read_condition(
            e,
            level,
            p,
            rest,
        ),
        _ => {
            lemma_tokens(e);
            let ts = own(e) + rest;
            lemma_take(p, ts);
            assert(ts.skip(1) =~= rest);
            assert(ts[0] == own(e)[0]);
            let q = p.advance().parser;
            assert(q.continued(e, level) == Ok::<(Option<ExprView>, ParserView), ErrorView>(
                (Some(e), q),
            ));
            q
        },
    }
}

proof fn lemma_read_prefix(e: ExprView, level: Precedence, p: ParserView, rest: Seq<TokenView>) -> (q:
    ParserView)
    requires
        written(e),
        ahead(p, own(e) + rest),
        settles(level, rest),
        e is Prefix,
    ensures
        p.operand(level) == Ok::<(Option<ExprView>, ParserView), ErrorView>((Some(e), q)),
        ahead(q, rest),
        q.remaining() < p.remaining(),
    decreases e, 0nat,
{
    lemma_tokens(e);
    let operator = e->Prefix_0;
    let right = *e->Prefix_1;
    let ts = own(e) + rest;
    lemma_take(p, ts);
    let q1 = p.advance().parser;
    assert(ts[0] == TokenView::Operator(operator));
    assert(ts.skip(1) =~= wrapped(right) + rest);
    let q2 = lemma_read_operand(right, Precedence::Prefix, q1, rest);
    assert(q2.continued(right, Precedence::Prefix) == Ok::<
        (Option<ExprView>, ParserView),
        ErrorView,
    >((Some(right), q2)));
    assert(q1.required(Precedence::Prefix) == Ok::<(ExprView, ParserView), ErrorView>(
        (right, q2),
    ));
    assert(q2.continued(e, level) == Ok::<(Option<ExprView>, ParserView), ErrorView>(
        (Some(e), q2),
    ));
    q2
}

proof fn lemma_read_suffix(e: ExprView, level: Precedence, p: ParserView, rest: Seq<TokenView>) -> (q:
    ParserView)
    requires
        written(e),
        ahead(p, own(e) + rest),
        settles(level, rest),
        e is Suffix,
    ensures
        p.operand(level) == Ok::<(Option<ExprView>, ParserView), ErrorView>((Some(e), q)),
        ahead(q, rest),
        q.remaining() < p.remaining(),
    decreases e, 0nat,
{
    lemma_tokens(e);
    let left = *e->Suffix_0;
    let operator = e->Suffix_1;
    let mark = seq![TokenView::Operator(operator)];
    assert(own(e) + rest =~= wrapped(left) + (mark + rest));
    let q1 = lemma_read_operand(left, level, p, mark + rest);
    lemma_take(q1, mark + rest);
    let q2 = q1.advance().parser;
    assert((mark + rest).skip(1) =~= rest);
    assert((mark + rest)[0] == TokenView::Operator(operator));
    assert(q2.infix(e, level) == Ok::<(Option<ExprView>, ParserView), ErrorView>((Some(e), q2)));
    assert(q1.continued(left, level) == Ok::<(Option<ExprView>, ParserView), ErrorView>(
        (Some(e), q2),
    ));
    q2
}

proof fn lemma_read_infix(e: ExprView, level: Precedence, p: ParserView, rest: Seq<TokenView>) -> (q:
    ParserView)
    requires
        written(e),
        ahead(p, own(e) + rest),
        settles(level, rest),
        e is Infix,
    ensures
        p.operand(level) == Ok::<(Option<ExprView>, ParserView), ErrorView>((Some(e), q)),
        ahead(q, rest),
        q.remaining() < p.remaining(),
    decreases e, 0nat,
{
    lemma_tokens(e);
    let left = *e->Infix_0;
    let operator = e->Infix_1;
    let right = *e->Infix_2;
    lemma_tokens(left);
    let mark = seq![TokenView::Operator(operator)];
    let class = Precedence::of_operator(operator);
    let then = mark + (wrapped(right) + rest);
    assert(own(e) + rest =~= lead(left, operator) + then);
    assert(then[0] == TokenView::Operator(operator));
    let q1 = if operator.suffix() {
        lemma_read_open(left, level, p, then)
    } else {
        let q1 = lemma_read_operand(left, level, p, then);
        assert(q1.continued(left, level) == q1.infix(left, level));
        q1
    };
    lemma_take(q1, then);
    let q2 = q1.advance().parser;
    assert(then.skip(1) =~= wrapped(right) + rest);
    let q3 = lemma_read_operand(right, class.right_side(), q2, rest);
    assert(q3.continued(right, class.right_side()) == Ok::<(Option<ExprView>, ParserView), ErrorView>((Some(right), q3)));
    assert(q2.required(class.right_side()) == Ok::<(ExprView, ParserView), ErrorView>((right, q3)));
    assert(q3.infix(e, level) == Ok::<(Option<ExprView>, ParserView), ErrorView>((Some(e), q3)));
    assert(class.before(level));
    assert(q1.infix(left, level) == Ok::<(Option<ExprView>, ParserView), ErrorView>((Some(e), q3)));
    q3
}

/// An expression that is written before `++` or `--` between two operands
/// is read up to that operator: the parser goes on with the operators
/// between operands, with the expression in hand.
proof fn lemma_read_open(e: ExprView, level: Precedence, p: ParserView, rest: Seq<TokenView>) -> (q:
    ParserView)
    requires
        written(e),
        ahead(p, opened(e) + rest),
        level.rank_of() >= 15,
        e.hinged(),
        rest.len() > 0,
        rest[0] matches TokenView::Operator(o) && o.suffix(),
    ensures
        p.operand(level) == q.infix(e, level),
        ahead(q, rest),
        q.remaining() < p.remaining(),
    decreases e, 1nat,
{
    match e {
        ExprView::Suffix(_, _) => lemma_read_open_suffix(e, level, p, rest),
        ExprView::Condition(_, _, _) => lemma_read_open_condition(e, level, p, rest),
        _ => {
            if e.bare() {
                lemma_read_open_bare(e, level, p, rest)
            } else {
                lemma_read_open_assignment(e, level, p, rest)
            }
        },
    }
}

proof fn lemma_read_open_suffix(e: ExprView, level: Precedence, p: ParserView, rest: Seq<TokenView>) -> (q:
    ParserView)
    requires
        written(e),
        ahead(p, opened(e) + rest),
        level.rank_of() >= 15,
        e.hinged(),
        rest.len() > 0,
        rest[0] matches TokenView::Operator(o) && o.suffix(),
        e is Suffix,
    ensures
        p.operand(level) == q.infix(e, level),
        ahead(q, rest),
        q.remaining() < p.remaining(),
    decreases e, 0nat,
{
    lemma_tokens(e);
    let left = *e->Suffix_0;
    let operator = e->Suffix_1;
    let mark = seq![TokenView::Operator(operator)];
    assert(opened(e) + rest =~= wrapped(left) + (mark + rest));
    let q1 = lemma_read_operand(left, level, p, mark + rest);
    lemma_take(q1, mark + rest);
    let q2 = q1.advance().parser;
    assert((mark + rest).skip(1) =~= rest);
    assert((mark + rest)[0] == TokenView::Operator(operator));
    assert(q1.continued(left, level) == q2.infix(e, level));
    q2
}

proof fn lemma_read_open_assignment(e: ExprView, level: Precedence, p: ParserView, rest: Seq<TokenView>) -> (q:
    ParserView)
    requires
        written(e),
        ahead(p, opened(e) + rest),
        level.rank_of() >= 15,
        e.hinged(),
        rest.len() > 0,
        rest[0] matches TokenView::Operator(o) && o.suffix(),
        e is Infix,
        !e.bare(),
    ensures
        p.operand(level) == q.infix(e, level),
        ahead(q, rest),
        q.remaining() < p.remaining(),
    decreases e, 0nat,
{
    lemma_tokens(e);
    let left = *e->Infix_0;
    let operator = e->Infix_1;
    let right = *e->Infix_2;
    lemma_tokens(left);
    let mark = seq![TokenView::Operator(operator)];
    let colon = seq![TokenView::Colon];
    let class = Precedence::of_operator(operator);
    let then = mark + (wrapped(right) + (colon + rest));
    assert(opened(e) + rest =~= wrapped(left) + then);
    assert(then[0] == TokenView::Operator(operator));
    let q1 = lemma_read_operand(left, level, p, then);
    assert(q1.continued(left, level) == q1.infix(left, level));
    lemma_take(q1, then);
    let q2 = q1.advance().parser;
    assert(then.skip(1) =~= wrapped(right) + (colon + rest));
    let q3 = lemma_read_operand(right, Precedence::Parentheses, q2, colon + rest);
    assert((colon + rest)[0] == TokenView::Colon);
    lemma_take(q3, colon + rest);
    let q4 = q3.advance().parser;
    assert((colon + rest).skip(1) =~= rest);
    assert(q3.infix(right, Precedence::Parentheses) == Ok::<(Option<ExprView>, ParserView), ErrorView>((Some(right), q4)));
    assert(q3.continued(right, Precedence::Parentheses) == Ok::<(Option<ExprView>, ParserView), ErrorView>((Some(right), q4)));
    assert(q2.required(Precedence::Parentheses) == Ok::<(ExprView, ParserView), ErrorView>((right, q4)));
    assert(q1.infix(left, level) == q4.infix(e, level));
    q4
}

proof fn lemma_read_open_bare(e: ExprView, level: Precedence, p: ParserView, rest: Seq<TokenView>) -> (q:
    ParserView)
    requires
        written(e),
        ahead(p, opened(e) + rest),
        level.rank_of() >= 15,
        e.hinged(),
        rest.len() > 0,
        rest[0] matches TokenView::Operator(o) && o.suffix(),
        e.bare(),
    ensures
        p.operand(level) == q.infix(e, level),
        ahead(q, rest),
        q.remaining() < p.remaining(),
    decreases e, 0nat,
{
    lemma_tokens(e);
    let left = *e->Infix_0;
    let operator = e->Infix_1;
    let right = *e->Infix_2;
    let inner = *right->Suffix_0;
    let last = right->Suffix_1;
    assert(written(left) && written(right));
    assert(written(inner) && last.suffix());
    assert(Precedence::of_operator(operator) == Precedence::Prefix);
    lemma_tokens(left);
    lemma_tokens(right);
    let mark = seq![TokenView::Operator(operator)];
    let tail = seq![TokenView::Operator(last)];
    let then = mark + (wrapped(inner) + (tail + rest));
    assert(opened(e) + rest =~= lead(left, operator) + then);
    assert(then[0] == TokenView::Operator(operator));
    let q1 = if operator.suffix() {
        lemma_read_open(left, level, p, then)
    } else {
        let q1 = lemma_read_operand(left, level, p, then);
        assert(q1.continued(left, level) == q1.infix(left, level));
        q1
    };
    lemma_take(q1, then);
    let q2 = q1.advance().parser;
    assert(then.skip(1) =~= wrapped(inner) + (tail + rest));
    let q3 = lemma_read_operand(inner, Precedence::Prefix, q2, tail + rest);
    assert((tail + rest)[0] == TokenView::Operator(last));
    lemma_take(q3, tail + rest);
    let q4 = q3.advance().parser;
    assert((tail + rest).skip(1) =~= rest);
    assert(q4.infix(right, Precedence::Prefix) == Ok::<(Option<ExprView>, ParserView), ErrorView>((Some(right), q4)));
    assert(q3.continued(inner, Precedence::Prefix) == Ok::<(Option<ExprView>, ParserView), ErrorView>((Some(right), q4)));
    assert(q2.required(Precedence::Prefix) == Ok::<(ExprView, ParserView), ErrorView>((right, q4)));
    assert(q1.infix(left, level) == q4.infix(e, level));
    q4
}

proof fn lemma_read_open_condition(e: ExprView, level: Precedence, p: ParserView, rest: Seq<TokenView>) -> (q:
    ParserView)
    requires
        written(e),
        ahead(p, opened(e) + rest),
        level.rank_of() >= 15,
        e.hinged(),
        rest.len() > 0,
        rest[0] matches TokenView::Operator(o) && o.suffix(),
        e is Condition,
    ensures
        p.operand(level) == q.infix(e, level),
        ahead(q, rest),
        q.remaining() < p.remaining(),
    decreases e, 0nat,
{
    lemma_tokens(e);
    let condition = *e->Condition_0;
    let on_true = *e->Condition_1;
    let on_false = *e->Condition_2;
    let mark = seq![TokenView::QuestionMark];
    let colon = seq![TokenView::Colon];
    let class = Precedence::TernaryConditional;
    let third = wrapped(on_false) + (colon + rest);
    let second = wrapped(on_true) + (colon + third);
    assert(opened(e) + rest =~= wrapped(condition) + (mark + second));
    let q1 = lemma_read_operand(condition, level, p, mark + second);
    lemma_take(q1, mark + second);
    let q2 = q1.advance().parser;
    assert((mark + second).skip(1) =~= second);
    assert((mark + second)[0] == TokenView::QuestionMark);
    let q3 = lemma_read_operand(on_true, class, q2, colon + third);
    assert((colon + third)[0] == TokenView::Colon);
    assert(q3.infix(on_true, class) == Ok::<(Option<ExprView>, ParserView), ErrorView>((Some(on_true), q3)));
    assert(q3.continued(on_true, class) == Ok::<(Option<ExprView>, ParserView), ErrorView>((Some(on_true), q3)));
    assert(q2.required(class) == Ok::<(ExprView, ParserView), ErrorView>((on_true, q3)));
    lemma_take(q3, colon + third);
    let q4 = q3.advance().parser;
    assert((colon + third).skip(1) =~= third);
    let q5 = lemma_read_operand(on_false, Precedence::Assignment, q4, colon + rest);
    assert((colon + rest)[0] == TokenView::Colon);
    lemma_take(q5, colon + rest);
    let q6 = q5.advance().parser;
    assert((colon + rest).skip(1) =~= rest);
    assert(q5.infix(on_false, Precedence::Assignment) == Ok::<(Option<ExprView>, ParserView), ErrorView>((Some(on_false), q6)));
    assert(q5.continued(on_false, Precedence::Assignment) == Ok::<(Option<ExprView>, ParserView), ErrorView>((Some(on_false), q6)));
    assert(q4.required(Precedence::Assignment) == Ok::<(ExprView, ParserView), ErrorView>((on_false, q6)));
    assert(q1.infix(condition, level) == q6.infix(e, level));
    assert(q1.continued(condition, level) == q1.infix(condition, level));
    q6
}

proof fn lemma_read_condition(e: ExprView, level: Precedence, p: ParserView, rest: Seq<TokenView>) -> (q:
    ParserView)
    requires
        written(e),
        ahead(p, own(e) + rest),
        settles(level, rest),
        e is Condition,
    ensures
        p.operand(level) == Ok::<(Option<ExprView>, ParserView), ErrorView>((Some(e), q)),
        ahead(q, rest),
        q.remaining() < p.remaining(),
    decreases e, 0nat,
{
    lemma_tokens(e);
    let condition = *e->Condition_0;
    let on_true = *e->Condition_1;
    let on_false = *e->Condition_2;
    let mark = seq![TokenView::QuestionMark];
    let colon = seq![TokenView::Colon];
    let class = Precedence::TernaryConditional;
    let second = wrapped(on_true) + (colon + (wrapped(on_false) + rest));
    let third = wrapped(on_false) + rest;
    assert(own(e) + rest =~= wrapped(condition) + (mark + second));
    let q1 = lemma_read_operand(condition, level, p, mark + second);
    lemma_take(q1, mark + second);
    let q2 = q1.advance().parser;
    assert((mark + second).skip(1) =~= second);
    assert((mark + second)[0] == TokenView::QuestionMark);
    let q3 = lemma_read_operand(on_true, class, q2, colon + third);
    assert((colon + third)[0] == TokenView::Colon);
    assert(q3.infix(on_true, class) == Ok::<(Option<ExprView>, ParserView), ErrorView>(
        (Some(on_true), q3),
    ));
    assert(q3.continued(on_true, class) == Ok::<(Option<ExprView>, ParserView), ErrorView>(
        (Some(on_true), q3),
    ));
    assert(q2.required(class) == Ok::<(ExprView, ParserView), ErrorView>((on_true, q3)));
    lemma_take(q3, colon + third);
    let q4 = q3.advance().parser;
    assert((colon + third).skip(1) =~= third);
    let q5 = lemma_read_operand(on_false, class.right_side(), q4, rest);
    assert(q5.continued(on_false, class.right_side()) == Ok::<
        (Option<ExprView>, ParserView),
        ErrorView,
    >((Some(on_false), q5)));
    assert(q4.required(class.right_side()) == Ok::<(ExprView, ParserView), ErrorView>(
        (on_false, q5),
    ));
    assert(q5.infix(e, level) == Ok::<(Option<ExprView>, ParserView), ErrorView>((Some(e), q5)));
    assert(q1.infix(condition, level) == Ok::<(Option<ExprView>, ParserView), ErrorView>(
        (Some(e), q5),
    ));
    q5
}

/// An expression that is made as reading makes expressions is read back
/// from the text that it is written as.
pub proof fn lemma_written_reads_back(e: ExprView)
    requires
        written(e),
    ensures
        parse_text(e.rendering()) == Ok::<ExprView, ErrorView>(e),
{
    let s = e.rendering();
    lemma_rendering_tokens(e);
    lemma_pieces(e);
    let begin = ParserView::start(s);
    let ts = own(e);
    let lexed = step(s, 0);
    lemma_neat_ends(e.pieces());
    lemma_tokens(e);
    assert(tokens_of(s).tokens.len() > 0) by {
        lemma_tokens_first(e.pieces());
    }
    lemma_advance_progress(begin);
    match lexed.outcome {
        Some(Ok(t)) => {
            let more = tokens_from(s, lexed.position);
            assert(tokens_from(s, 0).tokens == seq![t] + more.tokens);
            assert((seq![t] + more.tokens)[0] == t);
            assert((seq![t] + more.tokens).skip(1) =~= more.tokens);
            let primed = begin.advance().parser;
            assert(ahead(primed, ts));
            assert(ts + Seq::<TokenView>::empty() =~= ts);
            let q = lemma_read(e, Precedence::Separator, primed, Seq::empty());
        },
        _ => {},
    }
}

/// Pieces that can be told apart and are not none hold a token.
proof fn lemma_tokens_first(pieces: Seq<Piece>)
    requires
        neat(pieces),
        pieces.len() > 0,
    ensures
        tokens_in(pieces).len() > 0,
{
}


/// An exponent that is cut out of a text with all that it holds is an
/// exponent of the part.
proof fn lemma_exponent_cut(s: Seq<char>, pos: int, end: int, k: int)
    requires
        0 <= pos <= pos + k <= end <= s.len(),
        exponent_end(s, pos + k) == Some(end),
    ensures
        exponent_end(s.subrange(pos, end), k) == Some(end - pos),
{
    let t = s.subrange(pos, end);
    let digit = CharClass::Digit;
    let i = pos + k;
    let j = if i + 1 < s.len() && (s[i + 1] == '+' || s[i + 1] == '-') {
        i + 2
    } else {
        i + 1
    };
    lemma_run_end_bounds(s, j, digit);
    assert(run_end(s, j, digit) == end);
    assert(j < end);
    assert(t[k] == s[i]);
    if k + 1 < t.len() {
        assert(t[k + 1] == s[i + 1]);
    }
    lemma_run_cut(s, pos, end, j - pos, digit);
}

/// The text of a decimal literal that the lexer finds is a decimal
/// literal.
proof fn lemma_decimal_cut(s: Seq<char>, pos: int)
    requires
        0 <= pos < s.len(),
        decimal_end(s, pos) is Some,
    ensures
        pos < decimal_end(s, pos)->0 <= s.len(),
        is_decimal(s.subrange(pos, decimal_end(s, pos)->0)),
{
    let digit = CharClass::Digit;
    let end = decimal_end(s, pos)->0;
    let a = run_end(s, pos, digit);
    lemma_run_end_bounds(s, pos, digit);
    if a < s.len() && s[a] == '.' {
        let b = run_end(s, a + 1, digit);
        lemma_run_end_bounds(s, a + 1, digit);
        if exponent_end(s, b) is Some {
            lemma_exponent_bounds(s, b);
        }
        let t = s.subrange(pos, end);
        lemma_run_cut(s, pos, end, 0, digit);
        assert(t[a - pos] == s[a]);
        lemma_run_cut(s, pos, end, a + 1 - pos, digit);
        if exponent_end(s, b) is Some {
            lemma_exponent_cut(s, pos, end, b - pos);
        }
    } else {
        lemma_exponent_bounds(s, a);
        let t = s.subrange(pos, end);
        lemma_run_cut(s, pos, end, 0, digit);
        lemma_exponent_cut(s, pos, end, a - pos);
        assert(a < end);
    }
}

/// An exponent ends behind its start and inside the text.
proof fn lemma_exponent_bounds(s: Seq<char>, i: int)
    requires
        0 <= i <= s.len(),
    ensures
        exponent_end(s, i) matches Some(e) ==> i + 1 < e <= s.len(),
{
    if i < s.len() {
        lemma_run_end_bounds(s, i + 1, CharClass::Digit);
        if i + 2 <= s.len() {
            lemma_run_end_bounds(s, i + 2, CharClass::Digit);
        }
    }
}

/// Every token that the lexer hands out is a valid token.
pub proof fn lemma_scan_valid(s: Seq<char>, pos: int)
    requires
        0 <= pos < s.len(),
    ensures
        scan(s, pos) matches Scanned::Token { token, end } ==> valid_token(token),
{
    if decimal_end(s, pos) is Some {
        lemma_decimal_cut(s, pos);
    } else if integer_span(s, pos) is Some {
        let span = integer_span(s, pos)->0;
        lemma_radix_value_nonnegative(s.subrange(span.start, span.end), span.radix);
    } else if CharClass::Name.holds(s[pos]) {
        let end = run_end(s, pos, CharClass::Name);
        lemma_run_holds(s, pos, CharClass::Name);
        let name = s.subrange(pos, end);
        assert(run_end(s, pos, CharClass::Name) == run_end(s, pos + 1, CharClass::Name));
        lemma_run_end_bounds(s, pos + 1, CharClass::Name);
        assert(name[0] == s[pos]);
        assert forall|k: int| 0 <= k < name.len() implies CharClass::Name.holds(
            #[trigger] name[k],
        ) by {
            assert(name[k] == s[pos + k]);
        }
    }
}

/// Whether the token that the parser has read ahead, if it has one, is a
/// valid token.
pub open spec fn sane(p: ParserView) -> bool {
    p.well_formed() && (p.peek matches Some(t) ==> valid_token(t))
}

/// Taking a token leaves a valid token read ahead, and hands out a valid
/// token.
proof fn lemma_advance_sane(p: ParserView)
    requires
        sane(p),
    ensures
        sane(p.advance().parser),
        p.advance().outcome matches Ok(Some(t)) ==> valid_token(t),
{
    lemma_advance_progress(p);
    let start = run_end(p.text, p.position, CharClass::Space);
    lemma_run_end_bounds(p.text, p.position, CharClass::Space);
    if start < p.text.len() {
        lemma_scan_valid(p.text, start);
    }
}

/// Whether `++` or `--` is read ahead.
pub open spec fn increment_ahead(p: ParserView) -> bool {
    p.peek matches Some(TokenView::Operator(o)) && o.suffix()
}

/// What holds of an expression `e` that was read at the class `level`
/// where `++` or `--` is the token behind it: it was read as the operand
/// of an operator of one operand and ends with `++` or `--` itself, or it
/// was read as the last operand of an assignment or of a condition, or in
/// parentheses, or as the whole expression, and a colon ended it.
pub open spec fn follows(level: Precedence, e: ExprView, q: ParserView) -> bool {
    increment_ahead(q) ==> (level.rank_of() <= 1 && e is Suffix) || level.rank_of() >= 14
}

/// Whether the expression `left` may be followed by the operators between
/// operands that the parser `p` has before it: `++` and `--` only behind
/// an expression that they can stand behind.
pub open spec fn fits(p: ParserView, left: ExprView, level: Precedence) -> bool {
    increment_ahead(p) ==> left.hinged() && (level.rank_of() <= 1 ==> left is Suffix)
}

/// Whatever is read is made as `written` says: an operand that must be
/// there, and an operand with what follows it.
pub proof fn lemma_read_is_written(p: ParserView, precedence: Precedence)
    requires
        sane(p),
    ensures
        p.required(precedence) matches Ok((e, q)) ==> written(e) && sane(q) && follows(
            precedence,
            e,
            q,
        ),
        p.operand(precedence) matches Ok((Some(e), q)) ==> written(e) && sane(q) && follows(
            precedence,
            e,
            q,
        ),
    decreases p.remaining(), 3int,
{
    lemma_operand_is_written(p, precedence);
}

proof fn lemma_operand_is_written(p: ParserView, precedence: Precedence)
    requires
        sane(p),
    ensures
        p.operand(precedence) matches Ok((Some(e), q)) ==> written(e) && sane(q) && follows(
            precedence,
            e,
            q,
        ),
    decreases p.remaining(), 2int,
{
    lemma_advance_progress(p);
    lemma_advance_sane(p);
    let a = p.advance();
    let q = a.parser;
    match a.outcome {
        Ok(Some(token)) => match token {
            TokenView::Number(n) => {
                lemma_continued_is_written(
                    q,
                    ExprView::Number(LiteralView::Integer(n)),
                    precedence,
                );
            },
            TokenView::FloatingNumber(text) => {
                lemma_continued_is_written(
                    q,
                    ExprView::Number(LiteralView::Decimal(text)),
                    precedence,
                );
            },
            TokenView::Variable(name) => {
                lemma_continued_is_written(q, ExprView::Variable(name), precedence);
            },
            TokenView::Operator(operator) => {
                if operator.prefix() {
                    lemma_read_is_written(q, Precedence::Prefix);
                    lemma_reading_advances(q, Precedence::Prefix);
                    match q.required(Precedence::Prefix) {
                        Ok((right, r)) => {
                            lemma_continued_is_written(
                                r,
                                ExprView::Prefix(operator, Box::new(right)),
                                precedence,
                            );
                        },
                        Err(_) => {},
                    }
                }
            },
            TokenView::LeftParen => {
                lemma_read_is_written(q, Precedence::Parentheses);
                lemma_reading_advances(q, Precedence::Parentheses);
                match q.required(Precedence::Parentheses) {
                    Ok((inner, r)) => {
                        lemma_advance_progress(r);
                        lemma_advance_sane(r);
                        let closing = r.advance();
                        match closing.outcome {
                            Ok(Some(TokenView::RightParen)) => {
                                lemma_continued_is_written(closing.parser, inner, precedence);
                            },
                            _ => {},
                        }
                    },
                    Err(_) => {},
                }
            },
            _ => {},
        },
        _ => {},
    }
}

proof fn lemma_continued_is_written(p: ParserView, left: ExprView, precedence: Precedence)
    requires
        sane(p),
        written(left),
    ensures
        p.continued(left, precedence) matches Ok((Some(e), q)) ==> written(e) && sane(q)
            && follows(precedence, e, q),
    decreases p.remaining(), 1int,
{
    match p.peek {
        Some(TokenView::Operator(operator)) => {
            if operator.suffix() {
                lemma_advance_progress(p);
                lemma_advance_sane(p);
                let a = p.advance();
                if a.outcome is Ok {
                    lemma_infix_is_written(
                        a.parser,
                        ExprView::Suffix(Box::new(left), operator),
                        precedence,
                    );
                }
            } else {
                lemma_infix_is_written(p, left, precedence);
            }
        },
        Some(TokenView::RightParen) => {},
        Some(_) => {
            lemma_infix_is_written(p, left, precedence);
        },
        None => {},
    }
}

proof fn lemma_infix_is_written(p: ParserView, left: ExprView, precedence: Precedence)
    requires
        sane(p),
        written(left),
        fits(p, left, precedence),
    ensures
        p.infix(left, precedence) matches Ok((Some(e), q)) ==> written(e) && sane(q) && follows(
            precedence,
            e,
            q,
        ),
    decreases p.remaining(), 0int,
{
    match p.peek {
        None => {},
        Some(token) => match Precedence::of_token(token) {
            None => {},
            Some(class) => {
                if class.before(precedence) {
                    lemma_advance_progress(p);
                    lemma_advance_sane(p);
                    let a = p.advance();
                    let q = a.parser;
                    if a.outcome is Ok {
                        match token {
                            TokenView::Operator(operator) => {
                                lemma_read_is_written(q, class.right_side());
                                lemma_reading_advances(q, class.right_side());
                                match q.required(class.right_side()) {
                                    Ok((right, r)) => {
                                        let whole = ExprView::Infix(
                                            Box::new(left),
                                            operator,
                                            Box::new(right),
                                        );
                                        assert(written(whole));
                                        assert(fits(r, whole, precedence)) by {
                                            if increment_ahead(r) {
                                                assert(follows(class.right_side(), right, r));
                                                assert(whole.hinged());
                                            }
                                        }
                                        lemma_infix_is_written(r, whole, precedence);
                                    },
                                    Err(_) => {},
                                }
                            },
                            TokenView::QuestionMark => {
                                lemma_read_is_written(q, class);
                                lemma_reading_advances(q, class);
                                match q.required(class) {
                                    Ok((on_true, r)) => {
                                        lemma_advance_progress(r);
                                        lemma_advance_sane(r);
                                        let colon = r.advance();
                                        match colon.outcome {
                                            Ok(Some(TokenView::Colon)) => {
                                                lemma_read_is_written(
                                                    colon.parser,
                                                    class.right_side(),
                                                );
                                                lemma_reading_advances(
                                                    colon.parser,
                                                    class.right_side(),
                                                );
                                                match colon.parser.required(class.right_side()) {
                                                    Ok((on_false, w)) => {
                                                        lemma_infix_is_written(
                                                            w,
                                                            ExprView::Condition(
                                                                Box::new(left),
                                                                Box::new(on_true),
                                                                Box::new(on_false),
                                                            ),
                                                            precedence,
                                                        );
                                                    },
                                                    Err(_) => {},
                                                }
                                            },
                                            _ => {},
                                        }
                                    },
                                    Err(_) => {},
                                }
                            },
                            _ => {},
                        }
                    }
                }
            },
        },
    }
}

/// Every expression that a text is read as is made as `written` says.
pub proof fn lemma_parsed_is_written(text: Seq<char>)
    ensures
        parse_text(text) matches Ok(e) ==> written(e),
{
    let begin = ParserView::start(text);
    lemma_advance_sane(begin);
    if begin.advance().outcome is Ok {
        lemma_read_is_written(begin.advance().parser, Precedence::Separator);
    }
}


/// An expression has the value of the expression that its rendering is
/// read as, whatever the arithmetic and the variables are: every text that
/// is read as an expression is read as the same expression once that
/// expression is written again.
pub proof fn lemma_rendering_keeps_the_value(text: Seq<char>, vars: Vars, a: Arithmetic)
    requires
        parse_text(text) is Ok,
    ensures
        parse_text(parse_text(text)->Ok_0.rendering()) == parse_text(text),
        parse_text(parse_text(text)->Ok_0.rendering()) matches Ok(back) && value_of(back, vars, a)
            == value_of(parse_text(text)->Ok_0, vars, a),
{
    lemma_parsed_is_written(text);
    lemma_written_reads_back(parse_text(text)->Ok_0);
}

} // verus!

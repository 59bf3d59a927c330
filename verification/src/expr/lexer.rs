//! Cuts the text of an expression into tokens, one at a time.

use crate::expr::errors::{Error, ErrorKind, ErrorView};
use crate::expr::types::{Literal, LiteralView, Operator, Token, TokenView};
use crate::text::{chars_of, string_of, substring};
use vstd::prelude::*;

verus! {

/// The classes of characters that the lexer tells apart.
#[derive(Debug, Clone, Copy, PartialEq, Eq, Structural)]
pub enum CharClass {
    Space,
    Digit,
    Hexadecimal,
    Octal,
    Binary,
    Name,
}

impl CharClass {
    /// Whether `c` belongs to the class. `Name` holds the characters that a
    /// name may continue with: letters, digits and the underscore.
    pub open spec fn holds(self, c: char) -> bool {
        match self {
            CharClass::Space => c == ' ' || c == '\t' || c == '\r' || c == '\n',
            CharClass::Digit => '0' <= c <= '9',
            CharClass::Hexadecimal => ('0' <= c <= '9') || ('a' <= c <= 'f') || ('A' <= c <= 'F'),
            CharClass::Octal => '0' <= c <= '7',
            CharClass::Binary => c == '0' || c == '1',
            CharClass::Name => ('a' <= c <= 'z') || ('A' <= c <= 'Z') || ('0' <= c <= '9') || c
                == '_',
        }
    }

    pub fn test(self, c: char) -> (b: bool)
        ensures
            b == self.holds(c),
    {
        match self {
            CharClass::Space => c == ' ' || c == '\t' || c == '\r' || c == '\n',
            CharClass::Digit => '0' <= c && c <= '9',
            CharClass::Hexadecimal => ('0' <= c && c <= '9') || ('a' <= c && c <= 'f') || ('A' <= c
                && c <= 'F'),
            CharClass::Octal => '0' <= c && c <= '7',
            CharClass::Binary => c == '0' || c == '1',
            CharClass::Name => ('a' <= c && c <= 'z') || ('A' <= c && c <= 'Z') || ('0' <= c && c
                <= '9') || c == '_',
        }
    }
}

/// Where the longest run of characters of `class` that starts at `from`
/// ends: the index of the first character at or after `from` that is not
/// of the class, or the length of `s`.
pub open spec fn run_end(s: Seq<char>, from: int, class: CharClass) -> int
    decreases s.len() - from,
{
    if 0 <= from < s.len() && class.holds(s[from]) {
        run_end(s, from + 1, class)
    } else {
        from
    }
}

/// A run ends at or after its start and inside the text.
pub proof fn lemma_run_end_bounds(s: Seq<char>, from: int, class: CharClass)
    requires
        0 <= from <= s.len(),
    ensures
        from <= run_end(s, from, class) <= s.len(),
    decreases s.len() - from,
{
    if from < s.len() && class.holds(s[from]) {
        lemma_run_end_bounds(s, from + 1, class);
    }
}

/// The value of a digit in any radix up to sixteen; zero for any other
/// character.
pub open spec fn digit_value(c: char) -> int {
    if '0' <= c <= '9' {
        c as int - 48
    } else if 'a' <= c <= 'f' {
        c as int - 87
    } else if 'A' <= c <= 'F' {
        c as int - 55
    } else {
        0
    }
}

/// The number that `digits` writes in the given radix.
pub open spec fn radix_value(digits: Seq<char>, radix: int) -> int
    decreases digits.len(),
{
    if digits.len() == 0 {
        0
    } else {
        radix_value(digits.drop_last(), radix) * radix + digit_value(digits.last())
    }
}

/// Where an exponent that starts at `i` ends: `e` or `E`, an optional sign,
/// and at least one digit.
pub open spec fn exponent_end(s: Seq<char>, i: int) -> Option<int> {
    if 0 <= i < s.len() && (s[i] == 'e' || s[i] == 'E') {
        let j = if i + 1 < s.len() && (s[i + 1] == '+' || s[i + 1] == '-') {
            i + 2
        } else {
            i + 1
        };
        let k = run_end(s, j, CharClass::Digit);
        if k > j {
            Some(k)
        } else {
            None
        }
    } else {
        None
    }
}

/// Where a decimal literal that starts at `i` ends. Such a literal is
/// digits with a point and perhaps more digits, or a point followed by
/// digits, either with an optional exponent; or digits with an exponent.
/// Digits alone are an integer, and no decimal literal.
pub open spec fn decimal_end(s: Seq<char>, i: int) -> Option<int> {
    let a = run_end(s, i, CharClass::Digit);
    if 0 <= a < s.len() && s[a] == '.' {
        let b = run_end(s, a + 1, CharClass::Digit);
        if a > i || b > a + 1 {
            match exponent_end(s, b) {
                Some(e) => Some(e),
                None => Some(b),
            }
        } else {
            None
        }
    } else if a > i {
        exponent_end(s, a)
    } else {
        None
    }
}

/// The digits of an integer literal that starts at `i`.
pub struct IntegerSpan {
    pub start: int,
    pub end: int,
    pub radix: int,
}

/// Where the digits of an integer with the prefix `0` and `lower` or `upper`
/// end, if such an integer starts at `i`.
pub open spec fn prefixed_end(
    s: Seq<char>,
    i: int,
    lower: char,
    upper: char,
    class: CharClass,
) -> Option<int> {
    if 0 <= i && i + 1 < s.len() && s[i] == '0' && (s[i + 1] == lower || s[i + 1] == upper)
        && run_end(s, i + 2, class) > i + 2 {
        Some(run_end(s, i + 2, class))
    } else {
        None
    }
}

/// The integer literal that starts at `i`: hexadecimal after `0x`, octal
/// after `0o`, binary after `0b`, else decimal.
pub open spec fn integer_span(s: Seq<char>, i: int) -> Option<IntegerSpan> {
    if prefixed_end(s, i, 'x', 'X', CharClass::Hexadecimal) is Some {
        Some(
            IntegerSpan {
                start: i + 2,
                end: prefixed_end(s, i, 'x', 'X', CharClass::Hexadecimal)->0,
                radix: 16,
            },
        )
    } else if prefixed_end(s, i, 'o', 'O', CharClass::Octal) is Some {
        Some(
            IntegerSpan {
                start: i + 2,
                end: prefixed_end(s, i, 'o', 'O', CharClass::Octal)->0,
                radix: 8,
            },
        )
    } else if prefixed_end(s, i, 'b', 'B', CharClass::Binary) is Some {
        Some(
            IntegerSpan {
                start: i + 2,
                end: prefixed_end(s, i, 'b', 'B', CharClass::Binary)->0,
                radix: 2,
            },
        )
    } else if 0 <= i < s.len() && CharClass::Digit.holds(s[i]) {
        Some(IntegerSpan { start: i, end: run_end(s, i, CharClass::Digit), radix: 10 })
    } else {
        None
    }
}

/// The operator written with the three characters `a`, `b`, `c`.
pub open spec fn operator_of_three(a: char, b: char, c: char) -> Option<Operator> {
    if a == '>' && b == '>' && c == '=' {
        Some(Operator::AssignRightShift)
    } else if a == '<' && b == '<' && c == '=' {
        Some(Operator::AssignLeftShift)
    } else {
        None
    }
}

/// The operator written with the two characters `a`, `b`.
pub open spec fn operator_of_two(a: char, b: char) -> Option<Operator> {
    if a == '<' && b == '<' {
        Some(Operator::LeftShift)
    } else if a == '>' && b == '>' {
        Some(Operator::RightShift)
    } else if a == '=' && b == '=' {
        Some(Operator::Equal)
    } else if a == '!' && b == '=' {
        Some(Operator::NotEqual)
    } else if a == '&' && b == '&' {
        Some(Operator::And)
    } else if a == '|' && b == '|' {
        Some(Operator::Or)
    } else if a == '+' && b == '+' {
        Some(Operator::Increment)
    } else if a == '-' && b == '-' {
        Some(Operator::Decrement)
    } else if a == '+' && b == '=' {
        Some(Operator::AssignAdd)
    } else if a == '-' && b == '=' {
        Some(Operator::AssignSubtract)
    } else if a == '*' && b == '=' {
        Some(Operator::AssignMultiply)
    } else if a == '/' && b == '=' {
        Some(Operator::AssignDivide)
    } else if a == '%' && b == '=' {
        Some(Operator::AssignModulo)
    } else if a == '&' && b == '=' {
        Some(Operator::AssignBitAnd)
    } else if a == '|' && b == '=' {
        Some(Operator::AssignBitOr)
    } else if a == '^' && b == '=' {
        Some(Operator::AssignBitExclusiveOr)
    } else if a == '<' && b == '=' {
        Some(Operator::LessThanOrEqual)
    } else if a == '>' && b == '=' {
        Some(Operator::GreaterThanOrEqual)
    } else {
        None
    }
}

/// The operator written with the one character `a`.
pub open spec fn operator_of_one(a: char) -> Option<Operator> {
    if a == '=' {
        Some(Operator::Assign)
    } else if a == '<' {
        Some(Operator::LessThan)
    } else if a == '>' {
        Some(Operator::GreaterThan)
    } else if a == '^' {
        Some(Operator::BitExclusiveOr)
    } else if a == '|' {
        Some(Operator::BitOr)
    } else if a == '&' {
        Some(Operator::BitAnd)
    } else if a == '+' {
        Some(Operator::Add)
    } else if a == '-' {
        Some(Operator::Subtract)
    } else if a == '*' {
        Some(Operator::Multiply)
    } else if a == '/' {
        Some(Operator::Divide)
    } else if a == '%' {
        Some(Operator::Modulo)
    } else if a == '~' {
        Some(Operator::Negate)
    } else if a == '!' {
        Some(Operator::Not)
    } else {
        None
    }
}

/// An operator and the number of characters it is written with.
pub struct OperatorMatch {
    pub operator: Operator,
    pub length: int,
}

/// The longest operator that starts at `i`.
pub open spec fn operator_at(s: Seq<char>, i: int) -> Option<OperatorMatch> {
    if 0 <= i && i + 2 < s.len() && operator_of_three(s[i], s[i + 1], s[i + 2]) is Some {
        Some(
            OperatorMatch { operator: operator_of_three(s[i], s[i + 1], s[i + 2])->0, length: 3 },
        )
    } else if 0 <= i && i + 1 < s.len() && operator_of_two(s[i], s[i + 1]) is Some {
        Some(OperatorMatch { operator: operator_of_two(s[i], s[i + 1])->0, length: 2 })
    } else if 0 <= i < s.len() && operator_of_one(s[i]) is Some {
        Some(OperatorMatch { operator: operator_of_one(s[i])->0, length: 1 })
    } else {
        None
    }
}

/// The token that the single character `c` is, if it is a punctuation mark.
pub open spec fn punctuation(c: char) -> Option<TokenView> {
    if c == ',' {
        Some(TokenView::Comma)
    } else if c == '?' {
        Some(TokenView::QuestionMark)
    } else if c == ':' {
        Some(TokenView::Colon)
    } else if c == '(' {
        Some(TokenView::LeftParen)
    } else if c == ')' {
        Some(TokenView::RightParen)
    } else {
        None
    }
}

/// What stands at some place of the text.
pub enum Scanned {
    /// A token, and the index just behind it.
    Token { token: TokenView, end: int },
    /// No token.
    Failure(ErrorKind),
}

/// The token that starts at index `i` of `s`. A decimal literal is tried
/// first, then an integer, a name, an operator and a punctuation mark. An
/// integer that does not fit the machine's signed integer is an invalid
/// number; a character that starts none of these is an invalid character.
pub open spec fn scan(s: Seq<char>, i: int) -> Scanned
    recommends
        0 <= i < s.len(),
{
    if decimal_end(s, i) is Some {
        let end = decimal_end(s, i)->0;
        Scanned::Token { token: TokenView::FloatingNumber(s.subrange(i, end)), end }
    } else if integer_span(s, i) is Some {
        let span = integer_span(s, i)->0;
        let value = radix_value(s.subrange(span.start, span.end), span.radix);
        if value <= isize::MAX {
            Scanned::Token { token: TokenView::Number(value), end: span.end }
        } else {
            Scanned::Failure(ErrorKind::InvalidNumber)
        }
    } else if CharClass::Name.holds(s[i]) {
        let end = run_end(s, i, CharClass::Name);
        Scanned::Token { token: TokenView::Variable(s.subrange(i, end)), end }
    } else if operator_at(s, i) is Some {
        let m = operator_at(s, i)->0;
        Scanned::Token { token: TokenView::Operator(m.operator), end: i + m.length }
    } else if punctuation(s[i]) is Some {
        Scanned::Token { token: punctuation(s[i])->0, end: i + 1 }
    } else {
        Scanned::Failure(ErrorKind::InvalidCharacter(s[i]))
    }
}

/// The result of asking for the next token, and the place from which the
/// text is unread afterwards.
pub struct Step {
    pub outcome: Option<Result<TokenView, ErrorView>>,
    pub position: int,
}

/// One step of the lexer from position `pos`. Where nothing is unread
/// there is no token. Else white space is skipped, and the token found
/// behind it is handed out and the white space behind the token is skipped
/// too. Where only white space is unread, its first character is reported
/// as invalid. A step that hands out no token leaves the position where it
/// was.
pub open spec fn step(s: Seq<char>, pos: int) -> Step {
    let start = run_end(s, pos, CharClass::Space);
    if pos >= s.len() || pos < 0 {
        Step { outcome: None, position: pos }
    } else if start >= s.len() {
        Step {
            outcome: Some(
                Err(ErrorView { kind: ErrorKind::InvalidCharacter(s[pos]), context: None }),
            ),
            position: pos,
        }
    } else {
        match scan(s, start) {
            Scanned::Token { token, end } => Step {
                outcome: Some(Ok(token)),
                position: run_end(s, end, CharClass::Space),
            },
            Scanned::Failure(kind) => Step {
                outcome: Some(Err(ErrorView { kind, context: None })),
                position: pos,
            },
        }
    }
}

/// What the result of `TokenStream::next` stands for in contracts.
pub open spec fn outcome_view(r: Option<Result<Token, Error>>) -> Option<
    Result<TokenView, ErrorView>,
> {
    match r {
        None => None,
        Some(Ok(t)) => Some(Ok(t@)),
        Some(Err(e)) => Some(Err(e@)),
    }
}

/// A token that is handed out ends behind the place where it was asked
/// for, and the lexer never leaves the text. A step that hands out no
/// token leaves the position where it was, and there is no token only
/// where nothing is unread.
pub proof fn lemma_step_advances(s: Seq<char>, pos: int)
    requires
        0 <= pos <= s.len(),
    ensures
        pos <= step(s, pos).position <= s.len(),
        step(s, pos).outcome matches Some(Ok(_)) ==> pos < step(s, pos).position,
        !(step(s, pos).outcome matches Some(Ok(_))) ==> step(s, pos).position == pos,
        step(s, pos).outcome is None <==> pos == s.len(),
{
    let start = run_end(s, pos, CharClass::Space);
    lemma_run_end_bounds(s, pos, CharClass::Space);
    if start < s.len() {
        lemma_scan_advances(s, start);
        match scan(s, start) {
            Scanned::Token { token, end } => {
                lemma_run_end_bounds(s, end, CharClass::Space);
            },
            Scanned::Failure(kind) => {},
        }
    }
}

/// A token is at least one character long and ends inside the text.
pub proof fn lemma_scan_advances(s: Seq<char>, i: int)
    requires
        0 <= i < s.len(),
    ensures
        scan(s, i) matches Scanned::Token { token, end } ==> i < end <= s.len(),
{
    lemma_run_end_bounds(s, i, CharClass::Digit);
    let a = run_end(s, i, CharClass::Digit);
    if a < s.len() {
        lemma_run_end_bounds(s, a + 1, CharClass::Digit);
        let b = run_end(s, a + 1, CharClass::Digit);
        lemma_exponent_bounds(s, b);
    }
    lemma_exponent_bounds(s, a);
    if i + 2 <= s.len() {
        lemma_run_end_bounds(s, i + 2, CharClass::Hexadecimal);
        lemma_run_end_bounds(s, i + 2, CharClass::Octal);
        lemma_run_end_bounds(s, i + 2, CharClass::Binary);
    }
    lemma_run_end_bounds(s, i, CharClass::Name);
    if CharClass::Name.holds(s[i]) {
        assert(run_end(s, i, CharClass::Name) == run_end(s, i + 1, CharClass::Name));
        lemma_run_end_bounds(s, i + 1, CharClass::Name);
    }
    if CharClass::Digit.holds(s[i]) {
        assert(run_end(s, i, CharClass::Digit) == run_end(s, i + 1, CharClass::Digit));
        lemma_run_end_bounds(s, i + 1, CharClass::Digit);
    }
}

proof fn lemma_exponent_bounds(s: Seq<char>, i: int)
    requires
        0 <= i <= s.len(),
    ensures
        exponent_end(s, i) matches Some(e) ==> i < e <= s.len(),
{
    if i < s.len() {
        if i + 1 <= s.len() {
            lemma_run_end_bounds(s, i + 1, CharClass::Digit);
        }
        if i + 2 <= s.len() {
            lemma_run_end_bounds(s, i + 2, CharClass::Digit);
        }
    }
}

/// The value of a written number is never negative.
pub proof fn lemma_radix_value_nonnegative(digits: Seq<char>, radix: int)
    requires
        radix >= 1,
    ensures
        radix_value(digits, radix) >= 0,
    decreases digits.len(),
{
    if digits.len() > 0 {
        lemma_radix_value_nonnegative(digits.drop_last(), radix);
        assert(radix_value(digits.drop_last(), radix) * radix >= 0) by (nonlinear_arith)
            requires
                radix_value(digits.drop_last(), radix) >= 0,
                radix >= 1,
        ;
    }
}

/// More digits never write a smaller number: the value of the first `k`
/// digits is at most the value of them all.
pub proof fn lemma_radix_value_grows(digits: Seq<char>, radix: int, k: int)
    requires
        radix >= 1,
        0 <= k <= digits.len(),
    ensures
        radix_value(digits.take(k), radix) <= radix_value(digits, radix),
    decreases digits.len() - k,
{
    if k == digits.len() {
        assert(digits.take(k) =~= digits);
    } else {
        lemma_radix_value_grows(digits, radix, k + 1);
        let longer = digits.take(k + 1);
        assert(longer.drop_last() =~= digits.take(k));
        lemma_radix_value_nonnegative(digits.take(k), radix);
        assert(radix_value(digits.take(k), radix) * radix >= radix_value(digits.take(k), radix))
            by (nonlinear_arith)
            requires
                radix_value(digits.take(k), radix) >= 0,
                radix >= 1,
        ;
    }
}

pub(crate) fn scan_run(chars: &Vec<char>, from: usize, class: CharClass) -> (end: usize)
    requires
        from <= chars.len(),
    ensures
        end == run_end(chars@, from as int, class),
        from <= end <= chars.len(),
{
    let mut i: usize = from;
    while i < chars.len() && class.test(chars[i])
        invariant
            from <= i <= chars.len(),
            run_end(chars@, i as int, class) == run_end(chars@, from as int, class),
        decreases chars.len() - i,
    {
        i += 1;
    }
    i
}

fn digit_of(c: char) -> (d: isize)
    ensures
        d == digit_value(c),
        0 <= d <= 15,
{
    let n: u32 = c as u32;
    if '0' <= c && c <= '9' {
        (n - 48) as isize
    } else if 'a' <= c && c <= 'f' {
        (n - 87) as isize
    } else if 'A' <= c && c <= 'F' {
        (n - 55) as isize
    } else {
        0
    }
}

/// Reads the digits from `from` up to `to` in the given radix; `None` when
/// the number does not fit.
pub(crate) fn number_value(chars: &Vec<char>, from: usize, to: usize, radix: isize) -> (r: Option<isize>)
    requires
        from <= to <= chars.len(),
        2 <= radix <= 16,
    ensures
        match r {
            Some(v) => v == radix_value(chars@.subrange(from as int, to as int), radix as int),
            None => radix_value(chars@.subrange(from as int, to as int), radix as int)
                > isize::MAX,
        },
{
    let ghost digits = chars@.subrange(from as int, to as int);
    let mut acc: isize = 0;
    let mut i: usize = from;
    assert(digits.take(0) =~= Seq::<char>::empty());
    while i < to
        invariant
            from <= i <= to <= chars.len(),
            2 <= radix <= 16,
            digits == chars@.subrange(from as int, to as int),
            acc >= 0,
            acc == radix_value(digits.take(i - from), radix as int),
        decreases to - i,
    {
        let d = digit_of(chars[i]);
        proof {
            let longer = digits.take(i - from + 1);
            assert(longer.drop_last() =~= digits.take(i - from));
            assert(longer.last() == chars@[i as int]);
            assert(radix_value(longer, radix as int) == acc * radix + d);
            lemma_radix_value_grows(digits, radix as int, i - from + 1);
        }
        if acc > (isize::MAX - d) / radix {
            assert(acc * radix + d > isize::MAX) by (nonlinear_arith)
                requires
                    acc > (isize::MAX - d) / (radix as int),
                    2 <= radix <= 16,
                    0 <= d <= 15,
            ;
            return None;
        }
        assert(0 <= acc * radix + d <= isize::MAX) by (nonlinear_arith)
            requires
                acc <= (isize::MAX - d) / (radix as int),
                2 <= radix <= 16,
                0 <= d <= 15,
                0 <= acc,
        ;
        acc = acc * radix + d;
        i += 1;
    }
    assert(digits.take(to - from) =~= digits);
    Some(acc)
}

fn scan_exponent(chars: &Vec<char>, i: usize) -> (r: Option<usize>)
    requires
        i <= chars.len(),
    ensures
        match r {
            Some(e) => exponent_end(chars@, i as int) == Some(e as int) && i < e <= chars.len(),
            None => exponent_end(chars@, i as int) is None,
        },
{
    if i < chars.len() && (chars[i] == 'e' || chars[i] == 'E') {
        let j: usize = if i + 1 < chars.len() && (chars[i + 1] == '+' || chars[i + 1] == '-') {
            i + 2
        } else {
            i + 1
        };
        let k = scan_run(chars, j, CharClass::Digit);
        if k > j {
            Some(k)
        } else {
            None
        }
    } else {
        None
    }
}

fn scan_decimal(chars: &Vec<char>, i: usize) -> (r: Option<usize>)
    requires
        i <= chars.len(),
    ensures
        match r {
            Some(e) => decimal_end(chars@, i as int) == Some(e as int) && i < e <= chars.len(),
            None => decimal_end(chars@, i as int) is None,
        },
{
    let a = scan_run(chars, i, CharClass::Digit);
    if a < chars.len() && chars[a] == '.' {
        let b = scan_run(chars, a + 1, CharClass::Digit);
        if a > i || b > a + 1 {
            match scan_exponent(chars, b) {
                Some(e) => Some(e),
                None => Some(b),
            }
        } else {
            None
        }
    } else if a > i {
        scan_exponent(chars, a)
    } else {
        None
    }
}

fn scan_prefixed(chars: &Vec<char>, i: usize, lower: char, upper: char, class: CharClass) -> (r:
    Option<usize>)
    requires
        i < chars.len(),
    ensures
        match r {
            Some(e) => prefixed_end(chars@, i as int, lower, upper, class) == Some(e as int) && i
                + 2 < e <= chars.len(),
            None => prefixed_end(chars@, i as int, lower, upper, class) is None,
        },
{
    if i + 1 < chars.len() && chars[i] == '0' && (chars[i + 1] == lower || chars[i + 1] == upper) {
        let e = scan_run(chars, i + 2, class);
        if e > i + 2 {
            Some(e)
        } else {
            None
        }
    } else {
        None
    }
}

fn match_three(a: char, b: char, c: char) -> (r: Option<Operator>)
    ensures
        r == operator_of_three(a, b, c),
{
    if a == '>' && b == '>' && c == '=' {
        Some(Operator::AssignRightShift)
    } else if a == '<' && b == '<' && c == '=' {
        Some(Operator::AssignLeftShift)
    } else {
        None
    }
}

fn match_two(a: char, b: char) -> (r: Option<Operator>)
    ensures
        r == operator_of_two(a, b),
{
    if a == '<' && b == '<' {
        Some(Operator::LeftShift)
    } else if a == '>' && b == '>' {
        Some(Operator::RightShift)
    } else if a == '=' && b == '=' {
        Some(Operator::Equal)
    } else if a == '!' && b == '=' {
        Some(Operator::NotEqual)
    } else if a == '&' && b == '&' {
        Some(Operator::And)
    } else if a == '|' && b == '|' {
        Some(Operator::Or)
    } else if a == '+' && b == '+' {
        Some(Operator::Increment)
    } else if a == '-' && b == '-' {
        Some(Operator::Decrement)
    } else if a == '+' && b == '=' {
        Some(Operator::AssignAdd)
    } else if a == '-' && b == '=' {
        Some(Operator::AssignSubtract)
    } else if a == '*' && b == '=' {
        Some(Operator::AssignMultiply)
    } else if a == '/' && b == '=' {
        Some(Operator::AssignDivide)
    } else if a == '%' && b == '=' {
        Some(Operator::AssignModulo)
    } else if a == '&' && b == '=' {
        Some(Operator::AssignBitAnd)
    } else if a == '|' && b == '=' {
        Some(Operator::AssignBitOr)
    } else if a == '^' && b == '=' {
        Some(Operator::AssignBitExclusiveOr)
    } else if a == '<' && b == '=' {
        Some(Operator::LessThanOrEqual)
    } else if a == '>' && b == '=' {
        Some(Operator::GreaterThanOrEqual)
    } else {
        None
    }
}

fn match_one(a: char) -> (r: Option<Operator>)
    ensures
        r == operator_of_one(a),
{
    if a == '=' {
        Some(Operator::Assign)
    } else if a == '<' {
        Some(Operator::LessThan)
    } else if a == '>' {
        Some(Operator::GreaterThan)
    } else if a == '^' {
        Some(Operator::BitExclusiveOr)
    } else if a == '|' {
        Some(Operator::BitOr)
    } else if a == '&' {
        Some(Operator::BitAnd)
    } else if a == '+' {
        Some(Operator::Add)
    } else if a == '-' {
        Some(Operator::Subtract)
    } else if a == '*' {
        Some(Operator::Multiply)
    } else if a == '/' {
        Some(Operator::Divide)
    } else if a == '%' {
        Some(Operator::Modulo)
    } else if a == '~' {
        Some(Operator::Negate)
    } else if a == '!' {
        Some(Operator::Not)
    } else {
        None
    }
}

fn match_operator(chars: &Vec<char>, i: usize) -> (r: Option<(Operator, usize)>)
    requires
        i < chars.len(),
    ensures
        match r {
            Some((op, end)) => operator_at(chars@, i as int) == Some(
                OperatorMatch { operator: op, length: end - i },
            ) && i < end <= chars.len(),
            None => operator_at(chars@, i as int) is None,
        },
{
    if chars.len() - i > 2 {
        if let Some(op) = match_three(chars[i], chars[i + 1], chars[i + 2]) {
            return Some((op, i + 3));
        }
    }
    if i + 1 < chars.len() {
        if let Some(op) = match_two(chars[i], chars[i + 1]) {
            return Some((op, i + 2));
        }
    }
    match match_one(chars[i]) {
        Some(op) => Some((op, i + 1)),
        None => None,
    }
}

fn match_punctuation(c: char) -> (r: Option<Token>)
    ensures
        match r {
            Some(t) => punctuation(c) == Some(t@),
            None => punctuation(c) is None,
        },
{
    if c == ',' {
        Some(Token::Comma)
    } else if c == '?' {
        Some(Token::QuestionMark)
    } else if c == ':' {
        Some(Token::Colon)
    } else if c == '(' {
        Some(Token::LeftParen)
    } else if c == ')' {
        Some(Token::RightParen)
    } else {
        None
    }
}

/// Reads the integer literal at `i`, if one starts there.
fn scan_integer(chars: &Vec<char>, i: usize) -> (r: Option<(usize, usize, isize)>)
    requires
        i < chars.len(),
    ensures
        match r {
            Some((start, end, radix)) => integer_span(chars@, i as int) == Some(
                IntegerSpan { start: start as int, end: end as int, radix: radix as int },
            ) && i <= start <= end <= chars.len() && i < end && 2 <= radix <= 16,
            None => integer_span(chars@, i as int) is None,
        },
{
    if let Some(e) = scan_prefixed(chars, i, 'x', 'X', CharClass::Hexadecimal) {
        return Some((i + 2, e, 16));
    }
    if let Some(e) = scan_prefixed(chars, i, 'o', 'O', CharClass::Octal) {
        return Some((i + 2, e, 8));
    }
    if let Some(e) = scan_prefixed(chars, i, 'b', 'B', CharClass::Binary) {
        return Some((i + 2, e, 2));
    }
    if CharClass::Digit.test(chars[i]) {
        let e = scan_run(chars, i, CharClass::Digit);
        assert(run_end(chars@, i as int, CharClass::Digit) == run_end(
            chars@,
            i + 1,
            CharClass::Digit,
        ));
        proof {
            lemma_run_end_bounds(chars@, i + 1, CharClass::Digit);
        }
        return Some((i, e, 10));
    }
    None
}

/// Reads the token at `i`.
fn scan_token(chars: &Vec<char>, i: usize) -> (r: Result<(Token, usize), ErrorKind>)
    requires
        i < chars.len(),
    ensures
        match r {
            Ok((token, end)) => scan(chars@, i as int) == (Scanned::Token {
                token: token@,
                end: end as int,
            }) && i < end <= chars.len(),
            Err(kind) => scan(chars@, i as int) == Scanned::Failure(kind),
        },
{
    if let Some(end) = scan_decimal(chars, i) {
        return Ok((Token::FloatingNumber(substring(chars, i, end)), end));
    }
    if let Some((start, end, radix)) = scan_integer(chars, i) {
        return match number_value(chars, start, end, radix) {
            Some(value) => Ok((Token::Number(value), end)),
            None => Err(ErrorKind::InvalidNumber),
        };
    }
    if CharClass::Name.test(chars[i]) {
        let end = scan_run(chars, i, CharClass::Name);
        assert(run_end(chars@, i as int, CharClass::Name) == run_end(
            chars@,
            i + 1,
            CharClass::Name,
        ));
        proof {
            lemma_run_end_bounds(chars@, i + 1, CharClass::Name);
        }
        return Ok((Token::Variable(substring(chars, i, end)), end));
    }
    if let Some((op, end)) = match_operator(chars, i) {
        return Ok((Token::Operator(op), end));
    }
    match match_punctuation(chars[i]) {
        Some(token) => Ok((token, i + 1)),
        None => Err(ErrorKind::InvalidCharacter(chars[i])),
    }
}

/// The number that a text stands for when it is read as the value of a
/// variable: white space, an optional sign, white space, and then a decimal
/// literal or an integer in any of the forms that an expression may hold.
/// What follows the number does not count. A text that does not begin with
/// a number, or whose integer does not fit, stands for zero.
pub open spec fn number_of(text: Seq<char>) -> LiteralView {
    let i = run_end(text, 0, CharClass::Space);
    let signed = 0 <= i < text.len() && (text[i] == '+' || text[i] == '-');
    let negative = signed && text[i] == '-';
    let j = if signed {
        run_end(text, i + 1, CharClass::Space)
    } else {
        i
    };
    if decimal_end(text, j) is Some {
        let digits = text.subrange(j, decimal_end(text, j)->0);
        LiteralView::Decimal(
            if negative {
                seq!['-'] + digits
            } else {
                digits
            },
        )
    } else if integer_span(text, j) is Some && radix_value(
        text.subrange(integer_span(text, j)->0.start, integer_span(text, j)->0.end),
        integer_span(text, j)->0.radix,
    ) <= isize::MAX {
        let span = integer_span(text, j)->0;
        let value = radix_value(text.subrange(span.start, span.end), span.radix);
        LiteralView::Integer(
            if negative {
                -value
            } else {
                value
            },
        )
    } else {
        LiteralView::Integer(0)
    }
}

/// Reads the value of a variable as a number.
pub fn read_number(text: &str) -> (n: Literal)
    ensures
        n@ == number_of(text@),
{
    let chars = chars_of(text);
    let i = scan_run(&chars, 0, CharClass::Space);
    let signed = i < chars.len() && (chars[i] == '+' || chars[i] == '-');
    let negative = signed && chars[i] == '-';
    let j = if signed {
        scan_run(&chars, i + 1, CharClass::Space)
    } else {
        i
    };
    if let Some(end) = scan_decimal(&chars, j) {
        let mut digits: Vec<char> = Vec::new();
        if negative {
            digits.push('-');
        }
        let ghost sign = digits@;
        let mut k: usize = j;
        while k < end
            invariant
                j <= k <= end <= chars.len(),
                digits@ == sign + chars@.subrange(j as int, k as int),
            decreases end - k,
        {
            digits.push(chars[k]);
            k += 1;
            assert(sign + chars@.subrange(j as int, k as int) =~= (sign + chars@.subrange(
                j as int,
                k - 1,
            )).push(chars@[k - 1]));
        }
        assert(Seq::<char>::empty() + chars@.subrange(j as int, end as int) =~= chars@.subrange(
            j as int,
            end as int,
        ));
        return Literal::Decimal(string_of(&digits));
    }
    if j < chars.len() {
        if let Some((start, end, radix)) = scan_integer(&chars, j) {
            proof {
                lemma_radix_value_nonnegative(
                    chars@.subrange(start as int, end as int),
                    radix as int,
                );
            }
            return match number_value(&chars, start, end, radix) {
                Some(value) => Literal::Integer(
                    if negative {
                        -value
                    } else {
                        value
                    },
                ),
                None => Literal::Integer(0),
            };
        }
    }
    Literal::Integer(0)
}

/// A text and the place up to which its tokens have been handed out.
pub struct TokenStream {
    input: String,
    chars: Vec<char>,
    position: usize,
    column: usize,
}

impl TokenStream {
    #[verifier::type_invariant]
    spec fn well_formed(self) -> bool {
        &&& self.chars@ == self.input@
        &&& self.position <= self.chars.len()
    }

    /// The whole text.
    pub closed spec fn text(&self) -> Seq<char> {
        self.chars@
    }

    /// The index of the first character that is still unread.
    pub closed spec fn position_of(&self) -> nat {
        self.position as nat
    }

    /// The column kept for diagnostics.
    pub closed spec fn column_of(&self) -> nat {
        self.column as nat
    }

    /// A stream over `i`, with nothing read. The column starts at one; from
    /// the first call of `next` on it is the index at which the text was
    /// unread when `next` was last called.
    pub fn new(i: &str) -> (t: TokenStream)
        ensures
            t.text() == i@,
            t.position_of() == 0,
            t.column_of() == 1,
    {
        TokenStream { input: i.to_owned(), chars: chars_of(i), position: 0, column: 1 }
    }

    pub fn column(&self) -> (c: usize)
        ensures
            c == self.column_of(),
    {
        self.column
    }

    /// The number of characters of the whole text. The unread part never
    /// starts behind the end.
    pub fn length(&self) -> (n: usize)
        ensures
            n == self.text().len(),
            self.position_of() <= n,
    {
        proof {
            use_type_invariant(self);
        }
        self.chars.len()
    }

    /// The whole text.
    pub fn full(&self) -> (s: &str)
        ensures
            s@ == self.text(),
    {
        proof {
            use_type_invariant(self);
        }
        self.input.as_str()
    }

    /// The part of the text that is still unread.
    pub fn unread(&self) -> (s: String)
        ensures
            self.position_of() <= self.text().len(),
            s@ == self.text().subrange(self.position_of() as int, self.text().len() as int),
    {
        proof {
            use_type_invariant(self);
        }
        substring(&self.chars, self.position, self.chars.len())
    }

    /// Hands out the next token, or `None` where nothing is unread. A call
    /// that hands out no token leaves the unread part as it was.
    pub fn next(&mut self) -> (r: Option<Result<Token, Error>>)
        ensures
            final(self).text() == old(self).text(),
            final(self).column_of() == old(self).position_of(),
            old(self).position_of() <= old(self).text().len(),
            final(self).position_of() == step(
                old(self).text(),
                old(self).position_of() as int,
            ).position,
            outcome_view(r) == step(old(self).text(), old(self).position_of() as int).outcome,
            !(r matches Some(Ok(_))) ==> final(self).position_of() == old(self).position_of(),
            r matches Some(Ok(_)) ==> old(self).position_of() < final(self).position_of()
                <= old(self).text().len(),
            r is None <==> old(self).position_of() == old(self).text().len(),
    {
        proof {
            use_type_invariant(&*self);
            lemma_step_advances(self.text(), self.position_of() as int);
        }
        self.column = self.position;
        if self.position >= self.chars.len() {
            return None;
        }
        let start = scan_run(&self.chars, self.position, CharClass::Space);
        if start >= self.chars.len() {
            return Some(Err(Error::new(ErrorKind::InvalidCharacter(self.chars[self.position]))));
        }
        match scan_token(&self.chars, start) {
            Ok((token, end)) => {
                self.position = scan_run(&self.chars, end, CharClass::Space);
                Some(Ok(token))
            },
            Err(kind) => Some(Err(Error::new(kind))),
        }
    }
}

} // verus!

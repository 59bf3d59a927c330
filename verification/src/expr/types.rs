//! The vocabulary of arithmetic expressions: operators, precedence classes,
//! tokens and expression trees.

use crate::text::{append_chars, chars_of, render_signed, signed_decimal, string_of};
use vstd::prelude::*;

verus! {

/// The closed set of operators.
#[derive(Debug, Clone, Copy, PartialEq, Eq, Structural)]
pub enum Operator {
    Add,
    Subtract,
    Multiply,
    Divide,
    Modulo,
    LeftShift,
    RightShift,
    LessThan,
    LessThanOrEqual,
    GreaterThan,
    GreaterThanOrEqual,
    Equal,
    NotEqual,
    BitAnd,
    BitExclusiveOr,
    BitOr,
    And,
    Or,
    AssignAdd,
    AssignSubtract,
    AssignMultiply,
    AssignDivide,
    AssignModulo,
    AssignLeftShift,
    AssignRightShift,
    AssignBitAnd,
    AssignBitExclusiveOr,
    AssignBitOr,
    Assign,
    Increment,
    Decrement,
    Negate,
    Not,
}

/// Precedence classes, from the one that binds first to the one that binds
/// last. `Minimum` lies below every operator; `Parentheses` and `Separator`
/// lie above every operator.
#[derive(Debug, Clone, Copy, PartialEq, Eq, Structural, PartialOrd, Ord)]
pub enum Precedence {
    Minimum,
    Prefix,
    Suffix,
    Product,
    Sum,
    BitShift,
    Relational,
    Equality,
    BitAnd,
    BitExclusiveOr,
    BitOr,
    LogicalAnd,
    LogicalOr,
    TernaryConditional,
    Assignment,
    Parentheses,
    Separator,
}

/// What an operator does between two operands.
#[derive(Debug, Clone, Copy, PartialEq, Eq, Structural)]
pub enum OperatorClass {
    /// It combines two numbers into one.
    Binary,
    /// It is `&&` or `||`, which look at the right side only where the left
    /// side does not decide.
    Logical,
    /// It is `=`.
    Assign,
    /// It assigns what the given operator makes of the variable and the
    /// right side.
    Compound(Operator),
    /// It takes one operand only.
    Unary,
}

/// A number as it was written: an integer, or a decimal literal with a
/// fraction or an exponent, kept as text.
#[derive(Debug, PartialEq, Eq)]
pub enum Literal {
    Integer(isize),
    Decimal(String),
}

/// One token of an expression.
#[derive(Debug, PartialEq, Eq)]
pub enum Token {
    Operator(Operator),
    Variable(String),
    Number(isize),
    FloatingNumber(String),
    Comma,
    QuestionMark,
    Colon,
    LeftParen,
    RightParen,
}

/// An expression tree.
#[derive(Debug, PartialEq, Eq)]
pub enum Expr {
    Number(Literal),
    Variable(String),
    Infix(Box<Infix>),
    Prefix(Box<Prefix>),
    Suffix(Box<Suffix>),
    Condition(Box<Condition>),
}

#[derive(Debug, PartialEq, Eq)]
pub struct Infix {
    pub left: Expr,
    pub operator: Operator,
    pub right: Expr,
}

#[derive(Debug, PartialEq, Eq)]
pub struct Prefix {
    pub operator: Operator,
    pub right: Expr,
}

#[derive(Debug, PartialEq, Eq)]
pub struct Suffix {
    pub operator: Operator,
    pub left: Expr,
}

#[derive(Debug, PartialEq, Eq)]
pub struct Condition {
    pub condition: Expr,
    pub on_true: Expr,
    pub on_false: Expr,
}

/// What a `Literal` stands for in contracts.
pub enum LiteralView {
    Integer(int),
    Decimal(Seq<char>),
}

/// What a `Token` stands for in contracts.
pub enum TokenView {
    Operator(Operator),
    Variable(Seq<char>),
    Number(int),
    FloatingNumber(Seq<char>),
    Comma,
    QuestionMark,
    Colon,
    LeftParen,
    RightParen,
}

/// What an `Expr` stands for in contracts.
pub enum ExprView {
    Number(LiteralView),
    Variable(Seq<char>),
    Infix(Box<ExprView>, Operator, Box<ExprView>),
    Prefix(Operator, Box<ExprView>),
    Suffix(Box<ExprView>, Operator),
    Condition(Box<ExprView>, Box<ExprView>, Box<ExprView>),
}

impl View for Literal {
    type V = LiteralView;

    open spec fn view(&self) -> LiteralView {
        match self {
            Literal::Integer(n) => LiteralView::Integer(*n as int),
            Literal::Decimal(text) => LiteralView::Decimal(text@),
        }
    }
}

impl View for Token {
    type V = TokenView;

    open spec fn view(&self) -> TokenView {
        match self {
            Token::Operator(o) => TokenView::Operator(*o),
            Token::Variable(name) => TokenView::Variable(name@),
            Token::Number(n) => TokenView::Number(*n as int),
            Token::FloatingNumber(text) => TokenView::FloatingNumber(text@),
            Token::Comma => TokenView::Comma,
            Token::QuestionMark => TokenView::QuestionMark,
            Token::Colon => TokenView::Colon,
            Token::LeftParen => TokenView::LeftParen,
            Token::RightParen => TokenView::RightParen,
        }
    }
}

impl View for Expr {
    type V = ExprView;

    open spec fn view(&self) -> ExprView
        decreases self,
    {
        match self {
            Expr::Number(n) => ExprView::Number(n@),
            Expr::Variable(name) => ExprView::Variable(name@),
            Expr::Infix(inf) => ExprView::Infix(
                Box::new(inf.left.view()),
                inf.operator,
                Box::new(inf.right.view()),
            ),
            Expr::Prefix(pre) => ExprView::Prefix(pre.operator, Box::new(pre.right.view())),
            Expr::Suffix(suf) => ExprView::Suffix(Box::new(suf.left.view()), suf.operator),
            Expr::Condition(cond) => ExprView::Condition(
                Box::new(cond.condition.view()),
                Box::new(cond.on_true.view()),
                Box::new(cond.on_false.view()),
            ),
        }
    }
}

impl Clone for Literal {
    fn clone(&self) -> (r: Self)
        ensures
            r@ == self@,
    {
        match self {
            Literal::Integer(n) => Literal::Integer(*n),
            Literal::Decimal(text) => Literal::Decimal(text.clone()),
        }
    }
}

impl Clone for Token {
    fn clone(&self) -> (r: Self)
        ensures
            r@ == self@,
    {
        match self {
            Token::Operator(o) => Token::Operator(*o),
            Token::Variable(name) => Token::Variable(name.clone()),
            Token::Number(n) => Token::Number(*n),
            Token::FloatingNumber(text) => Token::FloatingNumber(text.clone()),
            Token::Comma => Token::Comma,
            Token::QuestionMark => Token::QuestionMark,
            Token::Colon => Token::Colon,
            Token::LeftParen => Token::LeftParen,
            Token::RightParen => Token::RightParen,
        }
    }
}

impl TokenView {
    /// How a token is written in a diagnostic: a name or a decimal literal
    /// as it stood in the text, an integer in decimal, an operator or a
    /// punctuation mark by its symbol.
    pub open spec fn text(self) -> Seq<char> {
        match self {
            TokenView::Variable(name) => name,
            TokenView::Number(n) => signed_decimal(n),
            TokenView::FloatingNumber(text) => text,
            TokenView::Operator(o) => o.symbol(),
            TokenView::LeftParen => seq!['('],
            TokenView::RightParen => seq![')'],
            TokenView::Comma => seq![','],
            TokenView::QuestionMark => seq!['?'],
            TokenView::Colon => seq![':'],
        }
    }
}

impl Token {
    /// The token as it is written in a diagnostic.
    pub fn text_chars(&self) -> (v: Vec<char>)
        ensures
            v@ == self@.text(),
    {
        match self {
            Token::Variable(name) => chars_of(name.as_str()),
            Token::Number(n) => render_signed(*n),
            Token::FloatingNumber(text) => chars_of(text.as_str()),
            Token::Operator(o) => o.symbol_chars(),
            Token::LeftParen => vec!['('],
            Token::RightParen => vec![')'],
            Token::Comma => vec![','],
            Token::QuestionMark => vec!['?'],
            Token::Colon => vec![':'],
        }
    }
}

impl LiteralView {
    /// How a number is written: an integer in decimal, a decimal literal as
    /// it stands.
    pub open spec fn text(self) -> Seq<char> {
        match self {
            LiteralView::Integer(n) => signed_decimal(n),
            LiteralView::Decimal(text) => text,
        }
    }
}

/// A piece of a written expression: a token, or the blank that stands on
/// either side of an operator between two operands.
pub enum Piece {
    Blank,
    Token(TokenView),
}

impl Piece {
    /// How the piece is written.
    pub open spec fn text(self) -> Seq<char> {
        match self {
            Piece::Blank => seq![' '],
            Piece::Token(t) => t.text(),
        }
    }
}

/// The pieces written one after the other.
pub open spec fn spelled(pieces: Seq<Piece>) -> Seq<char>
    decreases pieces.len(),
{
    if pieces.len() == 0 {
        Seq::empty()
    } else {
        pieces[0].text() + spelled(pieces.skip(1))
    }
}

/// Writing two rows of pieces one after the other is writing their
/// concatenation.
pub proof fn lemma_spelled_concat(a: Seq<Piece>, b: Seq<Piece>)
    ensures
        spelled(a + b) == spelled(a) + spelled(b),
    decreases a.len(),
{
    if a.len() == 0 {
        assert(a + b =~= b);
        assert(spelled(a) + spelled(b) =~= spelled(b));
    } else {
        lemma_spelled_concat(a.skip(1), b);
        assert((a + b).skip(1) =~= a.skip(1) + b);
        assert((a + b)[0] == a[0]);
        assert(spelled(a + b) =~= spelled(a) + spelled(b));
    }
}

/// A single piece is written as its text.
pub proof fn lemma_spelled_one(piece: Piece)
    ensures
        spelled(seq![piece]) == piece.text(),
{
    assert(seq![piece].skip(1) =~= Seq::<Piece>::empty());
    assert(spelled(seq![piece].skip(1)) =~= Seq::<char>::empty());
    assert(spelled(seq![piece]) =~= piece.text());
}

impl ExprView {
    /// Whether the expression is a number or a name.
    pub open spec fn atomic(self) -> bool {
        self is Number || self is Variable
    }

    /// Whether a colon has to follow the expression where `++` or `--`
    /// comes behind it as an operator between two operands: the expression
    /// is a condition or an assignment, whose last operand would take the
    /// operator for its own otherwise.
    pub open spec fn trails(self) -> bool {
        match self {
            ExprView::Condition(_, _, _) => true,
            ExprView::Infix(_, operator, _) => Precedence::of_operator(operator)
                == Precedence::Assignment,
            _ => false,
        }
    }

    /// Whether the expression is made with an operator of one operand
    /// between two operands, of which the right one ends with `++` or `--`.
    pub open spec fn bare(self) -> bool {
        match self {
            ExprView::Infix(_, operator, right) => Precedence::of_operator(operator)
                == Precedence::Prefix && *right is Suffix,
            _ => false,
        }
    }

    /// Whether `++` or `--` can come behind the expression as an operator
    /// between two operands: only behind an operand that ends with `++` or
    /// `--` itself, and behind a colon, is it not taken for an operator
    /// behind a single operand.
    pub open spec fn hinged(self) -> bool {
        self is Suffix || self.trails() || self.bare()
    }

    /// The pieces that the expression is written with. An operand that is
    /// itself made with an operator stands in parentheses, so that it is
    /// read as the operand it is, whatever the operators around it are. An
    /// operator between two operands, and the question mark and the colon
    /// of a condition, have a blank on either side; an operator before or
    /// behind its operand stands next to it. The left operand of `++` or
    /// `--` between two operands is the one exception: see `leading`.
    pub open spec fn pieces(self) -> Seq<Piece>
        decreases self, 0nat,
    {
        match self {
            ExprView::Number(LiteralView::Integer(n)) => seq![Piece::Token(TokenView::Number(n))],
            ExprView::Number(LiteralView::Decimal(text)) => seq![
                Piece::Token(TokenView::FloatingNumber(text)),
            ],
            ExprView::Variable(name) => seq![Piece::Token(TokenView::Variable(name))],
            ExprView::Infix(left, operator, right) => left.leading(operator) + seq![
                Piece::Blank,
                Piece::Token(TokenView::Operator(operator)),
                Piece::Blank,
            ] + right.operand(),
            ExprView::Prefix(operator, right) => seq![Piece::Token(TokenView::Operator(operator))]
                + right.operand(),
            ExprView::Suffix(left, operator) => left.operand() + seq![
                Piece::Token(TokenView::Operator(operator)),
            ],
            ExprView::Condition(condition, on_true, on_false) => condition.operand() + seq![
                Piece::Blank,
                Piece::Token(TokenView::QuestionMark),
                Piece::Blank,
            ] + on_true.operand() + seq![
                Piece::Blank,
                Piece::Token(TokenView::Colon),
                Piece::Blank,
            ] + on_false.operand(),
        }
    }

    /// The pieces that the expression is written with where it is the left
    /// operand of `operator`: those of an operand, unless the operator is
    /// `++` or `--`. Behind a right parenthesis, a number or a name these
    /// two are read as operators behind a single operand, so the left
    /// operand is written without parentheses there, as `open_pieces` says.
    pub open spec fn leading(self, operator: Operator) -> Seq<Piece>
        decreases self, 2nat,
    {
        if operator.suffix() && self.hinged() {
            self.open_pieces()
        } else {
            self.operand()
        }
    }

    /// The pieces that the expression is written with before `++` or `--`
    /// as an operator between two operands: its own, with its right operand
    /// out of its parentheses where that ends with `++` or `--`, and with a
    /// colon behind a condition or an assignment.
    pub open spec fn open_pieces(self) -> Seq<Piece>
        decreases self, 1nat,
    {
        match self {
            ExprView::Infix(left, operator, right) => if self.bare() {
                left.leading(operator) + seq![
                    Piece::Blank,
                    Piece::Token(TokenView::Operator(operator)),
                    Piece::Blank,
                ] + right.pieces()
            } else {
                self.pieces() + seq![Piece::Blank, Piece::Token(TokenView::Colon)]
            },
            ExprView::Condition(_, _, _) => self.pieces() + seq![
                Piece::Blank,
                Piece::Token(TokenView::Colon),
            ],
            _ => self.pieces(),
        }
    }

    /// The pieces that the expression is written with where it is an
    /// operand: its own if it is a number or a name, and its own between
    /// parentheses if it is made with an operator.
    pub open spec fn operand(self) -> Seq<Piece>
        decreases self, 1nat,
    {
        if self.atomic() {
            self.pieces()
        } else {
            seq![Piece::Token(TokenView::LeftParen)] + self.pieces() + seq![
                Piece::Token(TokenView::RightParen),
            ]
        }
    }

    /// How an expression is written: its pieces one after the other. So
    /// `(1 + 2) * 3` is written as it stands, `1 + 2 * 3` as `1 + (2 * 3)`,
    /// the negative of `-x` as `-(-x)`, and `a++ ++ b` as it stands.
    pub open spec fn rendering(self) -> Seq<char> {
        spelled(self.pieces())
    }
}

impl Literal {
    /// The number as it is written.
    pub fn text_chars(&self) -> (v: Vec<char>)
        ensures
            v@ == self@.text(),
    {
        match self {
            Literal::Integer(n) => render_signed(*n),
            Literal::Decimal(text) => chars_of(text.as_str()),
        }
    }
}

impl Operator {
    /// The operator's symbol, as text.
    pub fn to_text(&self) -> (s: String)
        ensures
            s@ == self.symbol(),
    {
        string_of(&self.symbol_chars())
    }
}

impl Token {
    /// The token as it is written in a diagnostic, as text.
    pub fn to_text(&self) -> (s: String)
        ensures
            s@ == self@.text(),
    {
        string_of(&self.text_chars())
    }
}

impl Expr {
    /// Appends the pieces of the expression where it is an operand.
    fn write_operand(&self, v: &mut Vec<char>)
        ensures
            final(v)@ == old(v)@ + spelled(self@.operand()),
        decreases self, 1nat,
    {
        match self {
            Expr::Number(_) | Expr::Variable(_) => {
                self.write(v);
            },
            _ => {
                proof {
                    lemma_spelled_concat(
                        seq![Piece::Token(TokenView::LeftParen)] + self@.pieces(),
                        seq![Piece::Token(TokenView::RightParen)],
                    );
                    lemma_spelled_concat(seq![Piece::Token(TokenView::LeftParen)], self@.pieces());
                    lemma_spelled_one(Piece::Token(TokenView::LeftParen));
                    lemma_spelled_one(Piece::Token(TokenView::RightParen));
                }
                v.push('(');
                self.write(v);
                v.push(')');
                assert(v@ =~= old(v)@ + (seq!['('] + spelled(self@.pieces()) + seq![')']));
            },
        }
    }

    /// Appends the token `token` with a blank on either side.
    fn write_between(v: &mut Vec<char>, token: &Token)
        ensures
            final(v)@ == old(v)@ + spelled(
                seq![Piece::Blank, Piece::Token(token@), Piece::Blank],
            ),
    {
        proof {
            let row = seq![Piece::Blank, Piece::Token(token@), Piece::Blank];
            let blank = seq![Piece::Blank];
            let mark = seq![Piece::Token(token@)];
            lemma_spelled_concat(blank, mark + blank);
            lemma_spelled_concat(mark, blank);
            lemma_spelled_one(Piece::Blank);
            lemma_spelled_one(Piece::Token(token@));
            assert(row =~= blank + (mark + blank));
            assert(spelled(row) == seq![' '] + (token@.text() + seq![' ']));
        }
        v.push(' ');
        append_chars(v, &token.text_chars());
        v.push(' ');
        assert(v@ =~= old(v)@ + (seq![' '] + (token@.text() + seq![' '])));
    }

    /// Whether the expression is made with an operator behind its operand.
    fn ends_with_operator(&self) -> (b: bool)
        ensures
            b == (self@ is Suffix),
    {
        match self {
            Expr::Suffix(_) => true,
            _ => false,
        }
    }

    /// Whether the expression is made with an operator of one operand
    /// between two operands, of which the right one ends with `++` or `--`.
    fn is_bare(&self) -> (b: bool)
        ensures
            b == self@.bare(),
    {
        match self {
            Expr::Infix(inf) => match Precedence::from_operator(&inf.operator) {
                Precedence::Prefix => inf.right.ends_with_operator(),
                _ => false,
            },
            _ => false,
        }
    }

    /// Whether `++` or `--` can come behind the expression as an operator
    /// between two operands.
    fn is_hinged(&self) -> (b: bool)
        ensures
            b == self@.hinged(),
    {
        match self {
            Expr::Suffix(_) => true,
            Expr::Condition(_) => true,
            Expr::Infix(inf) => match Precedence::from_operator(&inf.operator) {
                Precedence::Assignment => true,
                _ => self.is_bare(),
            },
            _ => false,
        }
    }

    /// Appends the pieces of the expression where it is the left operand of
    /// `operator`.
    fn write_leading(&self, operator: Operator, v: &mut Vec<char>)
        ensures
            final(v)@ == old(v)@ + spelled(self@.leading(operator)),
        decreases self, 2nat,
    {
        if operator.is_suffix() && self.is_hinged() {
            self.write_open(v);
        } else {
            self.write_operand(v);
        }
    }

    /// Appends a blank and a colon.
    fn write_colon(v: &mut Vec<char>)
        ensures
            final(v)@ == old(v)@ + spelled(seq![Piece::Blank, Piece::Token(TokenView::Colon)]),
    {
        proof {
            let blank = seq![Piece::Blank];
            let colon = seq![Piece::Token(TokenView::Colon)];
            lemma_spelled_concat(blank, colon);
            lemma_spelled_one(Piece::Blank);
            lemma_spelled_one(Piece::Token(TokenView::Colon));
            assert(seq![Piece::Blank, Piece::Token(TokenView::Colon)] =~= blank + colon);
            assert(spelled(blank + colon) == seq![' '] + seq![':']);
        }
        v.push(' ');
        v.push(':');
        assert(v@ =~= old(v)@ + (seq![' '] + seq![':']));
    }

    /// Appends the pieces of the expression as they stand before `++` or
    /// `--` between two operands.
    fn write_open(&self, v: &mut Vec<char>)
        ensures
            final(v)@ == old(v)@ + spelled(self@.open_pieces()),
        decreases self, 1nat,
    {
        let ghost colon = seq![Piece::Blank, Piece::Token(TokenView::Colon)];
        match self {
            Expr::Infix(inf) => {
                if self.is_bare() {
                    let ghost between = seq![
                        Piece::Blank,
                        Piece::Token(TokenView::Operator(inf.operator)),
                        Piece::Blank,
                    ];
                    let ghost first = inf.left@.leading(inf.operator);
                    proof {
                        lemma_spelled_concat(first + between, inf.right@.pieces());
                        lemma_spelled_concat(first, between);
                    }
                    inf.left.write_leading(inf.operator, v);
                    Expr::write_between(v, &Token::Operator(inf.operator));
                    inf.right.write(v);
                    assert(v@ =~= old(v)@ + (spelled(first) + spelled(between) + spelled(
                        inf.right@.pieces(),
                    )));
                } else {
                    proof {
                        lemma_spelled_concat(self@.pieces(), colon);
                    }
                    self.write(v);
                    Expr::write_colon(v);
                    assert(v@ =~= old(v)@ + (spelled(self@.pieces()) + spelled(colon)));
                }
            },
            Expr::Condition(_) => {
                proof {
                    lemma_spelled_concat(self@.pieces(), colon);
                }
                self.write(v);
                Expr::write_colon(v);
                assert(v@ =~= old(v)@ + (spelled(self@.pieces()) + spelled(colon)));
            },
            _ => {
                self.write(v);
            },
        }
    }

    /// Appends the pieces of the expression.
    fn write(&self, v: &mut Vec<char>)
        ensures
            final(v)@ == old(v)@ + spelled(self@.pieces()),
        decreases self, 0nat,
    {
        match self {
            Expr::Number(n) => {
                proof {
                    match n@ {
                        LiteralView::Integer(k) => {
                            lemma_spelled_one(Piece::Token(TokenView::Number(k)));
                        },
                        LiteralView::Decimal(text) => {
                            lemma_spelled_one(Piece::Token(TokenView::FloatingNumber(text)));
                        },
                    }
                }
                append_chars(v, &n.text_chars());
            },
            Expr::Variable(name) => {
                proof {
                    lemma_spelled_one(Piece::Token(TokenView::Variable(name@)));
                }
                append_chars(v, &chars_of(name.as_str()));
            },
            Expr::Infix(inf) => {
                let ghost between = seq![
                    Piece::Blank,
                    Piece::Token(TokenView::Operator(inf.operator)),
                    Piece::Blank,
                ];
                let ghost first = inf.left@.leading(inf.operator);
                proof {
                    lemma_spelled_concat(first + between, inf.right@.operand());
                    lemma_spelled_concat(first, between);
                }
                inf.left.write_leading(inf.operator, v);
                Expr::write_between(v, &Token::Operator(inf.operator));
                inf.right.write_operand(v);
                assert(v@ =~= old(v)@ + (spelled(first) + spelled(between) + spelled(
                    inf.right@.operand(),
                )));
            },
            Expr::Prefix(pre) => {
                proof {
                    lemma_spelled_concat(
                        seq![Piece::Token(TokenView::Operator(pre.operator))],
                        pre.right@.operand(),
                    );
                    lemma_spelled_one(Piece::Token(TokenView::Operator(pre.operator)));
                }
                append_chars(v, &pre.operator.symbol_chars());
                pre.right.write_operand(v);
                assert(v@ =~= old(v)@ + (pre.operator.symbol() + spelled(pre.right@.operand())));
            },
            Expr::Suffix(suf) => {
                proof {
                    lemma_spelled_concat(
                        suf.left@.operand(),
                        seq![Piece::Token(TokenView::Operator(suf.operator))],
                    );
                    lemma_spelled_one(Piece::Token(TokenView::Operator(suf.operator)));
                }
                suf.left.write_operand(v);
                append_chars(v, &suf.operator.symbol_chars());
                assert(v@ =~= old(v)@ + (spelled(suf.left@.operand()) + suf.operator.symbol()));
            },
            Expr::Condition(cond) => {
                let ghost mark = seq![
                    Piece::Blank,
                    Piece::Token(TokenView::QuestionMark),
                    Piece::Blank,
                ];
                let ghost colon = seq![Piece::Blank, Piece::Token(TokenView::Colon), Piece::Blank];
                let ghost c = cond.condition@.operand();
                let ghost a = cond.on_true@.operand();
                let ghost b = cond.on_false@.operand();
                proof {
                    lemma_spelled_concat(c + mark + a + colon, b);
                    lemma_spelled_concat(c + mark + a, colon);
                    lemma_spelled_concat(c + mark, a);
                    lemma_spelled_concat(c, mark);
                }
                cond.condition.write_operand(v);
                Expr::write_between(v, &Token::QuestionMark);
                cond.on_true.write_operand(v);
                Expr::write_between(v, &Token::Colon);
                cond.on_false.write_operand(v);
                assert(v@ =~= old(v)@ + (spelled(c) + spelled(mark) + spelled(a) + spelled(colon)
                    + spelled(b)));
            },
        }
    }

    /// The expression as it is written.
    pub fn render_chars(&self) -> (v: Vec<char>)
        ensures
            v@ == self@.rendering(),
    {
        let mut v: Vec<char> = Vec::new();
        self.write(&mut v);
        assert(v@ =~= self@.rendering());
        v
    }

    /// The expression as it is written, as text.
    pub fn to_text(&self) -> (s: String)
        ensures
            s@ == self@.rendering(),
    {
        string_of(&self.render_chars())
    }

    /// A copy of the tree.
    pub fn duplicate(&self) -> (r: Expr)
        ensures
            r@ == self@,
        decreases self,
    {
        match self {
            Expr::Number(n) => Expr::Number(n.clone()),
            Expr::Variable(name) => Expr::Variable(name.clone()),
            Expr::Infix(inf) => Expr::Infix(
                Box::new(
                    Infix {
                        left: inf.left.duplicate(),
                        operator: inf.operator,
                        right: inf.right.duplicate(),
                    },
                ),
            ),
            Expr::Prefix(pre) => Expr::Prefix(
                Box::new(Prefix { operator: pre.operator, right: pre.right.duplicate() }),
            ),
            Expr::Suffix(suf) => Expr::Suffix(
                Box::new(Suffix { operator: suf.operator, left: suf.left.duplicate() }),
            ),
            Expr::Condition(cond) => Expr::Condition(
                Box::new(
                    Condition {
                        condition: cond.condition.duplicate(),
                        on_true: cond.on_true.duplicate(),
                        on_false: cond.on_false.duplicate(),
                    },
                ),
            ),
        }
    }
}

impl Clone for Infix {
    fn clone(&self) -> (r: Self)
        ensures
            r.left@ == self.left@,
            r.operator == self.operator,
            r.right@ == self.right@,
    {
        Infix { left: self.left.duplicate(), operator: self.operator, right: self.right.duplicate() }
    }
}

impl Clone for Prefix {
    fn clone(&self) -> (r: Self)
        ensures
            r.operator == self.operator,
            r.right@ == self.right@,
    {
        Prefix { operator: self.operator, right: self.right.duplicate() }
    }
}

impl Clone for Suffix {
    fn clone(&self) -> (r: Self)
        ensures
            r.operator == self.operator,
            r.left@ == self.left@,
    {
        Suffix { operator: self.operator, left: self.left.duplicate() }
    }
}

impl Clone for Condition {
    fn clone(&self) -> (r: Self)
        ensures
            r.condition@ == self.condition@,
            r.on_true@ == self.on_true@,
            r.on_false@ == self.on_false@,
    {
        Condition {
            condition: self.condition.duplicate(),
            on_true: self.on_true.duplicate(),
            on_false: self.on_false.duplicate(),
        }
    }
}

impl Clone for Expr {
    fn clone(&self) -> (r: Self)
        ensures
            r@ == self@,
    {
        self.duplicate()
    }
}

impl Precedence {
    /// The place of a class in the order: classes that bind earlier have
    /// smaller ranks.
    pub open spec fn rank_of(self) -> nat {
        match self {
            Precedence::Minimum => 0,
            Precedence::Prefix => 1,
            Precedence::Suffix => 2,
            Precedence::Product => 3,
            Precedence::Sum => 4,
            Precedence::BitShift => 5,
            Precedence::Relational => 6,
            Precedence::Equality => 7,
            Precedence::BitAnd => 8,
            Precedence::BitExclusiveOr => 9,
            Precedence::BitOr => 10,
            Precedence::LogicalAnd => 11,
            Precedence::LogicalOr => 12,
            Precedence::TernaryConditional => 13,
            Precedence::Assignment => 14,
            Precedence::Parentheses => 15,
            Precedence::Separator => 16,
        }
    }

    /// The class of an operator. Operators that can stand before an operand
    /// only, and the two that can also stand behind it, are of class
    /// `Prefix`.
    pub open spec fn of_operator(op: Operator) -> Precedence {
        match op {
            Operator::Multiply | Operator::Divide | Operator::Modulo => Precedence::Product,
            Operator::Add | Operator::Subtract => Precedence::Sum,
            Operator::LeftShift | Operator::RightShift => Precedence::BitShift,
            Operator::Equal | Operator::NotEqual => Precedence::Equality,
            Operator::BitAnd => Precedence::BitAnd,
            Operator::BitOr => Precedence::BitOr,
            Operator::BitExclusiveOr => Precedence::BitExclusiveOr,
            Operator::And => Precedence::LogicalAnd,
            Operator::Or => Precedence::LogicalOr,
            Operator::LessThan
            | Operator::LessThanOrEqual
            | Operator::GreaterThan
            | Operator::GreaterThanOrEqual => Precedence::Relational,
            Operator::Assign
            | Operator::AssignAdd
            | Operator::AssignBitAnd
            | Operator::AssignBitExclusiveOr
            | Operator::AssignBitOr
            | Operator::AssignDivide
            | Operator::AssignLeftShift
            | Operator::AssignModulo
            | Operator::AssignMultiply
            | Operator::AssignRightShift
            | Operator::AssignSubtract => Precedence::Assignment,
            Operator::Increment | Operator::Decrement | Operator::Negate | Operator::Not =>
                Precedence::Prefix,
        }
    }

    /// The class of a token, if it can stand between two operands or close
    /// one: numbers and names have none.
    pub open spec fn of_token(t: TokenView) -> Option<Precedence> {
        match t {
            TokenView::Number(_) => None,
            TokenView::FloatingNumber(_) => None,
            TokenView::Variable(_) => None,
            TokenView::Operator(o) => Some(Precedence::of_operator(o)),
            TokenView::Comma => Some(Precedence::Separator),
            TokenView::Colon | TokenView::QuestionMark => Some(Precedence::TernaryConditional),
            TokenView::LeftParen | TokenView::RightParen => Some(Precedence::Parentheses),
        }
    }

    /// The class at which the right-hand side of an operator of this class
    /// is read. Assignments and conditions group from the right: their
    /// right-hand side may hold more of their own class, so it is read one
    /// class further. All other operators group from the left.
    pub open spec fn right_side(self) -> Precedence {
        match self {
            Precedence::Assignment => Precedence::Parentheses,
            Precedence::TernaryConditional => Precedence::Assignment,
            _ => self,
        }
    }

    /// `true` when `self` binds strictly before `other`.
    pub open spec fn before(self, other: Precedence) -> bool {
        self.rank_of() < other.rank_of()
    }

    pub fn rank(&self) -> (r: u8)
        ensures
            r == self.rank_of(),
    {
        match self {
            Precedence::Minimum => 0,
            Precedence::Prefix => 1,
            Precedence::Suffix => 2,
            Precedence::Product => 3,
            Precedence::Sum => 4,
            Precedence::BitShift => 5,
            Precedence::Relational => 6,
            Precedence::Equality => 7,
            Precedence::BitAnd => 8,
            Precedence::BitExclusiveOr => 9,
            Precedence::BitOr => 10,
            Precedence::LogicalAnd => 11,
            Precedence::LogicalOr => 12,
            Precedence::TernaryConditional => 13,
            Precedence::Assignment => 14,
            Precedence::Parentheses => 15,
            Precedence::Separator => 16,
        }
    }

    /// The class at which the right-hand side of an operator of this class
    /// is read.
    pub fn right_level(&self) -> (p: Precedence)
        ensures
            p == self.right_side(),
    {
        match self {
            Precedence::Assignment => Precedence::Parentheses,
            Precedence::TernaryConditional => Precedence::Assignment,
            _ => *self,
        }
    }

    pub fn binds_before(&self, other: &Precedence) -> (b: bool)
        ensures
            b == self.before(*other),
    {
        self.rank() < other.rank()
    }

    pub fn from_operator(op: &Operator) -> (p: Precedence)
        ensures
            p == Precedence::of_operator(*op),
    {
        match op {
            Operator::Multiply | Operator::Divide | Operator::Modulo => Precedence::Product,
            Operator::Add | Operator::Subtract => Precedence::Sum,
            Operator::LeftShift | Operator::RightShift => Precedence::BitShift,
            Operator::Equal | Operator::NotEqual => Precedence::Equality,
            Operator::BitAnd => Precedence::BitAnd,
            Operator::BitOr => Precedence::BitOr,
            Operator::BitExclusiveOr => Precedence::BitExclusiveOr,
            Operator::And => Precedence::LogicalAnd,
            Operator::Or => Precedence::LogicalOr,
            Operator::LessThan
            | Operator::LessThanOrEqual
            | Operator::GreaterThan
            | Operator::GreaterThanOrEqual => Precedence::Relational,
            Operator::Assign
            | Operator::AssignAdd
            | Operator::AssignBitAnd
            | Operator::AssignBitExclusiveOr
            | Operator::AssignBitOr
            | Operator::AssignDivide
            | Operator::AssignLeftShift
            | Operator::AssignModulo
            | Operator::AssignMultiply
            | Operator::AssignRightShift
            | Operator::AssignSubtract => Precedence::Assignment,
            Operator::Increment => Precedence::Prefix,
            Operator::Decrement => Precedence::Prefix,
            Operator::Negate => Precedence::Prefix,
            Operator::Not => Precedence::Prefix,
        }
    }

    pub fn from_token(t: &Token) -> (p: Option<Precedence>)
        ensures
            p == Precedence::of_token(t@),
    {
        match t {
            Token::Number(_) => None,
            Token::FloatingNumber(_) => None,
            Token::Variable(_) => None,
            Token::Operator(o) => Some(Precedence::from_operator(o)),
            Token::Comma => Some(Precedence::Separator),
            Token::Colon | Token::QuestionMark => Some(Precedence::TernaryConditional),
            Token::LeftParen | Token::RightParen => Some(Precedence::Parentheses),
        }
    }
}

impl Operator {
    /// The operators that may stand before an operand: `+ - ! ~ ++ --`.
    pub open spec fn prefix(self) -> bool {
        self == Operator::Not || self == Operator::Negate || self == Operator::Increment || self
            == Operator::Decrement || self == Operator::Add || self == Operator::Subtract
    }

    /// The operators that may stand behind an operand: `++ --`.
    pub open spec fn suffix(self) -> bool {
        self == Operator::Increment || self == Operator::Decrement
    }

    /// What the operator does between two operands.
    pub open spec fn class_of(self) -> OperatorClass {
        match self {
            Operator::And | Operator::Or => OperatorClass::Logical,
            Operator::Assign => OperatorClass::Assign,
            Operator::AssignAdd => OperatorClass::Compound(Operator::Add),
            Operator::AssignSubtract => OperatorClass::Compound(Operator::Subtract),
            Operator::AssignMultiply => OperatorClass::Compound(Operator::Multiply),
            Operator::AssignDivide => OperatorClass::Compound(Operator::Divide),
            Operator::AssignModulo => OperatorClass::Compound(Operator::Modulo),
            Operator::AssignLeftShift => OperatorClass::Compound(Operator::LeftShift),
            Operator::AssignRightShift => OperatorClass::Compound(Operator::RightShift),
            Operator::AssignBitAnd => OperatorClass::Compound(Operator::BitAnd),
            Operator::AssignBitExclusiveOr => OperatorClass::Compound(Operator::BitExclusiveOr),
            Operator::AssignBitOr => OperatorClass::Compound(Operator::BitOr),
            Operator::Increment | Operator::Decrement | Operator::Negate | Operator::Not =>
                OperatorClass::Unary,
            _ => OperatorClass::Binary,
        }
    }

    /// How the operator is written.
    pub open spec fn symbol(self) -> Seq<char> {
        match self {
            Operator::Add => seq!['+'],
            Operator::Subtract => seq!['-'],
            Operator::Multiply => seq!['*'],
            Operator::Divide => seq!['/'],
            Operator::Modulo => seq!['%'],
            Operator::LeftShift => seq!['<', '<'],
            Operator::RightShift => seq!['>', '>'],
            Operator::LessThan => seq!['<'],
            Operator::LessThanOrEqual => seq!['<', '='],
            Operator::GreaterThan => seq!['>'],
            Operator::GreaterThanOrEqual => seq!['>', '='],
            Operator::Equal => seq!['=', '='],
            Operator::NotEqual => seq!['!', '='],
            Operator::BitAnd => seq!['&'],
            Operator::BitExclusiveOr => seq!['^'],
            Operator::BitOr => seq!['|'],
            Operator::And => seq!['&', '&'],
            Operator::Or => seq!['|', '|'],
            Operator::Assign => seq!['='],
            Operator::AssignAdd => seq!['+', '='],
            Operator::AssignSubtract => seq!['-', '='],
            Operator::AssignMultiply => seq!['*', '='],
            Operator::AssignDivide => seq!['/', '='],
            Operator::AssignModulo => seq!['%', '='],
            Operator::AssignBitAnd => seq!['&', '='],
            Operator::AssignBitExclusiveOr => seq!['^', '='],
            Operator::AssignBitOr => seq!['|', '='],
            Operator::AssignLeftShift => seq!['<', '<', '='],
            Operator::AssignRightShift => seq!['>', '>', '='],
            Operator::Not => seq!['!'],
            Operator::Negate => seq!['~'],
            Operator::Increment => seq!['+', '+'],
            Operator::Decrement => seq!['-', '-'],
        }
    }

    /// What the operator does between two operands.
    pub fn class(&self) -> (c: OperatorClass)
        ensures
            c == self.class_of(),
    {
        match self {
            Operator::And | Operator::Or => OperatorClass::Logical,
            Operator::Assign => OperatorClass::Assign,
            Operator::AssignAdd => OperatorClass::Compound(Operator::Add),
            Operator::AssignSubtract => OperatorClass::Compound(Operator::Subtract),
            Operator::AssignMultiply => OperatorClass::Compound(Operator::Multiply),
            Operator::AssignDivide => OperatorClass::Compound(Operator::Divide),
            Operator::AssignModulo => OperatorClass::Compound(Operator::Modulo),
            Operator::AssignLeftShift => OperatorClass::Compound(Operator::LeftShift),
            Operator::AssignRightShift => OperatorClass::Compound(Operator::RightShift),
            Operator::AssignBitAnd => OperatorClass::Compound(Operator::BitAnd),
            Operator::AssignBitExclusiveOr => OperatorClass::Compound(Operator::BitExclusiveOr),
            Operator::AssignBitOr => OperatorClass::Compound(Operator::BitOr),
            Operator::Increment | Operator::Decrement | Operator::Negate | Operator::Not =>
                OperatorClass::Unary,
            _ => OperatorClass::Binary,
        }
    }

    pub fn is_prefix(&self) -> (b: bool)
        ensures
            b == self.prefix(),
    {
        match self {
            Operator::Not
            | Operator::Negate
            | Operator::Increment
            | Operator::Decrement
            | Operator::Add
            | Operator::Subtract => true,
            _ => false,
        }
    }

    pub fn is_suffix(&self) -> (b: bool)
        ensures
            b == self.suffix(),
    {
        match self {
            Operator::Increment | Operator::Decrement => true,
            _ => false,
        }
    }

    pub fn precedence(&self) -> (p: Precedence)
        ensures
            p == Precedence::of_operator(*self),
    {
        Precedence::from_operator(self)
    }

    /// The characters of the operator's symbol.
    pub fn symbol_chars(&self) -> (v: Vec<char>)
        ensures
            v@ == self.symbol(),
    {
        match self {
            Operator::Add => vec!['+'],
            Operator::Subtract => vec!['-'],
            Operator::Multiply => vec!['*'],
            Operator::Divide => vec!['/'],
            Operator::Modulo => vec!['%'],
            Operator::LeftShift => vec!['<', '<'],
            Operator::RightShift => vec!['>', '>'],
            Operator::LessThan => vec!['<'],
            Operator::LessThanOrEqual => vec!['<', '='],
            Operator::GreaterThan => vec!['>'],
            Operator::GreaterThanOrEqual => vec!['>', '='],
            Operator::Equal => vec!['=', '='],
            Operator::NotEqual => vec!['!', '='],
            Operator::BitAnd => vec!['&'],
            Operator::BitExclusiveOr => vec!['^'],
            Operator::BitOr => vec!['|'],
            Operator::And => vec!['&', '&'],
            Operator::Or => vec!['|', '|'],
            Operator::Assign => vec!['='],
            Operator::AssignAdd => vec!['+', '='],
            Operator::AssignSubtract => vec!['-', '='],
            Operator::AssignMultiply => vec!['*', '='],
            Operator::AssignDivide => vec!['/', '='],
            Operator::AssignModulo => vec!['%', '='],
            Operator::AssignBitAnd => vec!['&', '='],
            Operator::AssignBitExclusiveOr => vec!['^', '='],
            Operator::AssignBitOr => vec!['|', '='],
            Operator::AssignLeftShift => vec!['<', '<', '='],
            Operator::AssignRightShift => vec!['>', '>', '='],
            Operator::Not => vec!['!'],
            Operator::Negate => vec!['~'],
            Operator::Increment => vec!['+', '+'],
            Operator::Decrement => vec!['-', '-'],
        }
    }
}

} // verus!

use rush::expr::errors::{Error, ErrorKind};
use rush::expr::lexer::TokenStream;
use rush::expr::parser::Parser;
use rush::expr::types::{Expr, Literal, Operator};

/// An expression tree with its numbers as floating-point values.
#[derive(Debug, PartialEq)]
enum Tree {
    Number(f64),
    Variable(String),
    Infix(Box<Tree>, Operator, Box<Tree>),
    Prefix(Operator, Box<Tree>),
    Suffix(Box<Tree>, Operator),
    Condition(Box<Tree>, Box<Tree>, Box<Tree>),
}

fn tree(e: &Expr) -> Tree {
    match e {
        Expr::Number(Literal::Integer(n)) => Tree::Number(*n as f64),
        Expr::Number(Literal::Decimal(text)) => Tree::Number(text.parse::<f64>().unwrap()),
        Expr::Variable(name) => Tree::Variable(name.clone()),
        Expr::Infix(i) => Tree::Infix(Box::new(tree(&i.left)), i.operator, Box::new(tree(&i.right))),
        Expr::Prefix(p) => Tree::Prefix(p.operator, Box::new(tree(&p.right))),
        Expr::Suffix(s) => Tree::Suffix(Box::new(tree(&s.left)), s.operator),
        Expr::Condition(c) => Tree::Condition(
            Box::new(tree(&c.condition)),
            Box::new(tree(&c.on_true)),
            Box::new(tree(&c.on_false)),
        ),
    }
}

fn parse(source: &str) -> Tree {
    match Parser::new(TokenStream::new(source)).parse() {
        Ok(e) => tree(&e),
        Err(err) => panic!("failed to parse expression '{}': {}", source, err.message()),
    }
}

fn parse_error(source: &str) -> Error {
    match Parser::new(TokenStream::new(source)).parse() {
        Ok(v) => panic!(
            "expected to fail parsing '{}', instead succeeded with:\nast = {:#?}",
            source, v
        ),
        Err(e) => e,
    }
}

fn num(v: f64) -> Tree {
    Tree::Number(v)
}

fn var(name: &str) -> Tree {
    Tree::Variable(name.to_string())
}

fn infix(op: Operator, left: Tree, right: Tree) -> Tree {
    Tree::Infix(Box::new(left), op, Box::new(right))
}

fn pre(op: Operator, right: Tree) -> Tree {
    Tree::Prefix(op, Box::new(right))
}

fn suf(op: Operator, left: Tree) -> Tree {
    Tree::Suffix(Box::new(left), op)
}

fn cond(condition: Tree, on_true: Tree, on_false: Tree) -> Tree {
    Tree::Condition(Box::new(condition), Box::new(on_true), Box::new(on_false))
}

#[test]
fn simple_infix() {
    assert_eq!(parse("1 + 1"), infix(Operator::Add, num(1.0), num(1.0)));
    assert_eq!(parse("1 / hello"), infix(Operator::Divide, num(1.0), var("hello")));
}

#[test]
fn simple_prefix() {
    assert_eq!(parse("~11e5"), pre(Operator::Negate, num(11.0e5)));
    assert_eq!(parse("!yes"), pre(Operator::Not, var("yes")));
    assert_eq!(parse("++zero"), pre(Operator::Increment, var("zero")));
    assert_eq!(parse("--1"), pre(Operator::Decrement, num(1.0)));
}

#[test]
fn simple_suffix() {
    assert_eq!(parse("0++"), suf(Operator::Increment, num(0.0)));
    assert_eq!(parse("five--"), suf(Operator::Decrement, var("five")));
}

#[test]
fn simple_cond() {
    assert_eq!(parse("0 ? ok : not_ok"), cond(num(0.0), var("ok"), var("not_ok")));
    assert_eq!(parse("test ? 5 : zero"), cond(var("test"), num(5.0), var("zero")));
}

#[test]
fn operator_precedence() {
    assert_eq!(
        parse("1 + 2 * 3"),
        infix(Operator::Add, num(1.0), infix(Operator::Multiply, num(2.0), num(3.0)))
    );
    assert_eq!(
        parse("((3 + 1) * 2) / 3"),
        infix(
            Operator::Divide,
            infix(Operator::Multiply, infix(Operator::Add, num(3.0), num(1.0)), num(2.0)),
            num(3.0)
        )
    );
    assert_eq!(
        parse("hello += 2 & 0b0010"),
        infix(Operator::AssignAdd, var("hello"), infix(Operator::BitAnd, num(2.0), num(2.0)))
    );
    assert_eq!(
        parse("(hello %= 2) & 0b0010"),
        infix(
            Operator::BitAnd,
            infix(Operator::AssignModulo, var("hello"), num(2.0)),
            num(2.0)
        )
    );
    assert_eq!(
        parse("test ? ++2 : test % one++"),
        cond(
            var("test"),
            pre(Operator::Increment, num(2.0)),
            infix(Operator::Modulo, var("test"), suf(Operator::Increment, var("one")))
        )
    );
    assert_eq!(
        parse("(test ? 5 : 5 * 9 + 2) % 2 == 0"),
        infix(
            Operator::Equal,
            infix(
                Operator::Modulo,
                cond(
                    var("test"),
                    num(5.0),
                    infix(Operator::Add, infix(Operator::Multiply, num(5.0), num(9.0)), num(2.0))
                ),
                num(2.0)
            ),
            num(0.0)
        )
    );
    assert_eq!(
        parse("(test ? 5 : 5 * 9 + 2) % 2 == 0"),
        infix(
            Operator::Equal,
            infix(
                Operator::Modulo,
                cond(
                    var("test"),
                    num(5.0),
                    infix(Operator::Add, infix(Operator::Multiply, num(5.0), num(9.0)), num(2.0))
                ),
                num(2.0)
            ),
            num(0.0)
        )
    );
    assert_eq!(
        parse("(!2 * (3 + 2) ? (5 ^ hi) : 2 >> (world = 3))"),
        cond(
            infix(
                Operator::Multiply,
                pre(Operator::Not, num(2.0)),
                infix(Operator::Add, num(3.0), num(2.0))
            ),
            infix(Operator::BitExclusiveOr, num(5.0), var("hi")),
            infix(
                Operator::RightShift,
                num(2.0),
                infix(Operator::Assign, var("world"), num(3.0))
            )
        )
    );

    assert_eq!(
        parse("(!2 * (3 + 2) ? (5 ^ hi) : 2 >> (world = 3))"),
        cond(
            infix(
                Operator::Multiply,
                pre(Operator::Not, num(2.0)),
                infix(Operator::Add, num(3.0), num(2.0))
            ),
            infix(Operator::BitExclusiveOr, num(5.0), var("hi")),
            infix(
                Operator::RightShift,
                num(2.0),
                infix(Operator::Assign, var("world"), num(3.0))
            )
        )
    );
    assert_eq!(
        parse("(2 + 3) * (5 - 8)"),
        infix(
            Operator::Multiply,
            infix(Operator::Add, num(2.0), num(3.0)),
            infix(Operator::Subtract, num(5.0), num(8.0))
        )
    );
    assert_eq!(
        parse("(x = (+(3 - 5) - -(5 % 2)))"),
        infix(
            Operator::Assign,
            var("x"),
            infix(
                Operator::Subtract,
                pre(Operator::Add, infix(Operator::Subtract, num(3.0), num(5.0))),
                pre(Operator::Subtract, infix(Operator::Modulo, num(5.0), num(2.0)))
            )
        )
    );
    assert_eq!(
        parse("1 * (3 + 2)"),
        infix(Operator::Multiply, num(1.0), infix(Operator::Add, num(3.0), num(2.0)))
    );
    assert_eq!(parse("++(1)"), pre(Operator::Increment, num(1.0)));
    assert_eq!(
        parse("++(1-- * (3))"),
        pre(
            Operator::Increment,
            infix(Operator::Multiply, suf(Operator::Decrement, num(1.0)), num(3.0))
        )
    );
}

#[test]
fn parser_errors() {
    assert_eq!(
        parse_error("2 * (1 + 2").kind(),
        &ErrorKind::ExpectingRightParentheses
    );
    assert_eq!(parse_error("2 * 1 +").kind(), &ErrorKind::UnexpectedEof);
    assert_eq!(
        parse_error("2 ? 1").kind(),
        &ErrorKind::ExpectingTernaryElse
    );
    assert_eq!(parse_error("*hi").kind(), &ErrorKind::InvalidPrefixOperator);
    assert_eq!(
        parse_error("hello ++ world").kind(),
        &ErrorKind::InvalidInfixOperator
    );
    assert_eq!(parse_error("1/").kind(), &ErrorKind::UnexpectedEof);
    assert_eq!(
        parse_error("1 three").kind(),
        &ErrorKind::InvalidInfixOperator
    );
    assert_eq!(parse_error(",").kind(), &ErrorKind::InvalidToken);
    assert_eq!(parse_error("`").kind(), &ErrorKind::InvalidCharacter('`'));
    assert_eq!(
        parse_error("(2 + (1)(").kind(),
        &ErrorKind::ExpectingRightParentheses
    );
    assert_eq!(parse_error("a(5)").kind(), &ErrorKind::InvalidInfixOperator);
}

#[test]
fn assignments_and_conditions_group_from_the_right() {
    assert_eq!(
        parse("a = b = 3"),
        infix(Operator::Assign, var("a"), infix(Operator::Assign, var("b"), num(3.0)))
    );
    assert_eq!(
        parse("a += b *= c - 1"),
        infix(
            Operator::AssignAdd,
            var("a"),
            infix(
                Operator::AssignMultiply,
                var("b"),
                infix(Operator::Subtract, var("c"), num(1.0))
            )
        )
    );
    assert_eq!(
        parse("a ? 1 : b ? 2 : 3"),
        cond(var("a"), num(1.0), cond(var("b"), num(2.0), num(3.0)))
    );
    assert_eq!(
        parse("x = a ? 1 : 2"),
        infix(Operator::Assign, var("x"), cond(var("a"), num(1.0), num(2.0)))
    );
}

#[test]
fn other_operators_group_from_the_left() {
    assert_eq!(
        parse("1 - 2 - 3"),
        infix(Operator::Subtract, infix(Operator::Subtract, num(1.0), num(2.0)), num(3.0))
    );
    assert_eq!(
        parse("8 / 4 * 2 % 3"),
        infix(
            Operator::Modulo,
            infix(Operator::Multiply, infix(Operator::Divide, num(8.0), num(4.0)), num(2.0)),
            num(3.0)
        )
    );
    assert_eq!(
        parse("a || b || c"),
        infix(Operator::Or, infix(Operator::Or, var("a"), var("b")), var("c"))
    );
    assert_eq!(
        parse("1 | 2 ^ 3 & 4"),
        infix(
            Operator::BitOr,
            num(1.0),
            infix(Operator::BitExclusiveOr, num(2.0), infix(Operator::BitAnd, num(3.0), num(4.0)))
        )
    );
}

#[test]
fn texts_of_the_same_tokens_read_alike() {
    assert_eq!(parse("1+2*3"), parse("  1 +\t2   * 0x3 "));
    assert_eq!(parse("a=b?c:d"), parse("a = b ? c : d"));
    assert_eq!(parse("- -a"), pre(Operator::Subtract, pre(Operator::Subtract, var("a"))));
    assert_eq!(parse("--a"), pre(Operator::Decrement, var("a")));
    assert_eq!(parse_error("2 *").kind, parse_error("0b10*").kind);
}

#[test]
fn rendering_reads_back_as_the_same_tree() {
    for source in [
        "7",
        "name",
        "1 + 2 * 3",
        "(1 + 2) * 3",
        "a = 4 ? b++ : -c",
        "(a ? b : c) + 1",
        "a ? b : c + 1",
        "- -x",
        "--x",
        "-x++",
        "(-x)++",
        "x <<= 0b11",
        "!a * 2 - ~b",
        "a = b = c",
        "(a = b) = c",
        "a - b - c",
        "a - (b - c)",
        ".5 + 1.e3",
        "a++ ++ b",
        "a++ -- b++ ++ c",
        "x ! a++ ++ c",
        "x ~ a++ -- c",
        "a = b : ++ c",
        "a ? b : c : -- d",
        "(a + b)++ ++ c",
        "a ! b",
        "((a++ ++ b) + 1) * 2",
    ] {
        let first = Parser::new(TokenStream::new(source)).parse().expect("failed to parse");
        let rendered = first.to_text();
        assert_eq!(tree(&first), parse(&rendered), "{} became {}", source, rendered);
    }
    let grouped = Parser::new(TokenStream::new("(1 + 2) * 3")).parse().expect("failed to parse");
    assert_eq!(grouped.to_text(), "(1 + 2) * 3");
    assert_ne!(tree(&grouped), parse("1 + 2 * 3"));
}

#[test]
fn blanks_alone_are_no_expression() {
    assert_eq!(parse_error(" ").kind, ErrorKind::InvalidCharacter(' '));
    assert_eq!(parse_error("\t ").kind, ErrorKind::InvalidCharacter('\t'));
    assert_eq!(parse_error("").kind, ErrorKind::UnexpectedEof);
    assert_eq!(parse(" 1 "), num(1.0));
}

use rush::expr::errors::ErrorKind;
use rush::expr::lexer::TokenStream;
use rush::expr::types::{Operator, Token};

fn tokens(source: &str) -> Vec<Token> {
    let mut stream = TokenStream::new(source);
    let mut out = Vec::new();
    loop {
        match stream.next() {
            Some(Ok(t)) => out.push(t),
            Some(Err(e)) => panic!("failed to tokenize '{}': {}", source, e.message()),
            None => return out,
        }
    }
}

fn name(s: &str) -> Token {
    Token::Variable(s.to_string())
}

#[test]
fn identifiers() {
    assert_eq!(
        tokens("hello world1 hii_2 _3 __super_private1"),
        vec![
            name("hello"),
            name("world1"),
            name("hii_2"),
            name("_3"),
            name("__super_private1")
        ]
    );
}

#[test]
fn lexer_numbers() {
    let found = tokens("5312 32.3 0x23 0b1001001 0o77 5e-2 .3145 .1e+100 1.5e1");
    let expected: Vec<Result<isize, f64>> = vec![
        Ok(5312),
        Err(32.3),
        Ok(0x23),
        Ok(0b1001001),
        Ok(0o77),
        Err(5e-2),
        Err(0.3145),
        Err(0.1e+100),
        Err(1.5e1),
    ];
    assert_eq!(found.len(), expected.len());
    for (token, want) in found.iter().zip(expected.iter()) {
        match (token, want) {
            (Token::Number(n), Ok(w)) => assert_eq!(n, w),
            (Token::FloatingNumber(text), Err(w)) => {
                assert_eq!(text.parse::<f64>().unwrap(), *w)
            }
            _ => panic!("unexpected token {:?}", token),
        }
    }
}

#[test]
fn punctuation() {
    assert_eq!(
        tokens(",? (:)"),
        vec![
            Token::Comma,
            Token::QuestionMark,
            Token::LeftParen,
            Token::Colon,
            Token::RightParen,
        ]
    );
}

#[test]
fn operators_arithmetic() {
    assert_eq!(
        tokens("+ - * / %"),
        vec![
            Token::Operator(Operator::Add),
            Token::Operator(Operator::Subtract),
            Token::Operator(Operator::Multiply),
            Token::Operator(Operator::Divide),
            Token::Operator(Operator::Modulo),
        ]
    );
}

#[test]
fn operators_comparison() {
    assert_eq!(
        tokens("< <= > >= == !="),
        vec![
            Token::Operator(Operator::LessThan),
            Token::Operator(Operator::LessThanOrEqual),
            Token::Operator(Operator::GreaterThan),
            Token::Operator(Operator::GreaterThanOrEqual),
            Token::Operator(Operator::Equal),
            Token::Operator(Operator::NotEqual),
        ]
    );
}

#[test]
fn operators_bitwise() {
    assert_eq!(
        tokens(" << >> & ^ |"),
        vec![
            Token::Operator(Operator::LeftShift),
            Token::Operator(Operator::RightShift),
            Token::Operator(Operator::BitAnd),
            Token::Operator(Operator::BitExclusiveOr),
            Token::Operator(Operator::BitOr),
        ]
    );
}

#[test]
fn operators_boolean() {
    assert_eq!(
        tokens("&& ||"),
        vec![
            Token::Operator(Operator::And),
            Token::Operator(Operator::Or),
        ]
    );
}

#[test]
fn operators_assignment() {
    assert_eq!(
        tokens("+= -= *= /= %= <<= >>= &= ^= |= ="),
        vec![
            Token::Operator(Operator::AssignAdd),
            Token::Operator(Operator::AssignSubtract),
            Token::Operator(Operator::AssignMultiply),
            Token::Operator(Operator::AssignDivide),
            Token::Operator(Operator::AssignModulo),
            Token::Operator(Operator::AssignLeftShift),
            Token::Operator(Operator::AssignRightShift),
            Token::Operator(Operator::AssignBitAnd),
            Token::Operator(Operator::AssignBitExclusiveOr),
            Token::Operator(Operator::AssignBitOr),
            Token::Operator(Operator::Assign),
        ]
    );
}

#[test]
fn operators_non_infix() {
    assert_eq!(
        tokens("++ -- ~ !"),
        vec![
            Token::Operator(Operator::Increment),
            Token::Operator(Operator::Decrement),
            Token::Operator(Operator::Negate),
            Token::Operator(Operator::Not),
        ]
    );
}

#[test]
fn a_call_without_a_token_leaves_the_text_unread() {
    let mut blanks = TokenStream::new(" \t");
    let before = blanks.unread();
    match blanks.next() {
        Some(Err(e)) => assert_eq!(e.kind, ErrorKind::InvalidCharacter(' ')),
        _ => panic!("blanks alone are no token"),
    }
    assert_eq!(blanks.unread(), before);
    assert_eq!(blanks.unread(), " \t");

    let mut bad = TokenStream::new("1 `");
    assert!(matches!(bad.next(), Some(Ok(_))));
    let before = bad.unread();
    match bad.next() {
        Some(Err(e)) => assert_eq!(e.kind, ErrorKind::InvalidCharacter('`')),
        _ => panic!("a backquote is no token"),
    }
    assert_eq!(bad.unread(), before);

    let mut ended = TokenStream::new("x  ");
    assert!(matches!(ended.next(), Some(Ok(_))));
    assert_eq!(ended.unread(), "");
    assert!(ended.next().is_none());
    assert_eq!(ended.unread(), "");
    assert!(TokenStream::new("").next().is_none());
}

use rush::env::variables::Variables;
use rush::expr::eval::{Answer, Evaluation, Request};
use rush::expr::parser::parse;
use rush::expr::types::{Literal, Operator};

fn number(l: &Literal) -> f64 {
    match l {
        Literal::Integer(n) => *n as f64,
        Literal::Decimal(text) => text.parse::<f64>().unwrap_or(0.0),
    }
}

fn literal(f: f64) -> Literal {
    Literal::Decimal(f.to_string())
}

fn flag(b: bool) -> f64 {
    if b {
        1.0
    } else {
        0.0
    }
}

fn binary(operator: Operator, a: f64, b: f64) -> f64 {
    match operator {
        Operator::Add => a + b,
        Operator::Subtract => a - b,
        Operator::Multiply => a * b,
        Operator::Divide => a / b,
        Operator::Modulo => a % b,
        Operator::LeftShift => (a as isize).wrapping_shl(b as isize as u32) as f64,
        Operator::RightShift => (a as isize).wrapping_shr(b as isize as u32) as f64,
        Operator::LessThan => flag(a < b),
        Operator::LessThanOrEqual => flag(a <= b),
        Operator::GreaterThan => flag(a > b),
        Operator::GreaterThanOrEqual => flag(a >= b),
        Operator::Equal => flag(a == b),
        Operator::NotEqual => flag(a != b),
        Operator::BitAnd => ((a as isize) & (b as isize)) as f64,
        Operator::BitExclusiveOr => ((a as isize) ^ (b as isize)) as f64,
        Operator::BitOr => ((a as isize) | (b as isize)) as f64,
        _ => a,
    }
}

fn unary(operator: Operator, a: f64) -> f64 {
    match operator {
        Operator::Subtract => -a,
        Operator::Negate => !(a as isize) as f64,
        _ => a,
    }
}

fn eval(source: &str, vars: &mut Variables) -> f64 {
    let expr = match parse(source) {
        Ok(e) => e,
        Err(err) => panic!("failed to evaluate '{}': {}", source, err.message()),
    };
    let mut evaluation = Evaluation::new(expr);
    let mut answer = Answer::Continue;
    loop {
        answer = match evaluation.step(vars, answer) {
            Request::Continue => Answer::Continue,
            Request::Binary { operator, left, right } => {
                Answer::Number(literal(binary(operator, number(&left), number(&right))))
            }
            Request::Unary { operator, operand } => {
                Answer::Number(literal(unary(operator, number(&operand))))
            }
            Request::Truth(n) => Answer::Truth(number(&n) != 0.0),
            Request::Render(n) => Answer::Text(number(&n).to_string()),
            Request::Done(n) => return number(&n),
            Request::Confused => panic!("the evaluation of '{}' went wrong", source),
        };
    }
}

#[test]
fn ops_assignemnt() {
    let mut vars = Variables::new();
    eval("a = 1", &mut vars);
    assert_eq!(vars.value("a"), "1");

    vars.define("a", "1");
    eval("a += 5/2", &mut vars);
    assert_eq!(vars.value("a"), "3.5");

    vars.define("a", "1");
    eval("a -= 2.5", &mut vars);
    assert_eq!(vars.value("a"), "-1.5");

    vars.define("a", "5");
    eval("a *= 2", &mut vars);
    assert_eq!(vars.value("a"), "10");

    vars.define("a", "9");
    eval("a /= 3", &mut vars);
    assert_eq!(vars.value("a"), "3");

    vars.define("a", "9");
    eval("a %= 2", &mut vars);
    assert_eq!(vars.value("a"), "1");

    vars.define("a", "2");
    eval("a ^= 3", &mut vars);
    assert_eq!(vars.value("a"), "1");

    vars.define("a", "3");
    eval("a |= 8", &mut vars);
    assert_eq!(vars.value("a"), "11");

    vars.define("a", "3");
    eval("a >>= 1", &mut vars);
    assert_eq!(vars.value("a"), "1");

    vars.define("a", "3");
    eval("a <<= 3", &mut vars);
    assert_eq!(vars.value("a"), "24");

    vars.define("a", "3");
    eval("a &= 0b101", &mut vars);
    assert_eq!(vars.value("a"), "1");
}

#[test]
fn ops_suffix() {
    let mut vars = Variables::new();

    vars.define("n", "0");
    assert_eq!(eval("n++", &mut vars), 0.0);
    assert_eq!(vars.value("n"), "1");
    assert_eq!(eval("n--", &mut vars), 1.0);
    assert_eq!(vars.value("n"), "0");

    assert_eq!(eval("2++", &mut vars), 2.0);
    assert_eq!(eval("5.1--", &mut vars), 5.1);
}

#[test]
fn ops_prefix() {
    let mut vars = Variables::new();

    vars.define("n", "0");
    assert_eq!(eval("--n", &mut vars), -1.0);
    assert_eq!(vars.value("n"), "-1");
    assert_eq!(eval("++n", &mut vars), 0.0);
    assert_eq!(vars.value("n"), "0");

    assert_eq!(eval("!0", &mut vars), 1.0);
    assert_eq!(eval("!5", &mut vars), 0.0);
    assert_eq!(eval("~0b10111001", &mut vars), -186.0);

    vars.define("x", "-5");
    vars.define("y", "9");
    assert_eq!(eval("-x", &mut vars), 5.0);
    assert_eq!(vars.value("x"), "-5");
    assert_eq!(eval("+x", &mut vars), -5.0);
    assert_eq!(vars.value("x"), "-5");

    assert_eq!(eval("+y", &mut vars), 9.0);
    assert_eq!(eval("-y", &mut vars), -9.0);

    assert_eq!(eval("+(1 + 2)", &mut vars), 3.0);
}

#[test]
fn ops_bitwise() {
    let mut vars = Variables::new();

    assert_eq!(eval("8 >> 1", &mut vars), 4.0);
    assert_eq!(eval("4 << 3", &mut vars), 32.0);
    assert_eq!(eval("32 & 2", &mut vars), 0.0);
    assert_eq!(eval("5 | 8", &mut vars), 13.0);
    assert_eq!(eval("5 ^ 9", &mut vars), 12.0);
}

#[test]
fn ops_arithmetic() {
    let mut vars = Variables::new();

    assert_eq!(eval("2.53 + 1", &mut vars), 3.53);
    assert_eq!(eval("11 - 5", &mut vars), 6.0);
    assert_eq!(eval("3 * 9", &mut vars), 27.0);
    assert_eq!(eval("1 / 10", &mut vars), 0.1);
    assert_eq!(eval("5 % 3", &mut vars), 2.0);
}

#[test]
fn ops_comparison() {
    let mut vars = Variables::new();

    assert_eq!(eval("2.53 < 2.54", &mut vars), 1.0);
    assert_eq!(eval("3 > 5", &mut vars), 0.0);
    assert_eq!(eval("2.99 <= 3", &mut vars), 1.0);
    assert_eq!(eval("3.00 >= 3", &mut vars), 1.0);
    assert_eq!(eval("99.0002 == 99", &mut vars), 0.0);
    assert_eq!(eval("5 != -5", &mut vars), 1.0);
}

#[test]
fn ops_boolean() {
    let mut vars = Variables::new();

    vars.define("a", "0.5");

    assert_eq!(eval("0 || 11", &mut vars), 1.0);
    assert_eq!(eval("5 || 0", &mut vars), 1.0);
    assert_eq!(eval("0 || -1 + 1", &mut vars), 0.0);
    assert_eq!(eval("2 && 0", &mut vars), 0.0);
    assert_eq!(eval("0 && 5", &mut vars), 0.0);
    assert_eq!(eval("1 && ~0", &mut vars), 1.0);
    assert_eq!(eval("5 && a && -1", &mut vars), 1.0);
    assert_eq!(eval("0 || !1 || a", &mut vars), 1.0);
}

#[test]
fn ops_complex() {
    let mut vars = Variables::new();
    assert_eq!(
        eval(
            "(((a = 0 ? 3 : 1) + 5 | (3 + 5) / 2 == 7 & ~a) ? (7 % 2 > 0) ^ 2 : -1) / 3 + !a * 1.5",
            &mut vars,
        ),
        2.5
    );
}

#[test]
fn assignments_chain_from_the_right() {
    let mut vars = Variables::new();
    assert_eq!(eval("a = b = 3", &mut vars), 3.0);
    assert_eq!(vars.value("a"), "3");
    assert_eq!(vars.value("b"), "3");
    assert_eq!(eval("a += b -= 1", &mut vars), 5.0);
    assert_eq!(vars.value("a"), "5");
    assert_eq!(vars.value("b"), "2");
}

#[test]
fn arithmetic_side_effects() {
    let mut vars = Variables::new();
    vars.define("n", "0");
    assert_eq!(eval("n++", &mut vars), 0.0);
    assert_eq!(vars.value("n"), "1");
    assert_eq!(eval("--n", &mut vars), 0.0);
    assert_eq!(vars.value("n"), "0");
}

#[test]
fn logical_operators_leave_the_undecided_side_alone() {
    let mut vars = Variables::new();
    vars.define("n", "0");
    assert_eq!(eval("1 || n++", &mut vars), 1.0);
    assert_eq!(vars.value("n"), "0");
    assert_eq!(eval("0 && n++", &mut vars), 0.0);
    assert_eq!(vars.value("n"), "0");
    assert_eq!(eval("0 || n++", &mut vars), 0.0);
    assert_eq!(vars.value("n"), "1");
    assert_eq!(eval("1 && n++", &mut vars), 1.0);
    assert_eq!(vars.value("n"), "2");
}

#[test]
fn condition_evaluates_one_branch() {
    let mut vars = Variables::new();
    vars.define("a", "0");
    vars.define("b", "0");
    assert_eq!(eval("1 ? a++ : b++", &mut vars), 0.0);
    assert_eq!(vars.value("a"), "1");
    assert_eq!(vars.value("b"), "0");
    assert_eq!(eval("0 ? a++ : b++", &mut vars), 0.0);
    assert_eq!(vars.value("a"), "1");
    assert_eq!(vars.value("b"), "1");
}

#[test]
fn variables_read_as_numbers() {
    let mut vars = Variables::new();
    vars.define("hex", "0x10");
    vars.define("neg", " - 2.5e1");
    vars.define("junk", "hello");
    vars.define("mixed", "12abc");
    assert_eq!(eval("hex", &mut vars), 16.0);
    assert_eq!(eval("neg", &mut vars), -25.0);
    assert_eq!(eval("junk", &mut vars), 0.0);
    assert_eq!(eval("unset", &mut vars), 0.0);
    assert_eq!(eval("mixed", &mut vars), 12.0);
}

#[test]
fn assignment_to_what_is_no_variable_changes_nothing() {
    let mut vars = Variables::new();
    vars.define("a", "4");
    assert_eq!(eval("(a + 1) = 7", &mut vars), 5.0);
    assert_eq!(vars.value("a"), "4");
    assert_eq!(eval("++(a + 1)", &mut vars), 5.0);
    assert_eq!(vars.value("a"), "4");
}

#[test]
fn rendering_reads_back_with_the_same_value() {
    for source in [
        "7",
        "name",
        "1 + 2 * 3",
        "(1 + 2) * 3",
        "a = 4 ? b++ : -c",
        "(a ? b : x) + 1",
        "- -x",
        "-(--x)",
        "1.5e1 / 4",
        "x <<= 0b11",
        "2 * (3 - (4 - 5))",
        "(((a = 0 ? 3 : 1) + 5 | (3 + 5) / 2 == 7 & ~a) ? (7 % 2 > 0) ^ 2 : -1) / 3 + !a * 1.5",
    ] {
        let mut vars = Variables::new();
        vars.define("name", "12");
        vars.define("b", "2");
        vars.define("x", "1");
        let mut again = vars.clone();
        let rendered = parse(source).expect("failed to parse").to_text();
        assert_eq!(eval(source, &mut vars), eval(&rendered, &mut again), "{}", rendered);
        assert_eq!(vars.names(), again.names());
        for name in vars.names() {
            assert_eq!(vars.value(&name), again.value(&name));
        }
    }
    let mut vars = Variables::new();
    assert_eq!(eval("(1 + 2) * 3", &mut vars), 9.0);
    let rendered = parse("(1 + 2) * 3").expect("failed to parse").to_text();
    assert_eq!(rendered, "(1 + 2) * 3");
    assert_eq!(eval(&rendered, &mut vars), 9.0);
}

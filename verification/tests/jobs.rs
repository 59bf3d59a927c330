use rush::expr::errors::{Context, Error as ExprError, ErrorKind as ExprErrorKind};
use rush::expr::parser::parse;
use rush::expr::types::{Operator, Precedence, Token};
use rush::jobs::spawn::{FdOp, OpenMode};
use rush::lang::ast::{ConditionOperator, IoOperation};
use rush::lang::errors::{Cause, Error, ErrorKind};
use rush::lang::exec::{
    parse_descriptor, path_candidates, redirect_operation, ExecutionContext, ExitStatus, Jid,
    JobManager, JobStatus, ProcOptions, WaitEvent,
};

#[test]
fn jobs_run_until_they_are_reaped() {
    let mut jm = JobManager::new();
    let first = jm.add_job(500);
    let second = jm.add_job(501);
    assert_eq!(first, Jid(0));
    assert_eq!(second, Jid(1));
    assert_eq!(jm.next_jid(), 2);
    assert_eq!(jm.stat(first), Ok(JobStatus::Running));
    assert!(!jm.is_complete(first));
    assert!(!jm.all_complete(&vec![first, second]));
    assert!(jm.all_complete(&vec![]));
    assert_eq!(jm.outcome(&vec![first, second], 1), None);

    assert_eq!(jm.reap(WaitEvent::Other), None);
    assert_eq!(jm.reap(WaitEvent::Exited { pid: 999, code: 3 }), None);
    let status = ExitStatus { pid: 501, exit_code: 3, core_dumped: false, signal: None };
    assert_eq!(jm.reap(WaitEvent::Exited { pid: 501, code: 3 }), Some((second, status)));
    assert_eq!(jm.stat(second), Ok(JobStatus::Complete(status)));
    assert_eq!(jm.stat(first), Ok(JobStatus::Running));
    assert_eq!(jm.reap(WaitEvent::Exited { pid: 501, code: 4 }), None);
    assert_eq!(jm.exit_status(second), Some(status));
    assert_eq!(jm.outcome(&vec![first, second], 1), Some(status));
    assert_eq!(jm.outcome(&vec![second, first], 1), None);

    let killed = ExitStatus { pid: 500, exit_code: -1, core_dumped: true, signal: Some(11) };
    assert_eq!(
        jm.reap(WaitEvent::Signaled { pid: 500, signal: 11, core_dumped: true }),
        Some((first, killed))
    );
    assert!(jm.all_complete(&vec![first, second]));
    assert_eq!(jm.outcome(&vec![second, first], 1), Some(killed));
    assert_eq!(
        jm.outcome(&vec![], 77),
        Some(ExitStatus { pid: 77, exit_code: 0, core_dumped: false, signal: None })
    );
}

#[test]
fn unknown_job_is_invalid() {
    let mut jm = JobManager::new();
    jm.add_job(10);
    match jm.stat(Jid(5)) {
        Err(e) => {
            assert_eq!(e.kind(), &ErrorKind::InvalidJobId(5));
            assert_eq!(e.message(), "invalid job Jid(5)");
        }
        Ok(_) => panic!("found a job that was never started"),
    }
    assert_eq!(jm.exit_status(Jid(5)), None);
}

#[test]
fn a_process_id_names_one_job_at_a_time() {
    let mut jm = JobManager::new();
    let old = jm.add_job(10);
    let new = jm.add_job(10);
    assert_ne!(old, new);
    assert!(jm.stat(old).is_err());
    assert_eq!(jm.stat(new), Ok(JobStatus::Running));
    let status = ExitStatus { pid: 10, exit_code: 0, core_dumped: false, signal: None };
    assert_eq!(jm.reap(WaitEvent::Exited { pid: 10, code: 0 }), Some((new, status)));
    let again = jm.add_job(10);
    assert_eq!(again, Jid(2));
    assert_eq!(jm.stat(new), Ok(JobStatus::Complete(status)));
}

#[test]
fn conditional_operators_decide_on_the_exit_code() {
    assert!(ConditionOperator::AndIf.runs_right(0));
    assert!(!ConditionOperator::AndIf.runs_right(1));
    assert!(!ConditionOperator::AndIf.runs_right(-1));
    assert!(!ConditionOperator::OrIf.runs_right(0));
    assert!(ConditionOperator::OrIf.runs_right(1));
    assert!(ConditionOperator::OrIf.runs_right(127));
}

#[test]
fn programs_are_looked_for_along_the_path() {
    assert_eq!(
        path_candidates("/usr/bin:/bin/::relative", "true"),
        vec!["/usr/bin/true", "/bin/true", "true", "relative/true"]
    );
    assert_eq!(path_candidates("", "true"), vec!["true"]);
    assert_eq!(path_candidates("/a:/b", "/bin/true"), vec!["/bin/true", "/bin/true"]);
    let mut ec = ExecutionContext::new("/");
    assert_eq!(ec.executable_candidates("x"), vec!["x"]);
    ec.variables_mut().define("PATH", "/opt/bin");
    assert_eq!(ec.executable_candidates("x"), vec!["/opt/bin/x"]);
}

#[test]
fn descriptors_are_decimal_numbers() {
    assert_eq!(parse_descriptor("0"), Some(0));
    assert_eq!(parse_descriptor("12"), Some(12));
    assert_eq!(parse_descriptor("2147483647"), Some(2147483647));
    assert_eq!(parse_descriptor("2147483648"), None);
    assert_eq!(parse_descriptor("99999999999999999999999"), None);
    assert_eq!(parse_descriptor(""), None);
    assert_eq!(parse_descriptor("-1"), None);
    assert_eq!(parse_descriptor("1a"), None);
    assert_eq!(parse_descriptor(" 1"), None);
}

#[test]
fn redirections_stand_for_operations() {
    let open = |mode| Some((1, FdOp::Open("f".to_string(), mode)));
    assert_eq!(
        redirect_operation(IoOperation::Input, None, "f"),
        Some((0, FdOp::Open("f".to_string(), OpenMode::Read)))
    );
    assert_eq!(redirect_operation(IoOperation::OutputCreate, None, "f"), open(OpenMode::Write));
    assert_eq!(redirect_operation(IoOperation::Output, None, "f"), open(OpenMode::Write));
    assert_eq!(redirect_operation(IoOperation::OutputAppend, None, "f"), open(OpenMode::Append));
    assert_eq!(
        redirect_operation(IoOperation::OutputAppend, Some(7), "f"),
        Some((7, FdOp::Open("f".to_string(), OpenMode::Append)))
    );
    assert_eq!(
        redirect_operation(IoOperation::OutputDupFd, Some(2), "1"),
        Some((1, FdOp::Redirect(2)))
    );
    assert_eq!(
        redirect_operation(IoOperation::OutputDupFd, None, "5"),
        Some((5, FdOp::Redirect(1)))
    );
    assert_eq!(
        redirect_operation(IoOperation::InputDupFd, None, "5"),
        Some((5, FdOp::Redirect(0)))
    );
    assert_eq!(redirect_operation(IoOperation::InputDupFd, None, "five"), None);
    assert_eq!(redirect_operation(IoOperation::HereDocument, None, "f"), None);
    assert_eq!(redirect_operation(IoOperation::HereDocumentStrip, None, "f"), None);
    assert_eq!(redirect_operation(IoOperation::ReadWrite, None, "f"), None);
}

#[test]
fn pipeline_sides_close_the_far_end() {
    let mut opts = ProcOptions::new();
    opts.close_fds.push(9);
    opts.stdin = Some(5);
    opts.stdout = Some(6);
    let left = opts.left_of_pipe(3, 4);
    assert_eq!(left.close_fds, vec![9, 3, 6]);
    assert_eq!(left.stdin, Some(5));
    assert_eq!(left.stdout, Some(4));
    let right = opts.right_of_pipe(3, 4);
    assert_eq!(right.close_fds, vec![9, 4, 5]);
    assert_eq!(right.stdin, Some(3));
    assert_eq!(right.stdout, Some(6));
}

#[test]
fn failures_describe_themselves() {
    assert_eq!(
        Error::new(ErrorKind::MissingExecutable("x".to_string())).message(),
        "could not find \"x\" in any paths listed in the $PATH environment variable"
    );
    assert_eq!(Error::new(ErrorKind::ExpressionError).message(), "failed to evaluate expression");
    assert_eq!(ErrorKind::SysError.message(), "system error");
    assert_eq!(ErrorKind::IllegalNullByte.message(), "illegal NULL byte in input");
    assert_eq!(ErrorKind::IllegalExecutableName.message(), "illegal executable name input");
    assert_eq!(ErrorKind::WaitFailed.message(), "failed to wait for child process");
    assert_eq!(ErrorKind::ExecFailed.message(), "failed to execute child process");
    assert_eq!(ErrorKind::PipelineCreationFailed.message(), "failed to create a pipeline");
    assert_eq!(ErrorKind::ForkFailed.message(), "failed to fork the process");
    assert_eq!(ErrorKind::SigWaitFailed.message(), "failed to wait for signal");
    assert_eq!(
        ErrorKind::FailedToClosePipeFile(-3).message(),
        "failed to close a pipe file descriptor in the parent process (action: -3)"
    );
    let e = Error::caused(ErrorKind::WaitFailed, Cause::System(10));
    assert_eq!(e.kind(), &ErrorKind::WaitFailed);
    assert_eq!(e.cause, Some(Cause::System(10)));
}

#[test]
fn expression_failures_point_at_the_token() {
    let e = parse("2 * (1 + 2").expect_err("read an open parenthesis");
    assert_eq!(e.kind(), &ExprErrorKind::ExpectingRightParentheses);
    assert_eq!(
        e.message(),
        "expecting right parentheses\n  |\n1 |  2 * (1 + 2\n  |            ^\n"
    );
    let e = parse("12 + hello world").expect_err("read two names in a row");
    assert_eq!(
        e.message(),
        "unexpected infix operator, expecting an operator like +, -, *, %, etc.\n  |\n1 |  12 + hello world\n  |       ^^^^^\n"
    );
    let e = parse("1 +").expect_err("read half a sum");
    assert_eq!(
        e.message(),
        "unexpected end-of-expression\n  |\n1 |  1 +\n  |     ^\n"
    );
    assert_eq!(
        ExprErrorKind::InvalidCharacter('`').message(),
        "unable to parse string, illegal character '`'"
    );
    assert_eq!(ExprErrorKind::InvalidNumber.message().len(), 82);
    let context = Context {
        input: "abc".to_string(),
        token: "bc".to_string(),
        column: 1,
        line: 123,
    };
    assert_eq!(context.render(), "    |\n123 |  abc\n    |   ^^\n");
    assert_eq!(
        ExprError::new(ExprErrorKind::InvalidToken).with(context).message(),
        "invalid token\n    |\n123 |  abc\n    |   ^^\n"
    );
    assert_eq!(ExprError::new(ExprErrorKind::InvalidToken).message(), "invalid token\n");
}

#[test]
fn numbers_that_do_not_fit_are_invalid() {
    let e = parse("99999999999999999999999999").expect_err("read a number that does not fit");
    assert_eq!(e.kind(), &ExprErrorKind::InvalidNumber);
    let e = parse("0xffffffffffffffffffffffff").expect_err("read a number that does not fit");
    assert_eq!(e.kind(), &ExprErrorKind::InvalidNumber);
    assert!(parse("9223372036854775807").is_ok() || isize::MAX < 9223372036854775807);
}

#[test]
fn operands_made_with_operators_are_written_in_parentheses() {
    let render = |source: &str| parse(source).expect("failed to parse").to_text();
    assert_eq!(render("1+2*3"), "1 + (2 * 3)");
    assert_eq!(render("(1+2)*3"), "(1 + 2) * 3");
    assert_eq!(render("a?-b:c++"), "a ? (-b) : (c++)");
    assert_eq!(render("(a ? b : c) + 1"), "(a ? b : c) + 1");
    assert_eq!(render("- -x"), "-(-x)");
    assert_eq!(render("--x"), "--x");
    assert_eq!(render("x <<= 0x10"), "x <<= 16");
    assert_eq!(render("~n || !1.5e3"), "(~n) || (!1.5e3)");
    assert_eq!(render("((7))"), "7");
    assert_eq!(render("a++ ++ b"), "a++ ++ b");
    assert_eq!(render("x ! (a)++ ++ c"), "x ! a++ ++ c");
    assert_eq!(render("(a++ ++ b) * 2"), "(a++ ++ b) * 2");
    assert_eq!(Operator::AssignRightShift.to_text(), ">>=");
    assert_eq!(Token::Number(-5).to_text(), "-5");
    assert_eq!(Token::QuestionMark.to_text(), "?");
}

#[test]
fn precedence_classes_are_ordered() {
    let classes = [
        Precedence::Minimum,
        Precedence::Prefix,
        Precedence::Suffix,
        Precedence::Product,
        Precedence::Sum,
        Precedence::BitShift,
        Precedence::Relational,
        Precedence::Equality,
        Precedence::BitAnd,
        Precedence::BitExclusiveOr,
        Precedence::BitOr,
        Precedence::LogicalAnd,
        Precedence::LogicalOr,
        Precedence::TernaryConditional,
        Precedence::Assignment,
        Precedence::Parentheses,
        Precedence::Separator,
    ];
    for (i, a) in classes.iter().enumerate() {
        assert_eq!(a.rank() as usize, i);
        for (j, b) in classes.iter().enumerate() {
            assert_eq!(a.binds_before(b), i < j);
            assert_eq!(a < b, i < j);
        }
    }
    assert_eq!(Operator::Multiply.precedence(), Precedence::Product);
    assert_eq!(Precedence::from_operator(&Operator::BitExclusiveOr), Precedence::BitExclusiveOr);
    assert_eq!(Precedence::from_operator(&Operator::AssignModulo), Precedence::Assignment);
    assert_eq!(Precedence::from_operator(&Operator::Increment), Precedence::Prefix);
    assert_eq!(Precedence::from_token(&Token::Comma), Some(Precedence::Separator));
    assert_eq!(Precedence::from_token(&Token::Colon), Some(Precedence::TernaryConditional));
    assert_eq!(Precedence::from_token(&Token::LeftParen), Some(Precedence::Parentheses));
    assert_eq!(Precedence::from_token(&Token::Number(1)), None);
    assert!(Operator::Subtract.is_prefix());
    assert!(!Operator::Multiply.is_prefix());
    assert!(Operator::Decrement.is_suffix());
    assert!(!Operator::Not.is_suffix());
}

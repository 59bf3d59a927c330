use rush::env::variables::Variables;
use rush::expr::eval::{Answer, Evaluation, Request};
use rush::expr::types::{Expr, Literal, Operator};
use rush::jobs::spawn::{OpenMode, ProcessOptions, SetupStep};
use rush::lang::ast::{Command, CommandGroup, ConditionOperator, Function};
use rush::jobs::spawn::SpawnError;
use rush::lang::errors::{Cause, Error, ErrorKind};
use rush::lang::exec::{ExecutionContext, ExitStatus, JobManager, WaitEvent};
use rush::lang::run::{Action, Event, Run};
use rush::lang::word::Word;

fn number(l: &Literal) -> f64 {
    match l {
        Literal::Integer(n) => *n as f64,
        Literal::Decimal(text) => text.parse::<f64>().unwrap_or(0.0),
    }
}

fn binary(operator: Operator, a: f64, b: f64) -> f64 {
    match operator {
        Operator::Add => a + b,
        Operator::Subtract => a - b,
        Operator::Multiply => a * b,
        Operator::Divide => a / b,
        _ => a,
    }
}

fn evaluate(expr: Expr, vars: &mut Variables) -> String {
    let mut evaluation = Evaluation::new(expr);
    let mut answer = Answer::Continue;
    loop {
        answer = match evaluation.step(vars, answer) {
            Request::Continue => Answer::Continue,
            Request::Binary { operator, left, right } => Answer::Number(Literal::Decimal(
                binary(operator, number(&left), number(&right)).to_string(),
            )),
            Request::Unary { operand, .. } => {
                Answer::Number(Literal::Decimal((-number(&operand)).to_string()))
            }
            Request::Truth(n) => Answer::Truth(number(&n) != 0.0),
            Request::Render(n) => Answer::Text(number(&n).to_string()),
            Request::Done(n) => return number(&n).to_string(),
            Request::Confused => panic!("the evaluation went wrong"),
        };
    }
}

/// A system that keeps a record of what it is asked to do. A child whose
/// program is called `false` exits with 1, any other with 0, and the
/// children are reaped in the order in which they were started.
struct System {
    next_pid: i32,
    next_fd: i32,
    unreaped: Vec<(i32, i32)>,
    present: Vec<String>,
    log: Vec<String>,
    plans: Vec<ProcessOptions>,
}

impl System {
    fn new() -> System {
        System {
            next_pid: 100,
            next_fd: 3,
            unreaped: Vec::new(),
            present: vec![
                "/bin/true".to_string(),
                "/bin/false".to_string(),
                "/usr/bin/printf".to_string(),
                "/bin/cp".to_string(),
                "/usr/bin/test".to_string(),
            ],
            log: Vec::new(),
            plans: Vec::new(),
        }
    }

    fn perform(&mut self, action: Action, run: &mut Run) -> Result<Event, Result<ExitStatus, Error>> {
        Ok(match action {
            Action::Continue => Event::Continue,
            Action::CreatePipe => {
                let read_end = self.next_fd;
                let write_end = self.next_fd + 1;
                self.next_fd += 2;
                self.log.push(format!("pipe {} {}", read_end, write_end));
                Event::Piped { read_end, write_end }
            }
            Action::Spawn(plan) => {
                let pid = self.next_pid;
                self.next_pid += 1;
                let code = if plan.executable().ends_with("false") { 1 } else { 0 };
                self.unreaped.push((pid, code));
                self.log.push(format!("spawn {} {:?}", plan.executable(), plan.arguments()));
                self.plans.push(plan);
                Event::Spawned { pid }
            }
            Action::Wait => {
                if self.unreaped.is_empty() {
                    Event::WaitFailed { errno: 10 }
                } else {
                    let (pid, code) = self.unreaped.remove(0);
                    self.log.push(format!("wait {}", pid));
                    Event::Waited(WaitEvent::Exited { pid, code })
                }
            }
            Action::Close(fd) => {
                self.log.push(format!("close {}", fd));
                Event::Closed
            }
            Action::Evaluate(expr) => {
                let mut scope = run.take_scope().expect("a run has a context");
                let value = evaluate(expr, scope.variables_mut());
                run.put_scope(scope);
                Event::Evaluated(value)
            }
            Action::Probe(path) => Event::Found(self.present.contains(&path)),
            Action::Finish(result) => return Err(result),
        })
    }
}

fn context() -> ExecutionContext {
    let mut ec = ExecutionContext::new("/work");
    ec.variables_mut().define("PATH", "/usr/bin:/bin");
    ec
}

fn run(
    system: &mut System,
    jm: &mut JobManager,
    ec: ExecutionContext,
    command: Command,
) -> (Result<ExitStatus, Error>, ExecutionContext) {
    let mut run = Run::new(command, ec, 1);
    let mut event = Event::Continue;
    loop {
        let action = jm.run(&mut run, event);
        event = match system.perform(action, &mut run) {
            Ok(event) => event,
            Err(result) => {
                let mut last = None;
                while let Some(scope) = run.take_scope() {
                    last = Some(scope);
                }
                return (result, last.expect("a run has a context"));
            }
        };
    }
}

fn exit_code(system: &mut System, command: Command) -> i32 {
    let mut jm = JobManager::new();
    let (result, _) = run(system, &mut jm, context(), command);
    result.expect("failed to execute the command").exit_code
}

fn simple(words: &[&str]) -> Command {
    Command::simple(words.iter().map(|w| Word::parse(w)).collect())
}

#[test]
fn simple_command() {
    let mut system = System::new();
    let mut jm = JobManager::new();
    let (status, _) = run(
        &mut system,
        &mut jm,
        context(),
        Command::simple(vec![Word::parse("true")]),
    );
    let status = status.expect("failed to execute 'true'");

    assert_eq!(status.exit_code, 0);
    assert_eq!(status.pid, 100);
    assert_eq!(system.plans.len(), 1);
    assert_eq!(system.plans[0].executable(), "/bin/true");
    assert_eq!(system.plans[0].arguments(), vec!["true".to_string()]);
    assert_eq!(
        system.plans[0].setup_steps(),
        vec![SetupStep::ChangeDirectory { path: "/work".to_string() }]
    );
}

#[test]
fn cond_and() {
    let mut system = System::new();
    let status = exit_code(
        &mut system,
        Command::conditional(
            Command::simple(vec![Word::parse("true")]),
            ConditionOperator::AndIf,
            Command::simple(vec![Word::parse("true")]),
        ),
    );
    assert_eq!(status, 0);

    let status = exit_code(
        &mut system,
        Command::conditional(
            Command::simple(vec![Word::parse("true")]),
            ConditionOperator::AndIf,
            Command::simple(vec![Word::parse("false")]),
        ),
    );
    assert_eq!(status, 1);
}

#[test]
fn cond_or() {
    let mut system = System::new();
    let status = exit_code(
        &mut system,
        Command::conditional(
            Command::simple(vec![Word::parse("true")]),
            ConditionOperator::OrIf,
            Command::simple(vec![Word::parse("true")]),
        ),
    );
    assert_eq!(status, 0);

    let status = exit_code(
        &mut system,
        Command::conditional(
            Command::simple(vec![Word::parse("true")]),
            ConditionOperator::OrIf,
            Command::simple(vec![Word::parse("false")]),
        ),
    );
    assert_eq!(status, 0);

    let status = exit_code(
        &mut system,
        Command::conditional(
            Command::simple(vec![Word::parse("false")]),
            ConditionOperator::OrIf,
            Command::simple(vec![Word::parse("false")]),
        ),
    );
    assert_eq!(status, 1);
}

#[test]
fn and_if_runs_the_right_side_after_a_success_only() {
    let mut system = System::new();
    assert_eq!(exit_code(&mut system, Command::from("false && true")), 1);
    assert_eq!(
        system.log,
        vec!["spawn /bin/false [\"false\"]".to_string(), "wait 100".to_string()]
    );
    let mut system = System::new();
    assert_eq!(exit_code(&mut system, Command::from("true && true")), 0);
    assert_eq!(
        system.log,
        vec![
            "spawn /bin/true [\"true\"]".to_string(),
            "wait 100".to_string(),
            "spawn /bin/true [\"true\"]".to_string(),
            "wait 101".to_string(),
        ]
    );
}

#[test]
fn or_if_runs_the_right_side_after_a_failure_only() {
    let mut system = System::new();
    assert_eq!(exit_code(&mut system, Command::from("true || false")), 0);
    assert_eq!(system.plans.len(), 1);
    let mut system = System::new();
    assert_eq!(exit_code(&mut system, Command::from("false || false")), 1);
    assert_eq!(system.plans.len(), 2);
}

#[test]
fn pipeline_wires_both_sides_and_closes_the_pipe() {
    let mut system = System::new();
    let mut jm = JobManager::new();
    let (status, _) = run(
        &mut system,
        &mut jm,
        context(),
        Command::pipeline(
            false,
            simple(&["printf", "%s", "hello"]),
            simple(&["cp", "/dev/stdin", "out.txt"]),
        ),
    );
    let status = status.expect("failed to execute pipeline");
    assert_eq!(status.exit_code, 0);
    assert_eq!(status.pid, 101);
    assert_eq!(
        system.log,
        vec![
            "pipe 3 4".to_string(),
            "spawn /usr/bin/printf [\"printf\", \"%s\", \"hello\"]".to_string(),
            "spawn /bin/cp [\"cp\", \"/dev/stdin\", \"out.txt\"]".to_string(),
            "close 3".to_string(),
            "close 4".to_string(),
            "wait 100".to_string(),
            "wait 101".to_string(),
        ]
    );
    assert_eq!(
        system.plans[0].setup_steps(),
        vec![
            SetupStep::Duplicate { oldfd: 4, newfd: 1 },
            SetupStep::Close { fd: 4 },
            SetupStep::Close { fd: 3 },
            SetupStep::ChangeDirectory { path: "/work".to_string() },
        ]
    );
    assert_eq!(
        system.plans[1].setup_steps(),
        vec![
            SetupStep::Duplicate { oldfd: 3, newfd: 0 },
            SetupStep::Close { fd: 3 },
            SetupStep::Close { fd: 4 },
            SetupStep::ChangeDirectory { path: "/work".to_string() },
        ]
    );
}

#[test]
fn group_runs_its_commands_one_after_the_other() {
    let mut system = System::new();
    assert_eq!(exit_code(&mut system, Command::from("true; false; true")), 0);
    assert_eq!(
        system.log,
        vec![
            "spawn /bin/true [\"true\"]".to_string(),
            "wait 100".to_string(),
            "spawn /bin/false [\"false\"]".to_string(),
            "wait 101".to_string(),
            "spawn /bin/true [\"true\"]".to_string(),
            "wait 102".to_string(),
        ]
    );
    let mut system = System::new();
    assert_eq!(exit_code(&mut system, Command::from("true; false")), 1);
}

#[test]
fn expands_variables_in_arguments() {
    let mut system = System::new();
    let mut jm = JobManager::new();
    let mut ec = context();
    ec.variables_mut().define("EXPAND_ENV_VARS_TEST", "helloworld");
    let command = || {
        Command::simple(vec![
            Word::parse("test"),
            Word::parse("$EXPAND_ENV_VARS_TEST"),
            Word::parse("="),
            Word::parse("helloworld"),
        ])
    };
    let (status, mut ec) = run(&mut system, &mut jm, ec, command());
    assert_eq!(status.expect("failed to execute test").exit_code, 0);
    assert_eq!(
        system.plans[0].arguments(),
        vec!["test".to_string(), "helloworld".to_string(), "=".to_string(), "helloworld".to_string()]
    );

    ec.variables_mut().define("EXPAND_ENV_VARS_TEST", "shadowed");
    let (status, _) = run(&mut system, &mut jm, ec, command());
    assert_eq!(status.expect("failed to execute test").exit_code, 0);
    assert_eq!(
        system.plans[1].arguments(),
        vec!["test".to_string(), "shadowed".to_string(), "=".to_string(), "helloworld".to_string()]
    );
}

#[test]
fn function_is_called_through_a_pipeline() {
    let mut system = System::new();
    let mut jm = JobManager::new();
    let (status, ec) = run(
        &mut system,
        &mut jm,
        context(),
        Command::Function(Box::new(Function {
            name: Word::parse("write_hello_3"),
            body: Command::BraceGroup(Box::new(CommandGroup {
                commands: vec![
                    Command::simple(vec![Word::parse("printf"), Word::parse("hello\\n")]),
                    Command::simple(vec![Word::parse("printf"), Word::parse("hello\\n")]),
                    Command::simple(vec![Word::parse("printf"), Word::parse("hello\\n")]),
                ],
            })),
        })),
    );
    let status = status.expect("failed to execute function statement");
    assert_eq!(status.exit_code, 0);
    assert_eq!(status.pid, 1);
    assert!(system.plans.is_empty());
    assert!(ec.functions().is_defined("write_hello_3"));

    let (status, _) = run(
        &mut system,
        &mut jm,
        ec,
        Command::pipeline(
            false,
            Command::simple(vec![Word::parse("write_hello_3")]),
            Command::simple(vec![
                Word::parse("cp"),
                Word::parse("/dev/stdin"),
                Word::parse("out"),
            ]),
        ),
    );
    assert_eq!(status.expect("failed to run function").exit_code, 0);
    assert_eq!(system.plans.len(), 4);
    for plan in &system.plans[0..3] {
        assert_eq!(plan.executable(), "/usr/bin/printf");
        assert_eq!(plan.arguments(), vec!["printf".to_string(), "hello\n".to_string()]);
        assert_eq!(
            plan.setup_steps(),
            vec![
                SetupStep::Duplicate { oldfd: 4, newfd: 1 },
                SetupStep::Close { fd: 4 },
                SetupStep::Close { fd: 3 },
                SetupStep::ChangeDirectory { path: "/work".to_string() },
            ]
        );
    }
    assert_eq!(system.plans[3].executable(), "/bin/cp");
}

#[test]
fn brace_group_keeps_its_changes_to_itself() {
    let mut system = System::new();
    let mut jm = JobManager::new();
    let definition = || {
        Command::Function(Box::new(Function {
            name: Word::parse("f"),
            body: Command::simple(vec![Word::parse("true")]),
        }))
    };
    let (_, ec) = run(
        &mut system,
        &mut jm,
        context(),
        Command::BraceGroup(Box::new(CommandGroup { commands: vec![definition()] })),
    );
    assert!(!ec.functions().is_defined("f"));
    let (_, ec) = run(
        &mut system,
        &mut jm,
        ec,
        Command::Group(Box::new(CommandGroup { commands: vec![definition()] })),
    );
    assert!(ec.functions().is_defined("f"));
}

#[test]
fn missing_executable_is_reported() {
    let mut system = System::new();
    let mut jm = JobManager::new();
    let (result, _) = run(&mut system, &mut jm, context(), Command::from("nowhere"));
    let error = result.expect_err("found a program that is not there");
    assert_eq!(error.kind(), &ErrorKind::MissingExecutable("nowhere".to_string()));
    assert!(system.plans.is_empty());
}

#[test]
fn local_path_is_taken_as_it_is() {
    let mut system = System::new();
    assert_eq!(exit_code(&mut system, Command::from("./here now")), 0);
    assert_eq!(system.plans[0].executable(), "./here");
    assert_eq!(system.plans[0].arguments(), vec!["./here".to_string(), "now".to_string()]);
}

#[test]
fn redirections_follow_in_their_order() {
    let mut system = System::new();
    assert_eq!(exit_code(&mut system, Command::from("printf hi > out 2>> log < in 2>&1")), 0);
    assert_eq!(
        system.plans[0].setup_steps(),
        vec![
            SetupStep::OpenOnto {
                file: "out".to_string(),
                mode: OpenMode::Write,
                flags: OpenMode::Write.flags(),
                permissions: 0o644,
                fd: 1,
            },
            SetupStep::OpenOnto {
                file: "log".to_string(),
                mode: OpenMode::Append,
                flags: OpenMode::Append.flags(),
                permissions: 0o644,
                fd: 2,
            },
            SetupStep::OpenOnto {
                file: "in".to_string(),
                mode: OpenMode::Read,
                flags: OpenMode::Read.flags(),
                permissions: 0o644,
                fd: 0,
            },
            SetupStep::Duplicate { oldfd: 1, newfd: 2 },
            SetupStep::ChangeDirectory { path: "/work".to_string() },
        ]
    );
}

#[test]
fn arithmetic_in_arguments_takes_effect_in_order() {
    let mut system = System::new();
    let mut jm = JobManager::new();
    let mut ec = context();
    ec.variables_mut().define("n", "5");
    let (status, ec) = run(
        &mut system,
        &mut jm,
        ec,
        Command::from("printf $n $((n = n + 1)) $n \"$((n * 2)) items\""),
    );
    assert_eq!(status.expect("failed to run printf").exit_code, 0);
    assert_eq!(
        system.plans[0].arguments(),
        vec![
            "printf".to_string(),
            "5".to_string(),
            "6".to_string(),
            "6".to_string(),
            "12 items".to_string(),
        ]
    );
    assert_eq!(ec.variables().value("n"), "6");
}

#[test]
fn bad_expression_ends_the_run() {
    let mut system = System::new();
    let mut jm = JobManager::new();
    let (result, _) = run(&mut system, &mut jm, context(), Command::from("printf $((1 +))"));
    assert_eq!(result.expect_err("read a bad expression").kind(), &ErrorKind::ExpressionError);
    assert!(system.plans.is_empty());
}

#[test]
fn failed_pipe_is_reported() {
    let mut jm = JobManager::new();
    let mut run = Run::new(Command::from("true | true"), context(), 1);
    let mut action = run.step(&mut jm, Event::Continue);
    while action == Action::Continue {
        action = run.step(&mut jm, Event::Continue);
    }
    assert_eq!(action, Action::CreatePipe);
    match run.step(&mut jm, Event::PipeFailed { errno: 24 }) {
        Action::Finish(Err(e)) => assert_eq!(e.kind(), &ErrorKind::PipelineCreationFailed),
        other => panic!("unexpected action {:?}", other),
    }
    assert!(run.is_finished());
}

#[test]
fn no_child_is_left_unwaited() {
    let mut system = System::new();
    let mut jm = JobManager::new();
    let (status, _) = run(
        &mut system,
        &mut jm,
        context(),
        Command::from("true | false | true && { false; true | true } || false"),
    );
    status.expect("failed to run the command");
    assert!(system.unreaped.is_empty());
    assert!(system.plans.len() > 0);
}

fn until_asked(run: &mut Run, jm: &mut JobManager) -> Action {
    let mut action = run.step(jm, Event::Continue);
    while action == Action::Continue {
        action = run.step(jm, Event::Continue);
    }
    action
}

fn failure(action: Action) -> Error {
    match action {
        Action::Finish(Err(e)) => e,
        other => panic!("unexpected action {:?}", other),
    }
}

#[test]
fn failed_close_names_the_descriptor() {
    let mut jm = JobManager::new();
    let mut run = Run::new(Command::from("./a | ./b"), context(), 1);
    assert_eq!(until_asked(&mut run, &mut jm), Action::CreatePipe);
    assert!(matches!(
        run.step(&mut jm, Event::Piped { read_end: 8, write_end: 9 }),
        Action::Continue
    ));
    assert!(matches!(until_asked(&mut run, &mut jm), Action::Spawn(_)));
    assert!(matches!(run.step(&mut jm, Event::Spawned { pid: 50 }), Action::Continue));
    assert!(matches!(until_asked(&mut run, &mut jm), Action::Spawn(_)));
    assert!(matches!(run.step(&mut jm, Event::Spawned { pid: 51 }), Action::Continue));
    assert_eq!(until_asked(&mut run, &mut jm), Action::Close(8));
    assert_eq!(run.step(&mut jm, Event::Closed), Action::Close(9));
    let e = failure(run.step(&mut jm, Event::CloseFailed { errno: 9 }));
    assert_eq!(e.kind(), &ErrorKind::FailedToClosePipeFile(9));
    assert_eq!(e.cause, Some(Cause::System(9)));
    assert!(run.is_finished());
}

#[test]
fn failed_spawn_is_reported() {
    let mut jm = JobManager::new();
    let mut run = Run::new(Command::from("./a"), context(), 1);
    assert!(matches!(until_asked(&mut run, &mut jm), Action::Spawn(_)));
    let e = failure(run.step(
        &mut jm,
        Event::SpawnFailed(SpawnError::ForkFailed { source: 11 }),
    ));
    assert_eq!(e.kind(), &ErrorKind::ExecFailed);
    assert_eq!(e.cause, Some(Cause::Spawn(SpawnError::ForkFailed { source: 11 })));
    assert_eq!(jm.next_jid(), 0);
}

#[test]
fn failed_wait_is_reported() {
    let mut jm = JobManager::new();
    let mut run = Run::new(Command::from("./a"), context(), 1);
    assert!(matches!(until_asked(&mut run, &mut jm), Action::Spawn(_)));
    assert!(matches!(run.step(&mut jm, Event::Spawned { pid: 50 }), Action::Continue));
    assert_eq!(until_asked(&mut run, &mut jm), Action::Wait);
    assert_eq!(run.step(&mut jm, Event::Waited(WaitEvent::Other)), Action::Wait);
    assert_eq!(
        run.step(&mut jm, Event::Waited(WaitEvent::Exited { pid: 7, code: 0 })),
        Action::Wait
    );
    let e = failure(run.step(&mut jm, Event::WaitFailed { errno: 10 }));
    assert_eq!(e.kind(), &ErrorKind::WaitFailed);
    assert_eq!(e.cause, Some(Cause::System(10)));
}

#[test]
fn command_without_words_is_refused() {
    let mut jm = JobManager::new();
    let mut run = Run::new(Command::simple(vec![]), context(), 1);
    let e = failure(until_asked(&mut run, &mut jm));
    assert_eq!(e.kind(), &ErrorKind::IllegalExecutableName);
}

#[test]
fn commands_that_cannot_be_run_are_refused() {
    let mut jm = JobManager::new();
    let mut run = Run::new(
        Command::SubShell(Box::new(CommandGroup { commands: vec![] })),
        context(),
        1,
    );
    assert_eq!(failure(until_asked(&mut run, &mut jm)).kind(), &ErrorKind::ExecFailed);
    let mut run = Run::new(Command::from("./a << end"), context(), 1);
    assert_eq!(failure(until_asked(&mut run, &mut jm)).kind(), &ErrorKind::ExecFailed);
    let mut run = Run::new(Command::from("./a >& nine"), context(), 1);
    assert_eq!(failure(until_asked(&mut run, &mut jm)).kind(), &ErrorKind::ExecFailed);
}

#[test]
fn answers_that_do_not_fit_end_the_run() {
    let mut jm = JobManager::new();
    let mut run = Run::new(Command::from("./a | ./b"), context(), 1);
    assert_eq!(until_asked(&mut run, &mut jm), Action::CreatePipe);
    assert_eq!(failure(run.step(&mut jm, Event::Closed)).kind(), &ErrorKind::SysError);
    assert!(run.is_finished());
    assert_eq!(failure(run.step(&mut jm, Event::Continue)).kind(), &ErrorKind::SysError);
}

#[test]
fn other_children_are_taken_note_of_while_waiting() {
    let mut jm = JobManager::new();
    let stray = jm.add_job(40);
    let mut run = Run::new(Command::from("./a"), context(), 1);
    assert!(matches!(until_asked(&mut run, &mut jm), Action::Spawn(_)));
    assert!(matches!(run.step(&mut jm, Event::Spawned { pid: 50 }), Action::Continue));
    assert_eq!(until_asked(&mut run, &mut jm), Action::Wait);
    assert_eq!(
        run.step(&mut jm, Event::Waited(WaitEvent::Exited { pid: 40, code: 3 })),
        Action::Wait
    );
    assert!(jm.is_complete(stray));
    assert!(matches!(
        run.step(&mut jm, Event::Waited(WaitEvent::Exited { pid: 50, code: 4 })),
        Action::Continue
    ));
    match until_asked(&mut run, &mut jm) {
        Action::Finish(Ok(status)) => {
            assert_eq!(status.exit_code, 4);
            assert_eq!(status.pid, 50);
        }
        other => panic!("unexpected action {:?}", other),
    }
}

//! What can go wrong while a command is run.

use crate::expr::errors::{Error as ExpressionFailure, ErrorView as ExpressionFailureView};
use crate::jobs::spawn::{
    errno_text, errno_words, SpawnError, SubprocessSetupError, SubprocessSetupErrorView,
};
use crate::text::{append_chars, chars_of, decimal, render_decimal, render_signed, signed_decimal, string_of};
use vstd::prelude::*;

verus! {

/// The kinds of failure.
#[derive(Debug, PartialEq, Eq)]
pub enum ErrorKind {
    ExpressionError,
    SysError,
    MissingExecutable(String),
    IllegalNullByte,
    IllegalExecutableName,
    WaitFailed,
    ExecFailed,
    PipelineCreationFailed,
    ForkFailed,
    /// No job has this number.
    InvalidJobId(u32),
    FailedToClosePipeFile(i32),
    SigWaitFailed,
}

pub enum ErrorKindView {
    ExpressionError,
    SysError,
    MissingExecutable(Seq<char>),
    IllegalNullByte,
    IllegalExecutableName,
    WaitFailed,
    ExecFailed,
    PipelineCreationFailed,
    ForkFailed,
    InvalidJobId(u32),
    FailedToClosePipeFile(i32),
    SigWaitFailed,
}

impl View for ErrorKind {
    type V = ErrorKindView;

    open spec fn view(&self) -> ErrorKindView {
        match self {
            ErrorKind::ExpressionError => ErrorKindView::ExpressionError,
            ErrorKind::SysError => ErrorKindView::SysError,
            ErrorKind::MissingExecutable(name) => ErrorKindView::MissingExecutable(name@),
            ErrorKind::IllegalNullByte => ErrorKindView::IllegalNullByte,
            ErrorKind::IllegalExecutableName => ErrorKindView::IllegalExecutableName,
            ErrorKind::WaitFailed => ErrorKindView::WaitFailed,
            ErrorKind::ExecFailed => ErrorKindView::ExecFailed,
            ErrorKind::PipelineCreationFailed => ErrorKindView::PipelineCreationFailed,
            ErrorKind::ForkFailed => ErrorKindView::ForkFailed,
            ErrorKind::InvalidJobId(jid) => ErrorKindView::InvalidJobId(*jid),
            ErrorKind::FailedToClosePipeFile(fd) => ErrorKindView::FailedToClosePipeFile(*fd),
            ErrorKind::SigWaitFailed => ErrorKindView::SigWaitFailed,
        }
    }
}

/// What lies behind a failure.
#[derive(Debug, PartialEq, Eq)]
pub enum Cause {
    /// An expression could not be read.
    Expression(ExpressionFailure),
    /// A child could not be set up.
    Setup(SubprocessSetupError),
    /// A child could not be started.
    Spawn(SpawnError),
    /// A system call failed with this error number.
    System(i32),
}

pub enum CauseView {
    Expression(ExpressionFailureView),
    Setup(SubprocessSetupErrorView),
    Spawn(SpawnError),
    System(i32),
}

impl View for Cause {
    type V = CauseView;

    open spec fn view(&self) -> CauseView {
        match self {
            Cause::Expression(e) => CauseView::Expression(e@),
            Cause::Setup(e) => CauseView::Setup(e@),
            Cause::Spawn(e) => CauseView::Spawn(*e),
            Cause::System(n) => CauseView::System(*n),
        }
    }
}

/// A failure and, where it is known, what lies behind it.
#[derive(Debug, PartialEq, Eq)]
pub struct Error {
    pub kind: ErrorKind,
    pub cause: Option<Cause>,
}

pub struct ErrorView {
    pub kind: ErrorKindView,
    pub cause: Option<CauseView>,
}

impl View for Error {
    type V = ErrorView;

    open spec fn view(&self) -> ErrorView {
        ErrorView {
            kind: self.kind@,
            cause: match self.cause {
                Some(c) => Some(c@),
                None => None,
            },
        }
    }
}

impl ErrorKindView {
    /// The sentence that describes a kind of failure.
    pub open spec fn description(self) -> Seq<char> {
        match self {
            ErrorKindView::ExpressionError => "failed to evaluate expression"@,
            ErrorKindView::SysError => "system error"@,
            ErrorKindView::MissingExecutable(name) => "could not find \""@ + name
                + "\" in any paths listed in the $PATH environment variable"@,
            ErrorKindView::IllegalNullByte => "illegal NULL byte in input"@,
            ErrorKindView::IllegalExecutableName => "illegal executable name input"@,
            ErrorKindView::WaitFailed => "failed to wait for child process"@,
            ErrorKindView::ExecFailed => "failed to execute child process"@,
            ErrorKindView::PipelineCreationFailed => "failed to create a pipeline"@,
            ErrorKindView::ForkFailed => "failed to fork the process"@,
            ErrorKindView::InvalidJobId(jid) => "invalid job Jid("@ + decimal(jid as nat) + ")"@,
            ErrorKindView::FailedToClosePipeFile(fd) =>
                "failed to close a pipe file descriptor in the parent process (action: "@
                + signed_decimal(fd as int) + ")"@,
            ErrorKindView::SigWaitFailed => "failed to wait for signal"@,
        }
    }
}

impl CauseView {
    /// What is reported of that which lies behind a failure: the diagnostic
    /// of the expression or of the child, or the words for the system's
    /// error.
    pub open spec fn report(self) -> Seq<char> {
        match self {
            CauseView::Expression(e) => e.rendering(),
            CauseView::Setup(e) => e.report(),
            CauseView::Spawn(e) => e.report_text(),
            CauseView::System(errno) => errno_text(errno),
        }
    }
}

impl ErrorView {
    /// What is reported of a failure: the description of its kind and,
    /// behind a colon, what lies behind it, where that is known.
    pub open spec fn report(self) -> Seq<char> {
        match self.cause {
            Some(cause) => self.kind.description() + ": "@ + cause.report(),
            None => self.kind.description(),
        }
    }
}

impl Cause {
    /// What is reported of that which lies behind a failure.
    pub fn report(&self) -> (s: String)
        ensures
            s@ == self@.report(),
    {
        match self {
            Cause::Expression(e) => e.message(),
            Cause::Setup(e) => e.report(),
            Cause::Spawn(e) => e.report(),
            Cause::System(errno) => errno_words(*errno),
        }
    }
}

impl ErrorKind {
    /// The description of this kind of failure, as text.
    pub fn message(&self) -> (s: String)
        ensures
            s@ == self@.description(),
    {
        match self {
            ErrorKind::ExpressionError => String::from_str("failed to evaluate expression"),
            ErrorKind::SysError => String::from_str("system error"),
            ErrorKind::MissingExecutable(name) => {
                let mut v = chars_of("could not find \"");
                append_chars(&mut v, &chars_of(name.as_str()));
                append_chars(
                    &mut v,
                    &chars_of("\" in any paths listed in the $PATH environment variable"),
                );
                string_of(&v)
            },
            ErrorKind::IllegalNullByte => String::from_str("illegal NULL byte in input"),
            ErrorKind::IllegalExecutableName => String::from_str("illegal executable name input"),
            ErrorKind::WaitFailed => String::from_str("failed to wait for child process"),
            ErrorKind::ExecFailed => String::from_str("failed to execute child process"),
            ErrorKind::PipelineCreationFailed => String::from_str("failed to create a pipeline"),
            ErrorKind::ForkFailed => String::from_str("failed to fork the process"),
            ErrorKind::InvalidJobId(jid) => {
                let mut v = chars_of("invalid job Jid(");
                append_chars(&mut v, &render_decimal(*jid as u64));
                append_chars(&mut v, &chars_of(")"));
                string_of(&v)
            },
            ErrorKind::FailedToClosePipeFile(fd) => {
                let mut v = chars_of(
                    "failed to close a pipe file descriptor in the parent process (action: ",
                );
                append_chars(&mut v, &render_signed(*fd as isize));
                append_chars(&mut v, &chars_of(")"));
                string_of(&v)
            },
            ErrorKind::SigWaitFailed => String::from_str("failed to wait for signal"),
        }
    }
}

impl Error {
    /// A failure of the given kind with nothing known behind it.
    pub fn new(kind: ErrorKind) -> (e: Error)
        ensures
            e@ == (ErrorView { kind: kind@, cause: None }),
    {
        Error { kind, cause: None }
    }

    /// A failure of the given kind that `cause` lies behind.
    pub fn caused(kind: ErrorKind, cause: Cause) -> (e: Error)
        ensures
            e@ == (ErrorView { kind: kind@, cause: Some(cause@) }),
    {
        Error { kind, cause: Some(cause) }
    }

    pub fn kind(&self) -> (k: &ErrorKind)
        ensures
            k@ == self@.kind,
    {
        &self.kind
    }

    /// The description of the failure's kind.
    pub fn message(&self) -> (s: String)
        ensures
            s@ == self@.kind.description(),
    {
        self.kind.message()
    }

    /// What is reported of the failure: the description of its kind and,
    /// behind a colon, what lies behind it, where that is known.
    pub fn report(&self) -> (s: String)
        ensures
            s@ == self@.report(),
    {
        match &self.cause {
            Some(cause) => {
                let mut v = chars_of(self.kind.message().as_str());
                append_chars(&mut v, &chars_of(": "));
                append_chars(&mut v, &chars_of(cause.report().as_str()));
                string_of(&v)
            },
            None => self.kind.message(),
        }
    }
}

} // verus!

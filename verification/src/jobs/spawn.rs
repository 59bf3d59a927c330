//! The plan of a child process: what to run, with which arguments, and what
//! to do to its file descriptors, environment and working directory between
//! `fork` and `exec`.

use crate::text::{
    append_chars, chars_of, debug_quoted, debug_text, decimal, render_decimal, render_signed,
    signed_decimal, string_of,
};
use vstd::prelude::*;

verus! {

/// How a file is opened for a redirection.
#[derive(Clone, Copy, PartialEq, Eq, PartialOrd, Ord, Debug, Structural)]
pub enum OpenMode {
    /// For reading.
    Read,
    /// For writing from the start; the file is created if it is missing.
    Write,
    /// For writing at the end; the file is created if it is missing.
    Append,
}

/// The flags that a file is opened with: for reading only or for writing
/// only, and whether it is created if missing, emptied, or written at its
/// end.
#[derive(Clone, Copy, PartialEq, Eq, Debug, Structural)]
pub struct OpenFlags {
    pub write_only: bool,
    pub create: bool,
    pub truncate: bool,
    pub append: bool,
}

/// The permission bits of a file that a redirection creates: readable by
/// all, writable by its owner.
pub const CREATE_PERMISSIONS: u32 = 0o644;

impl OpenMode {
    /// The flags that a mode stands for: reading opens read-only; writing
    /// opens write-only, creates and empties; appending opens write-only,
    /// creates and writes at the end.
    pub open spec fn flags_of(self) -> OpenFlags {
        match self {
            OpenMode::Read => OpenFlags {
                write_only: false,
                create: false,
                truncate: false,
                append: false,
            },
            OpenMode::Write => OpenFlags {
                write_only: true,
                create: true,
                truncate: true,
                append: false,
            },
            OpenMode::Append => OpenFlags {
                write_only: true,
                create: true,
                truncate: false,
                append: true,
            },
        }
    }

    pub fn flags(self) -> (f: OpenFlags)
        ensures
            f == self.flags_of(),
    {
        match self {
            OpenMode::Read => OpenFlags {
                write_only: false,
                create: false,
                truncate: false,
                append: false,
            },
            OpenMode::Write => OpenFlags {
                write_only: true,
                create: true,
                truncate: true,
                append: false,
            },
            OpenMode::Append => OpenFlags {
                write_only: true,
                create: true,
                truncate: false,
                append: true,
            },
        }
    }
}

/// What to do to one file descriptor of the child.
#[derive(Debug, PartialEq, Eq)]
pub enum FdOp {
    /// Make the given descriptor a copy of this one.
    Redirect(i32),
    /// Open a file and put it on this descriptor.
    Open(String, OpenMode),
    /// Close this descriptor.
    Close,
}

pub enum FdOpView {
    Redirect(i32),
    Open(Seq<char>, OpenMode),
    Close,
}

impl View for FdOp {
    type V = FdOpView;

    open spec fn view(&self) -> FdOpView {
        match self {
            FdOp::Redirect(target) => FdOpView::Redirect(*target),
            FdOp::Open(file, mode) => FdOpView::Open(file@, *mode),
            FdOp::Close => FdOpView::Close,
        }
    }
}

impl Clone for FdOp {
    fn clone(&self) -> (r: Self)
        ensures
            r@ == self@,
    {
        match self {
            FdOp::Redirect(target) => FdOp::Redirect(*target),
            FdOp::Open(file, mode) => FdOp::Open(file.clone(), *mode),
            FdOp::Close => FdOp::Close,
        }
    }
}

/// The description of a process to start. The process inherits the
/// environment of its parent; `env` holds what is set on top of it.
#[derive(Debug, PartialEq, Eq)]
pub struct ProcessOptions {
    args: Vec<String>,
    wd: Option<String>,
    executable: String,
    env: Vec<(String, String)>,
    fd: Vec<(i32, FdOp)>,
}

pub struct ProcessOptionsView {
    pub executable: Seq<char>,
    pub args: Seq<Seq<char>>,
    pub wd: Option<Seq<char>>,
    pub env: Seq<(Seq<char>, Seq<char>)>,
    pub fd: Seq<(i32, FdOpView)>,
}

impl View for ProcessOptions {
    type V = ProcessOptionsView;

    closed spec fn view(&self) -> ProcessOptionsView {
        ProcessOptionsView {
            executable: self.executable@,
            args: Seq::new(self.args@.len(), |i: int| self.args@[i]@),
            wd: match self.wd {
                Some(dir) => Some(dir@),
                None => None,
            },
            env: Seq::new(self.env@.len(), |i: int| (self.env@[i].0@, self.env@[i].1@)),
            fd: Seq::new(self.fd@.len(), |i: int| (self.fd@[i].0, self.fd@[i].1@)),
        }
    }
}

impl ProcessOptionsView {
    /// The same plan with one more file descriptor operation at the end.
    pub open spec fn with_fd(self, fd: i32, op: FdOpView) -> ProcessOptionsView {
        ProcessOptionsView { fd: self.fd.push((fd, op)), ..self }
    }
}

impl ProcessOptions {
    /// A plan to run `exe` with no arguments, the parent's working directory
    /// and descriptors, and nothing added to the environment.
    pub fn new(exe: &str) -> (p: ProcessOptions)
        ensures
            p@ == (ProcessOptionsView {
                executable: exe@,
                args: Seq::empty(),
                wd: None,
                env: Seq::empty(),
                fd: Seq::empty(),
            }),
    {
        let p = ProcessOptions {
            executable: exe.to_owned(),
            args: Vec::new(),
            env: Vec::new(),
            fd: Vec::new(),
            wd: None,
        };
        assert(p@.args =~= Seq::empty());
        assert(p@.env =~= Seq::empty());
        assert(p@.fd =~= Seq::empty());
        p
    }

    /// Adds an argument at the end.
    pub fn arg(&mut self, arg: &str) -> (r: &mut ProcessOptions)
        ensures
            r@ == (ProcessOptionsView { args: old(self)@.args.push(arg@), ..old(self)@ }),
            *final(self) == *final(r),
    {
        self.args.push(arg.to_owned());
        assert(self@.args =~= old(self)@.args.push(arg@));
        assert(self@.env =~= old(self)@.env);
        assert(self@.fd =~= old(self)@.fd);
        self
    }

    /// Adds a variable to set in the child's environment.
    pub fn env(&mut self, k: &str, v: &str) -> (r: &mut ProcessOptions)
        ensures
            r@ == (ProcessOptionsView { env: old(self)@.env.push((k@, v@)), ..old(self)@ }),
            *final(self) == *final(r),
    {
        self.env.push((k.to_owned(), v.to_owned()));
        assert(self@.args =~= old(self)@.args);
        assert(self@.env =~= old(self)@.env.push((k@, v@)));
        assert(self@.fd =~= old(self)@.fd);
        self
    }

    /// Sets the working directory of the child.
    pub fn work_dir(&mut self, dir: &str) -> (r: &mut ProcessOptions)
        ensures
            r@ == (ProcessOptionsView { wd: Some(dir@), ..old(self)@ }),
            *final(self) == *final(r),
    {
        self.wd = Some(dir.to_owned());
        assert(self@.args =~= old(self)@.args);
        assert(self@.env =~= old(self)@.env);
        assert(self@.fd =~= old(self)@.fd);
        self
    }

    fn push_fd(&mut self, fd: i32, op: FdOp)
        ensures
            final(self)@ == old(self)@.with_fd(fd, op@),
    {
        self.fd.push((fd, op));
        assert(self@.args =~= old(self)@.args);
        assert(self@.env =~= old(self)@.env);
        assert(self@.fd =~= old(self)@.fd.push((fd, op@)));
    }

    /// Opens `file` for reading on the descriptor `fd`.
    pub fn read(&mut self, fd: i32, file: &str) -> (r: &mut ProcessOptions)
        ensures
            r@ == old(self)@.with_fd(fd, FdOpView::Open(file@, OpenMode::Read)),
            *final(self) == *final(r),
    {
        self.push_fd(fd, FdOp::Open(file.to_owned(), OpenMode::Read));
        self
    }

    /// Opens `file` for writing on the descriptor `fd`.
    pub fn write(&mut self, fd: i32, file: &str) -> (r: &mut ProcessOptions)
        ensures
            r@ == old(self)@.with_fd(fd, FdOpView::Open(file@, OpenMode::Write)),
            *final(self) == *final(r),
    {
        self.push_fd(fd, FdOp::Open(file.to_owned(), OpenMode::Write));
        self
    }

    /// Opens `file` for appending on the descriptor `fd`.
    pub fn append(&mut self, fd: i32, file: &str) -> (r: &mut ProcessOptions)
        ensures
            r@ == old(self)@.with_fd(fd, FdOpView::Open(file@, OpenMode::Append)),
            *final(self) == *final(r),
    {
        self.push_fd(fd, FdOp::Open(file.to_owned(), OpenMode::Append));
        self
    }

    /// Closes the descriptor `fd`.
    pub fn close(&mut self, fd: i32) -> (r: &mut ProcessOptions)
        ensures
            r@ == old(self)@.with_fd(fd, FdOpView::Close),
            *final(self) == *final(r),
    {
        self.push_fd(fd, FdOp::Close);
        self
    }

    /// Makes `target_fd` a copy of `source_fd`.
    pub fn redirect(&mut self, source_fd: i32, target_fd: i32) -> (r: &mut ProcessOptions)
        ensures
            r@ == old(self)@.with_fd(source_fd, FdOpView::Redirect(target_fd)),
            *final(self) == *final(r),
    {
        self.push_fd(source_fd, FdOp::Redirect(target_fd));
        self
    }
}

/// One thing that the child does between `fork` and `exec`.
#[derive(Debug, PartialEq, Eq)]
pub enum SetupStep {
    /// Close a descriptor.
    Close { fd: i32 },
    /// Make `newfd` a copy of `oldfd`.
    Duplicate { oldfd: i32, newfd: i32 },
    /// Open `file` with `flags`, creating it with `permissions` where the
    /// flags say so; make `fd` a copy of the descriptor that this gives, and
    /// close that descriptor, unless it is `fd` itself.
    OpenOnto { file: String, mode: OpenMode, flags: OpenFlags, permissions: u32, fd: i32 },
    /// Set a variable of the environment.
    SetVariable { key: String, value: String },
    /// Change the working directory.
    ChangeDirectory { path: String },
}

pub enum SetupStepView {
    Close { fd: i32 },
    Duplicate { oldfd: i32, newfd: i32 },
    OpenOnto { file: Seq<char>, mode: OpenMode, flags: OpenFlags, permissions: u32, fd: i32 },
    SetVariable { key: Seq<char>, value: Seq<char> },
    ChangeDirectory { path: Seq<char> },
}

impl View for SetupStep {
    type V = SetupStepView;

    open spec fn view(&self) -> SetupStepView {
        match self {
            SetupStep::Close { fd } => SetupStepView::Close { fd: *fd },
            SetupStep::Duplicate { oldfd, newfd } => SetupStepView::Duplicate {
                oldfd: *oldfd,
                newfd: *newfd,
            },
            SetupStep::OpenOnto { file, mode, flags, permissions, fd } => SetupStepView::OpenOnto {
                file: file@,
                mode: *mode,
                flags: *flags,
                permissions: *permissions,
                fd: *fd,
            },
            SetupStep::SetVariable { key, value } => SetupStepView::SetVariable {
                key: key@,
                value: value@,
            },
            SetupStep::ChangeDirectory { path } => SetupStepView::ChangeDirectory { path: path@ },
        }
    }
}

/// The step that carries out the operation `op` on the descriptor `fd`.
pub open spec fn fd_step(fd: i32, op: FdOpView) -> SetupStepView {
    match op {
        FdOpView::Close => SetupStepView::Close { fd },
        FdOpView::Redirect(target) => SetupStepView::Duplicate { oldfd: fd, newfd: target },
        FdOpView::Open(file, mode) => SetupStepView::OpenOnto {
            file,
            mode,
            flags: mode.flags_of(),
            permissions: CREATE_PERMISSIONS,
            fd,
        },
    }
}

impl ProcessOptionsView {
    /// The steps of the child, in order: every file descriptor operation as
    /// it was added, then every variable as it was added, then the change of
    /// the working directory if one is set.
    pub open spec fn setup_plan(self) -> Seq<SetupStepView> {
        Seq::new(self.fd.len(), |i: int| fd_step(self.fd[i].0, self.fd[i].1)) + Seq::new(
            self.env.len(),
            |i: int| SetupStepView::SetVariable { key: self.env[i].0, value: self.env[i].1 },
        ) + match self.wd {
            Some(path) => seq![SetupStepView::ChangeDirectory { path }],
            None => Seq::empty(),
        }
    }

    /// The place of the first text with a null character among the
    /// executable, which counts as place 0, and the arguments, which count
    /// from 1.
    pub open spec fn first_null(self) -> Option<nat> {
        if self.executable.contains('\0') {
            Some(0)
        } else {
            first_null_argument(self.args, 0)
        }
    }
}

/// The place, counted from 1, of the first of the arguments from index
/// `from` on that holds a null character.
pub open spec fn first_null_argument(args: Seq<Seq<char>>, from: nat) -> Option<nat>
    decreases args.len() - from,
{
    if from >= args.len() {
        None
    } else if args[from as int].contains('\0') {
        Some(from + 1)
    } else {
        first_null_argument(args, from + 1)
    }
}

/// What a sequence of steps stands for in contracts.
pub open spec fn steps_view(steps: Seq<SetupStep>) -> Seq<SetupStepView> {
    Seq::new(steps.len(), |i: int| steps[i]@)
}

/// What a sequence of texts stands for in contracts.
pub open spec fn texts_view(texts: Seq<String>) -> Seq<Seq<char>> {
    Seq::new(texts.len(), |i: int| texts[i]@)
}

fn has_null(s: &str) -> (b: bool)
    ensures
        b == s@.contains('\0'),
{
    let chars = chars_of(s);
    let mut i: usize = 0;
    while i < chars.len()
        invariant
            i <= chars.len(),
            chars@ == s@,
            forall|k: int| 0 <= k < i ==> chars@[k] != '\0',
        decreases chars.len() - i,
    {
        if chars[i] == '\0' {
            return true;
        }
        i += 1;
    }
    false
}

impl ProcessOptions {
    /// The path of the program to run.
    pub fn executable(&self) -> (s: &str)
        ensures
            s@ == self@.executable,
    {
        self.executable.as_str()
    }

    /// The arguments, in order.
    pub fn arguments(&self) -> (v: Vec<String>)
        ensures
            texts_view(v@) == self@.args,
    {
        let mut v: Vec<String> = Vec::new();
        let mut i: usize = 0;
        while i < self.args.len()
            invariant
                i <= self.args.len(),
                v@.len() == i,
                forall|k: int| 0 <= k < i ==> v@[k]@ == self.args@[k]@,
            decreases self.args.len() - i,
        {
            v.push(self.args[i].clone());
            i += 1;
        }
        assert(texts_view(v@) =~= self@.args);
        v
    }

    /// The steps that the child takes before `exec`.
    pub fn setup_steps(&self) -> (steps: Vec<SetupStep>)
        ensures
            steps_view(steps@) == self@.setup_plan(),
    {
        let mut steps: Vec<SetupStep> = Vec::new();
        let ghost plan = self@.setup_plan();
        let mut i: usize = 0;
        while i < self.fd.len()
            invariant
                i <= self.fd.len(),
                steps@.len() == i,
                forall|k: int|
                    0 <= k < i ==> steps@[k]@ == fd_step(self.fd@[k].0, self.fd@[k].1@),
            decreases self.fd.len() - i,
        {
            let fd = self.fd[i].0;
            let step = match &self.fd[i].1 {
                FdOp::Close => SetupStep::Close { fd },
                FdOp::Redirect(target) => SetupStep::Duplicate { oldfd: fd, newfd: *target },
                FdOp::Open(file, mode) => SetupStep::OpenOnto {
                    file: file.clone(),
                    mode: *mode,
                    flags: mode.flags(),
                    permissions: CREATE_PERMISSIONS,
                    fd,
                },
            };
            steps.push(step);
            i += 1;
        }
        let mut j: usize = 0;
        while j < self.env.len()
            invariant
                j <= self.env.len(),
                steps@.len() == self.fd.len() + j,
                forall|k: int|
                    0 <= k < self.fd.len() ==> steps@[k]@ == fd_step(
                        self.fd@[k].0,
                        self.fd@[k].1@,
                    ),
                forall|k: int|
                    0 <= k < j ==> steps@[self.fd.len() + k]@ == (SetupStepView::SetVariable {
                        key: self.env@[k].0@,
                        value: self.env@[k].1@,
                    }),
            decreases self.env.len() - j,
        {
            steps.push(
                SetupStep::SetVariable {
                    key: self.env[j].0.clone(),
                    value: self.env[j].1.clone(),
                },
            );
            j += 1;
        }
        match &self.wd {
            Some(path) => {
                steps.push(SetupStep::ChangeDirectory { path: path.clone() });
            },
            None => {},
        }
        assert(steps_view(steps@) =~= self@.setup_plan());
        steps
    }

    /// Finds the first text that cannot be handed to `exec` because it holds
    /// a null character.
    pub fn check_arguments(&self) -> (r: Result<(), SubprocessSetupError>)
        ensures
            match r {
                Ok(_) => self@.first_null() is None,
                Err(e) => self@.first_null() is Some && e@ == (SubprocessSetupErrorView::ArgContainsNull {
                    arg_number: self@.first_null()->0,
                    arg: if self@.first_null()->0 == 0 {
                        self@.executable
                    } else {
                        self@.args[self@.first_null()->0 - 1]
                    },
                }),
            },
    {
        if has_null(self.executable.as_str()) {
            return Err(
                SubprocessSetupError::ArgContainsNull {
                    arg_number: 0,
                    arg: self.executable.clone(),
                },
            );
        }
        let ghost args = self@.args;
        let mut i: usize = 0;
        while i < self.args.len()
            invariant
                i <= self.args.len(),
                args == self@.args,
                args.len() == self.args.len(),
                !self@.executable.contains('\0'),
                first_null_argument(args, 0) == first_null_argument(args, i as nat),
            decreases self.args.len() - i,
        {
            assert(args[i as int] == self.args@[i as int]@);
            if has_null(self.args[i].as_str()) {
                let e = SubprocessSetupError::ArgContainsNull {
                    arg_number: i + 1,
                    arg: self.args[i].clone(),
                };
                assert(first_null_argument(args, i as nat) == Some((i + 1) as nat));
                assert(self@.first_null() == Some((i + 1) as nat));
                assert(e@ == (SubprocessSetupErrorView::ArgContainsNull {
                    arg_number: (i + 1) as nat,
                    arg: args[i as int],
                }));
                return Err(e);
            }
            i += 1;
        }
        Ok(())
    }
}

/// What went wrong in the child before `exec`. `source` is the number of the
/// system's error.
#[allow(inconsistent_fields)]
#[derive(Debug, PartialEq, Eq)]
pub enum SubprocessSetupError {
    /// A descriptor could not be closed.
    CloseFailed { source: i32, fd: i32 },
    /// A descriptor could not be copied onto another.
    DupFailed { source: i32, oldfd: i32, newfd: i32 },
    /// A file could not be opened.
    OpenFailed { source: i32, file: String, flags: OpenFlags, permissions: u32 },
    /// A file could not be opened and put on a descriptor; `source` says
    /// which part failed.
    OpenAndDupFailed { source: Box<SubprocessSetupError>, file: String, mode: OpenMode, fd: i32 },
    /// An argument holds a null character.
    ArgContainsNull { arg_number: usize, arg: String },
    /// The working directory could not be changed.
    SetWorkDirFailed { source: i32, path: String },
    /// `exec` failed.
    ExecFailed { args: Vec<String>, executable: String, source: i32 },
}

#[allow(inconsistent_fields)]
pub enum SubprocessSetupErrorView {
    CloseFailed { source: i32, fd: i32 },
    DupFailed { source: i32, oldfd: i32, newfd: i32 },
    OpenFailed { source: i32, file: Seq<char>, flags: OpenFlags, permissions: u32 },
    OpenAndDupFailed { source: Box<SubprocessSetupErrorView>, file: Seq<char>, mode: OpenMode, fd: i32 },
    ArgContainsNull { arg_number: nat, arg: Seq<char> },
    SetWorkDirFailed { source: i32, path: Seq<char> },
    ExecFailed { args: Seq<Seq<char>>, executable: Seq<char>, source: i32 },
}

impl View for SubprocessSetupError {
    type V = SubprocessSetupErrorView;

    open spec fn view(&self) -> SubprocessSetupErrorView
        decreases self,
    {
        match self {
            SubprocessSetupError::CloseFailed { source, fd } =>
                SubprocessSetupErrorView::CloseFailed { source: *source, fd: *fd },
            SubprocessSetupError::DupFailed { source, oldfd, newfd } =>
                SubprocessSetupErrorView::DupFailed {
                    source: *source,
                    oldfd: *oldfd,
                    newfd: *newfd,
                },
            SubprocessSetupError::OpenFailed { source, file, flags, permissions } =>
                SubprocessSetupErrorView::OpenFailed {
                    source: *source,
                    file: file@,
                    flags: *flags,
                    permissions: *permissions,
                },
            SubprocessSetupError::OpenAndDupFailed { source, file, mode, fd } =>
                SubprocessSetupErrorView::OpenAndDupFailed {
                    source: Box::new((**source).view()),
                    file: file@,
                    mode: *mode,
                    fd: *fd,
                },
            SubprocessSetupError::ArgContainsNull { arg_number, arg } =>
                SubprocessSetupErrorView::ArgContainsNull {
                    arg_number: *arg_number as nat,
                    arg: arg@,
                },
            SubprocessSetupError::SetWorkDirFailed { source, path } =>
                SubprocessSetupErrorView::SetWorkDirFailed { source: *source, path: path@ },
            SubprocessSetupError::ExecFailed { args, executable, source } =>
                SubprocessSetupErrorView::ExecFailed {
                    args: texts_view(args@),
                    executable: executable@,
                    source: *source,
                },
        }
    }
}

/// What went wrong in the parent.
#[derive(Debug, Clone, Copy, PartialEq, Eq, Structural)]
pub enum SpawnError {
    /// `fork` failed with the given error number.
    ForkFailed { source: i32 },
}

/// The system call of a step that failed.
#[derive(Debug, Clone, Copy, PartialEq, Eq, Structural)]
pub enum FailedCall {
    /// Opening the file.
    Open,
    /// Copying one descriptor onto another; for a file that was opened,
    /// `from` is the descriptor that opening gave.
    Duplicate { from: i32 },
    /// Closing a descriptor.
    Close { fd: i32 },
    /// Any other call of the step.
    Other,
}

impl SetupStepView {
    /// The failure that is reported when `call` fails with the error number
    /// `source` while this step is carried out. A failure while a file is
    /// opened and put on a descriptor is wrapped, with the file, the mode
    /// and the descriptor, round the failure of the call itself.
    pub open spec fn failure(self, call: FailedCall, source: i32) -> Option<
        SubprocessSetupErrorView,
    > {
        match self {
            SetupStepView::Close { fd } => Some(
                SubprocessSetupErrorView::CloseFailed { source, fd },
            ),
            SetupStepView::Duplicate { oldfd, newfd } => Some(
                SubprocessSetupErrorView::DupFailed { source, oldfd, newfd },
            ),
            SetupStepView::OpenOnto { file, mode, flags, permissions, fd } => {
                let inner = match call {
                    FailedCall::Duplicate { from } => SubprocessSetupErrorView::DupFailed {
                        source,
                        oldfd: from,
                        newfd: fd,
                    },
                    FailedCall::Close { fd: opened } => SubprocessSetupErrorView::CloseFailed {
                        source,
                        fd: opened,
                    },
                    _ => SubprocessSetupErrorView::OpenFailed { source, file, flags, permissions },
                };
                Some(
                    SubprocessSetupErrorView::OpenAndDupFailed {
                        source: Box::new(inner),
                        file,
                        mode,
                        fd,
                    },
                )
            },
            SetupStepView::SetVariable { key, value } => None,
            SetupStepView::ChangeDirectory { path } => Some(
                SubprocessSetupErrorView::SetWorkDirFailed { source, path },
            ),
        }
    }
}

impl SetupStepView {
    /// What is left to do once the file of this step has been opened and
    /// `opened` is the descriptor that this gave. Where that is the
    /// descriptor asked for, nothing is left. Else the opened descriptor is
    /// copied onto the one asked for and then closed. A step that opens no
    /// file leaves nothing to do.
    pub open spec fn after_open(self, opened: i32) -> Seq<SetupStepView> {
        match self {
            SetupStepView::OpenOnto { file, mode, flags, permissions, fd } => if opened == fd {
                Seq::empty()
            } else {
                seq![
                    SetupStepView::Duplicate { oldfd: opened, newfd: fd },
                    SetupStepView::Close { fd: opened },
                ]
            },
            _ => Seq::empty(),
        }
    }
}

/// What an optional failure stands for in contracts.
pub open spec fn failure_view(e: Option<SubprocessSetupError>) -> Option<SubprocessSetupErrorView> {
    match e {
        Some(e) => Some(e@),
        None => None,
    }
}

impl SetupStep {
    /// The calls that follow once the file of this step has been opened and
    /// `opened` is the descriptor that this gave.
    pub fn after_open(&self, opened: i32) -> (rest: Vec<SetupStep>)
        ensures
            steps_view(rest@) == self@.after_open(opened),
    {
        let mut rest: Vec<SetupStep> = Vec::new();
        match self {
            SetupStep::OpenOnto { file, mode, flags, permissions, fd } => {
                if opened != *fd {
                    rest.push(SetupStep::Duplicate { oldfd: opened, newfd: *fd });
                    rest.push(SetupStep::Close { fd: opened });
                }
            },
            _ => {},
        }
        assert(steps_view(rest@) =~= self@.after_open(opened));
        rest
    }

    /// The failure to report when `call` fails with the error number
    /// `source` during this step; setting a variable cannot fail.
    pub fn failure(&self, call: FailedCall, source: i32) -> (e: Option<SubprocessSetupError>)
        ensures
            failure_view(e) == self@.failure(call, source),
    {
        match self {
            SetupStep::Close { fd } => Some(SubprocessSetupError::CloseFailed { source, fd: *fd }),
            SetupStep::Duplicate { oldfd, newfd } => Some(
                SubprocessSetupError::DupFailed { source, oldfd: *oldfd, newfd: *newfd },
            ),
            SetupStep::OpenOnto { file, mode, flags, permissions, fd } => {
                let inner = match call {
                    FailedCall::Duplicate { from } => SubprocessSetupError::DupFailed {
                        source,
                        oldfd: from,
                        newfd: *fd,
                    },
                    FailedCall::Close { fd: opened } => SubprocessSetupError::CloseFailed {
                        source,
                        fd: opened,
                    },
                    _ => SubprocessSetupError::OpenFailed {
                        source,
                        file: file.clone(),
                        flags: *flags,
                        permissions: *permissions,
                    },
                };
                let ghost inner_view = inner@;
                let wrapped = SubprocessSetupError::OpenAndDupFailed {
                    source: Box::new(inner),
                    file: file.clone(),
                    mode: *mode,
                    fd: *fd,
                };
                assert(wrapped@ == (SubprocessSetupErrorView::OpenAndDupFailed {
                    source: Box::new(inner_view),
                    file: file@,
                    mode: *mode,
                    fd: *fd,
                }));
                Some(wrapped)
            },
            SetupStep::SetVariable { key, value } => None,
            SetupStep::ChangeDirectory { path } => Some(
                SubprocessSetupError::SetWorkDirFailed { source, path: path.clone() },
            ),
        }
    }
}

/// The words for the system's error with the number `errno`: the name of
/// the error, a colon, a blank and what the error means.
pub uninterp spec fn errno_text(errno: i32) -> Seq<char>;

/// Writes the system's error with the number `errno` as nix displays it.
/// `nix::errno::Errno::from_i32` gives the error that has the number, or
/// `UnknownErrno` where none has it; the `Display` of `Errno` writes the
/// error's name, a colon, a blank and the error's description. Both go by
/// tables, so the text depends on the number alone.
#[verifier::external_body]
pub(crate) fn errno_words(errno: i32) -> (r: String)
    ensures
        r@ == errno_text(errno),
{
    format!("{}", nix::errno::Errno::from_i32(errno))
}

impl SubprocessSetupErrorView {
    /// The words for the system's error behind this failure; nothing where
    /// there is none.
    pub open spec fn cause(self) -> Seq<char> {
        match self.errno() {
            Some(n) => errno_text(n),
            None => Seq::empty(),
        }
    }

    /// The diagnostic for this failure, with the words for the system's
    /// error behind it.
    pub open spec fn report(self) -> Seq<char> {
        self.description(self.cause())
    }

    /// The diagnostic for this failure, where `cause` describes the error
    /// of the system call that failed.
    pub open spec fn description(self, cause: Seq<char>) -> Seq<char>
        decreases self,
    {
        match self {
            SubprocessSetupErrorView::CloseFailed { source, fd } => "failed to close fd "@
                + signed_decimal(fd as int) + ": "@ + cause,
            SubprocessSetupErrorView::DupFailed { source, oldfd, newfd } => "failed to dup fd "@
                + signed_decimal(newfd as int) + " to "@ + signed_decimal(oldfd as int) + ": "@
                + cause,
            SubprocessSetupErrorView::OpenFailed { source, file, flags, permissions } =>
                "could not open "@ + debug_text(file) + ": "@ + cause,
            SubprocessSetupErrorView::OpenAndDupFailed { source, file, mode, fd } =>
                "failed to open "@ + debug_text(file) + " for "@ + (if mode == OpenMode::Read {
                "reading"@
            } else {
                "writing"@
            }) + " on file descriptor "@ + signed_decimal(fd as int) + ": "@
                + source.description(cause),
            SubprocessSetupErrorView::ArgContainsNull { arg_number, arg } => "cannot exec, arg "@
                + decimal(arg_number) + " contains a null byte: "@ + debug_text(arg),
            SubprocessSetupErrorView::ExecFailed { args, executable, source } =>
                "exec() failed for "@ + debug_text(executable) + ": "@ + cause,
            SubprocessSetupErrorView::SetWorkDirFailed { source, path } =>
                "failed to set process working directory to "@ + debug_text(path) + ": "@ + cause,
        }
    }
}

impl SubprocessSetupError {
    fn describe(&self, cause: &Vec<char>) -> (v: Vec<char>)
        ensures
            v@ == self@.description(cause@),
        decreases self,
    {
        match self {
            SubprocessSetupError::CloseFailed { source, fd } => {
                let mut v = chars_of("failed to close fd ");
                append_chars(&mut v, &render_signed(*fd as isize));
                append_chars(&mut v, &chars_of(": "));
                append_chars(&mut v, cause);
                v
            },
            SubprocessSetupError::DupFailed { source, oldfd, newfd } => {
                let mut v = chars_of("failed to dup fd ");
                append_chars(&mut v, &render_signed(*newfd as isize));
                append_chars(&mut v, &chars_of(" to "));
                append_chars(&mut v, &render_signed(*oldfd as isize));
                append_chars(&mut v, &chars_of(": "));
                append_chars(&mut v, cause);
                v
            },
            SubprocessSetupError::OpenFailed { source, file, flags, permissions } => {
                let mut v = chars_of("could not open ");
                append_chars(&mut v, &chars_of(debug_quoted(file.as_str()).as_str()));
                append_chars(&mut v, &chars_of(": "));
                append_chars(&mut v, cause);
                v
            },
            SubprocessSetupError::OpenAndDupFailed { source, file, mode, fd } => {
                let mut v = chars_of("failed to open ");
                append_chars(&mut v, &chars_of(debug_quoted(file.as_str()).as_str()));
                append_chars(&mut v, &chars_of(" for "));
                match mode {
                    OpenMode::Read => {
                        append_chars(&mut v, &chars_of("reading"));
                    },
                    _ => {
                        append_chars(&mut v, &chars_of("writing"));
                    },
                }
                append_chars(&mut v, &chars_of(" on file descriptor "));
                append_chars(&mut v, &render_signed(*fd as isize));
                append_chars(&mut v, &chars_of(": "));
                let inner = (**source).describe(cause);
                append_chars(&mut v, &inner);
                v
            },
            SubprocessSetupError::ArgContainsNull { arg_number, arg } => {
                let mut v = chars_of("cannot exec, arg ");
                append_chars(&mut v, &render_decimal(*arg_number as u64));
                append_chars(&mut v, &chars_of(" contains a null byte: "));
                append_chars(&mut v, &chars_of(debug_quoted(arg.as_str()).as_str()));
                v
            },
            SubprocessSetupError::ExecFailed { args, executable, source } => {
                let mut v = chars_of("exec() failed for ");
                append_chars(&mut v, &chars_of(debug_quoted(executable.as_str()).as_str()));
                append_chars(&mut v, &chars_of(": "));
                append_chars(&mut v, cause);
                v
            },
            SubprocessSetupError::SetWorkDirFailed { source, path } => {
                let mut v = chars_of("failed to set process working directory to ");
                append_chars(&mut v, &chars_of(debug_quoted(path.as_str()).as_str()));
                append_chars(&mut v, &chars_of(": "));
                append_chars(&mut v, cause);
                v
            },
        }
    }

    /// The diagnostic for this failure; `cause` describes the error of the
    /// system call that failed.
    pub fn message(&self, cause: &str) -> (s: String)
        ensures
            s@ == self@.description(cause@),
    {
        string_of(&self.describe(&chars_of(cause)))
    }

    /// The diagnostic for this failure, with the words for the system's
    /// error behind it.
    pub fn report(&self) -> (s: String)
        ensures
            s@ == self@.report(),
    {
        let cause = match self.errno() {
            Some(n) => errno_words(n),
            None => String::new(),
        };
        self.message(cause.as_str())
    }

    /// The number of the system's error behind this failure, if there is
    /// one.
    pub fn errno(&self) -> (n: Option<i32>)
        ensures
            n == self@.errno(),
        decreases self,
    {
        match self {
            SubprocessSetupError::CloseFailed { source, fd } => Some(*source),
            SubprocessSetupError::DupFailed { source, oldfd, newfd } => Some(*source),
            SubprocessSetupError::OpenFailed { source, file, flags, permissions } => Some(*source),
            SubprocessSetupError::OpenAndDupFailed { source, file, mode, fd } =>
                (**source).errno(),
            SubprocessSetupError::ArgContainsNull { arg_number, arg } => None,
            SubprocessSetupError::SetWorkDirFailed { source, path } => Some(*source),
            SubprocessSetupError::ExecFailed { args, executable, source } => Some(*source),
        }
    }
}

impl SubprocessSetupErrorView {
    /// The number of the system's error behind this failure, if there is
    /// one.
    pub open spec fn errno(self) -> Option<i32>
        decreases self,
    {
        match self {
            SubprocessSetupErrorView::CloseFailed { source, fd } => Some(source),
            SubprocessSetupErrorView::DupFailed { source, oldfd, newfd } => Some(source),
            SubprocessSetupErrorView::OpenFailed { source, file, flags, permissions } => Some(
                source,
            ),
            SubprocessSetupErrorView::OpenAndDupFailed { source, file, mode, fd } =>
                source.errno(),
            SubprocessSetupErrorView::ArgContainsNull { arg_number, arg } => None,
            SubprocessSetupErrorView::SetWorkDirFailed { source, path } => Some(source),
            SubprocessSetupErrorView::ExecFailed { args, executable, source } => Some(source),
        }
    }
}

impl SpawnError {
    /// The diagnostic for this failure, with the words for the system's
    /// error behind it.
    pub open spec fn report_text(self) -> Seq<char> {
        match self {
            SpawnError::ForkFailed { source } => "fork failed: "@ + errno_text(source),
        }
    }

    /// The diagnostic for this failure; `cause` describes the system's
    /// error.
    pub fn message(&self, cause: &str) -> (s: String)
        ensures
            s@ == "fork failed: "@ + cause@,
    {
        let mut v = chars_of("fork failed: ");
        append_chars(&mut v, &chars_of(cause));
        string_of(&v)
    }

    /// The diagnostic for this failure, with the words for the system's
    /// error behind it.
    pub fn report(&self) -> (s: String)
        ensures
            s@ == self.report_text(),
    {
        match self {
            SpawnError::ForkFailed { source } => self.message(errno_words(*source).as_str()),
        }
    }
}

} // verus!

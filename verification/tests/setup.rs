use nix::fcntl::{open, OFlag};
use nix::sys::stat::Mode;
use nix::unistd::{close, dup2, read, unlink};
use rush::jobs::spawn::{
    FailedCall, OpenFlags, OpenMode, ProcessOptions, SetupStep, SpawnError, SubprocessSetupError,
};
use rush::lang::errors::{Cause, Error, ErrorKind};

fn open_flags(flags: OpenFlags) -> OFlag {
    let mut oflag = if flags.write_only { OFlag::O_WRONLY } else { OFlag::O_RDONLY };
    if flags.create {
        oflag |= OFlag::O_CREAT;
    }
    if flags.truncate {
        oflag |= OFlag::O_TRUNC;
    }
    if flags.append {
        oflag |= OFlag::O_APPEND;
    }
    oflag
}

fn failed(step: &SetupStep, call: FailedCall, e: nix::Error) -> SubprocessSetupError {
    step.failure(call, e as i32).expect("the step cannot fail")
}

/// Carries out one step of a plan in this process.
fn take(step: &SetupStep) -> Result<(), SubprocessSetupError> {
    match step {
        SetupStep::Close { fd } => {
            close(*fd).map_err(|e| failed(step, FailedCall::Close { fd: *fd }, e))
        }
        SetupStep::Duplicate { oldfd, newfd } => dup2(*oldfd, *newfd)
            .map(|_| ())
            .map_err(|e| failed(step, FailedCall::Duplicate { from: *oldfd }, e)),
        SetupStep::OpenOnto { file, flags, permissions, .. } => {
            let opened = open(
                file.as_str(),
                open_flags(*flags),
                Mode::from_bits_truncate(*permissions as nix::libc::mode_t),
            )
            .map_err(|e| failed(step, FailedCall::Open, e))?;
            for call in step.after_open(opened) {
                match call {
                    SetupStep::Duplicate { oldfd, newfd } => dup2(oldfd, newfd)
                        .map(|_| ())
                        .map_err(|e| failed(step, FailedCall::Duplicate { from: oldfd }, e))?,
                    SetupStep::Close { fd } => close(fd)
                        .map_err(|e| failed(step, FailedCall::Close { fd }, e))?,
                    _ => (),
                }
            }
            Ok(())
        }
        _ => panic!("a step that these plans do not hold"),
    }
}

fn carry_out(plan: &ProcessOptions) -> Result<(), SubprocessSetupError> {
    for step in plan.setup_steps() {
        take(&step)?;
    }
    Ok(())
}

/// Writes the file at `path` with the text `hello`, through a plan.
fn write_hello(path: &str, fd: i32) {
    let mut plan = ProcessOptions::new("/bin/true");
    plan.write(fd, path);
    carry_out(&plan).expect("failed to open the file for writing");
    assert_eq!(nix::unistd::write(fd, b"hello").expect("failed to write"), 5);
    close(fd).expect("failed to close the file");
}

#[test]
fn setup_subprocess_open_close() {
    let path = "/tmp/rush_setup_subprocess_open_close.txt";
    write_hello(path, 40);

    let fd = 41;
    let mut plan = ProcessOptions::new("/bin/true");
    plan.read(fd, path);
    carry_out(&plan).unwrap();
    let mut buf = [0u8; 5];
    read(fd, &mut buf).unwrap();
    assert_eq!(&buf, b"hello");

    let mut closing = ProcessOptions::new("/bin/true");
    closing.close(fd);
    carry_out(&closing).unwrap();
    match carry_out(&closing).unwrap_err() {
        SubprocessSetupError::CloseFailed { fd: close_err_fd, .. } => {
            assert_eq!(close_err_fd, fd);
        }
        e => panic!("expected SubprocessSetupError::CloseFailed from close() got {:?}", e),
    }

    let mut missing = ProcessOptions::new("/bin/true");
    missing.read(fd, "test/data/DOES NOT EXIST");
    match carry_out(&missing).unwrap_err() {
        SubprocessSetupError::OpenAndDupFailed { source, file, fd: target, mode } => {
            assert_eq!(file, "test/data/DOES NOT EXIST");
            assert_eq!(target, fd);
            assert_eq!(mode, OpenMode::Read);
            match *source {
                SubprocessSetupError::OpenFailed { file, flags, permissions, .. } => {
                    assert_eq!(file, "test/data/DOES NOT EXIST");
                    assert_eq!(open_flags(flags), OFlag::O_RDONLY);
                    assert_eq!(permissions, 0o644);
                }
                e => panic!("expected SubprocessSetupError::OpenFailed from open() got {:?}", e),
            }
        }
        e => panic!("expected SubprocessSetupError::OpenAndDupFailed got {:?}", e),
    }
    unlink(path).unwrap();
}

#[test]
fn setup_process_dup_close() {
    let path = "/tmp/rush_setup_process_dup_close.txt";
    write_hello(path, 50);

    let fd = 51;
    let newfd = 52;
    let mut plan = ProcessOptions::new("/bin/true");
    plan.read(fd, path).redirect(fd, newfd);
    carry_out(&plan).unwrap();

    let mut buf = [0u8; 5];
    read(newfd, &mut buf).unwrap();
    assert_eq!(&buf, b"hello");

    let mut closing = ProcessOptions::new("/bin/true");
    closing.close(newfd).close(fd);
    carry_out(&closing).unwrap();

    let mut bad = ProcessOptions::new("/bin/true");
    bad.redirect(-1, 12);
    match carry_out(&bad).unwrap_err() {
        SubprocessSetupError::DupFailed { oldfd, newfd, .. } => {
            assert_eq!(oldfd, -1);
            assert_eq!(newfd, 12);
        }
        e => panic!("expected SubprocessSetupError::DupFailed from dup() got {:?}", e),
    }
    unlink(path).unwrap();
}

#[test]
fn appending_keeps_what_the_file_holds() {
    let path = "/tmp/rush_appending_keeps_what_the_file_holds.txt";
    write_hello(path, 60);

    let mut plan = ProcessOptions::new("/bin/true");
    plan.append(61, path);
    carry_out(&plan).unwrap();
    assert_eq!(nix::unistd::write(61, b" world").unwrap(), 6);
    close(61).unwrap();

    let mut reading = ProcessOptions::new("/bin/true");
    reading.read(62, path);
    carry_out(&reading).unwrap();
    let mut buf = [0u8; 11];
    assert_eq!(read(62, &mut buf).unwrap(), 11);
    assert_eq!(&buf, b"hello world");
    close(62).unwrap();

    write_hello(path, 63);
    let mut again = ProcessOptions::new("/bin/true");
    again.read(64, path);
    carry_out(&again).unwrap();
    let mut rest = [0u8; 11];
    assert_eq!(read(64, &mut rest).unwrap(), 5);
    close(64).unwrap();
    unlink(path).unwrap();
}

#[test]
fn reports_name_the_error_of_the_system() {
    let missing = nix::errno::Errno::ENOENT as i32;
    let words = "ENOENT: No such file or directory";
    assert_eq!(
        SubprocessSetupError::SetWorkDirFailed { source: missing, path: "/nowhere".to_string() }
            .report(),
        format!("failed to set process working directory to {:?}: {}", "/nowhere", words)
    );
    assert_eq!(
        SubprocessSetupError::OpenAndDupFailed {
            source: Box::new(SubprocessSetupError::OpenFailed {
                source: missing,
                file: "in.txt".to_string(),
                flags: OpenMode::Read.flags(),
                permissions: 0o644,
            }),
            file: "in.txt".to_string(),
            mode: OpenMode::Read,
            fd: 0,
        }
        .report(),
        format!(
            "failed to open {:?} for reading on file descriptor 0: could not open {:?}: {}",
            "in.txt", "in.txt", words
        )
    );
    assert_eq!(
        SubprocessSetupError::ArgContainsNull { arg_number: 2, arg: "a\0b".to_string() }.report(),
        format!("cannot exec, arg 2 contains a null byte: {:?}", "a\0b")
    );
    let again = nix::errno::Errno::EAGAIN as i32;
    assert_eq!(
        SpawnError::ForkFailed { source: again }.report(),
        format!("fork failed: {}", nix::errno::Errno::EAGAIN)
    );
    assert_ne!(SpawnError::ForkFailed { source: again }.report(), format!("fork failed: {}", again));

    let failed = Error::caused(ErrorKind::PipelineCreationFailed, Cause::System(missing));
    assert_eq!(failed.report(), format!("failed to create a pipeline: {}", words));
    let spawn = Error::caused(
        ErrorKind::ExecFailed,
        Cause::Spawn(SpawnError::ForkFailed { source: again }),
    );
    assert_eq!(
        spawn.report(),
        format!("failed to execute child process: fork failed: {}", nix::errno::Errno::EAGAIN)
    );
    let plain = Error::new(ErrorKind::MissingExecutable("nosuch".to_string()));
    assert_eq!(plain.report(), plain.message());
    let unknown = Error::caused(ErrorKind::WaitFailed, Cause::System(-7));
    assert_eq!(
        unknown.report(),
        "failed to wait for child process: UnknownErrno: Unknown errno"
    );
}

use rush::jobs::spawn::{
    FailedCall, OpenFlags, OpenMode, ProcessOptions, SetupStep, SpawnError, SubprocessSetupError,
    CREATE_PERMISSIONS,
};

#[test]
fn modes_stand_for_flags() {
    assert_eq!(
        OpenMode::Read.flags(),
        OpenFlags { write_only: false, create: false, truncate: false, append: false }
    );
    assert_eq!(
        OpenMode::Write.flags(),
        OpenFlags { write_only: true, create: true, truncate: true, append: false }
    );
    assert_eq!(
        OpenMode::Append.flags(),
        OpenFlags { write_only: true, create: true, truncate: false, append: true }
    );
    assert_eq!(CREATE_PERMISSIONS, 0o644);
}

#[test]
fn plan_keeps_what_it_is_given_in_order() {
    let mut plan = ProcessOptions::new("/usr/bin/printf");
    plan.arg("%s")
        .arg("hello world")
        .redirect(1, 2)
        .close(2)
        .write(1, "out.txt")
        .env("A", "1")
        .env("B", "2")
        .read(0, "in.txt")
        .append(5, "log.txt")
        .work_dir("/tmp");
    assert_eq!(plan.executable(), "/usr/bin/printf");
    assert_eq!(plan.arguments(), vec!["%s".to_string(), "hello world".to_string()]);
    assert_eq!(
        plan.setup_steps(),
        vec![
            SetupStep::Duplicate { oldfd: 1, newfd: 2 },
            SetupStep::Close { fd: 2 },
            SetupStep::OpenOnto {
                file: "out.txt".to_string(),
                mode: OpenMode::Write,
                flags: OpenMode::Write.flags(),
                permissions: 0o644,
                fd: 1,
            },
            SetupStep::OpenOnto {
                file: "in.txt".to_string(),
                mode: OpenMode::Read,
                flags: OpenMode::Read.flags(),
                permissions: 0o644,
                fd: 0,
            },
            SetupStep::OpenOnto {
                file: "log.txt".to_string(),
                mode: OpenMode::Append,
                flags: OpenMode::Append.flags(),
                permissions: 0o644,
                fd: 5,
            },
            SetupStep::SetVariable { key: "A".to_string(), value: "1".to_string() },
            SetupStep::SetVariable { key: "B".to_string(), value: "2".to_string() },
            SetupStep::ChangeDirectory { path: "/tmp".to_string() },
        ]
    );
}

#[test]
fn empty_plan_has_no_steps() {
    let plan = ProcessOptions::new("/bin/true");
    assert!(plan.setup_steps().is_empty());
    assert!(plan.arguments().is_empty());
    assert_eq!(plan.check_arguments(), Ok(()));
}

#[test]
fn null_characters_are_found() {
    let mut plan = ProcessOptions::new("/bin/echo");
    plan.arg("fine").arg("not\0fine").arg("also\0bad");
    assert_eq!(
        plan.check_arguments(),
        Err(SubprocessSetupError::ArgContainsNull {
            arg_number: 2,
            arg: "not\0fine".to_string()
        })
    );
    let mut plan = ProcessOptions::new("/bin/e\0cho");
    plan.arg("not\0fine");
    assert_eq!(
        plan.check_arguments(),
        Err(SubprocessSetupError::ArgContainsNull {
            arg_number: 0,
            arg: "/bin/e\0cho".to_string()
        })
    );
}

#[test]
fn failures_name_the_step() {
    let close = SetupStep::Close { fd: 7 };
    assert_eq!(
        close.failure(FailedCall::Close { fd: 7 }, 9),
        Some(SubprocessSetupError::CloseFailed { source: 9, fd: 7 })
    );
    let dup = SetupStep::Duplicate { oldfd: -1, newfd: 12 };
    assert_eq!(
        dup.failure(FailedCall::Duplicate { from: -1 }, 9),
        Some(SubprocessSetupError::DupFailed { source: 9, oldfd: -1, newfd: 12 })
    );
    let open = SetupStep::OpenOnto {
        file: "test/data/DOES NOT EXIST".to_string(),
        mode: OpenMode::Read,
        flags: OpenMode::Read.flags(),
        permissions: 0o644,
        fd: 0,
    };
    assert_eq!(
        open.failure(FailedCall::Open, 2),
        Some(SubprocessSetupError::OpenAndDupFailed {
            source: Box::new(SubprocessSetupError::OpenFailed {
                source: 2,
                file: "test/data/DOES NOT EXIST".to_string(),
                flags: OpenMode::Read.flags(),
                permissions: 0o644,
            }),
            file: "test/data/DOES NOT EXIST".to_string(),
            mode: OpenMode::Read,
            fd: 0,
        })
    );
    assert_eq!(
        open.failure(FailedCall::Duplicate { from: 5 }, 9),
        Some(SubprocessSetupError::OpenAndDupFailed {
            source: Box::new(SubprocessSetupError::DupFailed { source: 9, oldfd: 5, newfd: 0 }),
            file: "test/data/DOES NOT EXIST".to_string(),
            mode: OpenMode::Read,
            fd: 0,
        })
    );
    assert_eq!(
        open.failure(FailedCall::Close { fd: 5 }, 9),
        Some(SubprocessSetupError::OpenAndDupFailed {
            source: Box::new(SubprocessSetupError::CloseFailed { source: 9, fd: 5 }),
            file: "test/data/DOES NOT EXIST".to_string(),
            mode: OpenMode::Read,
            fd: 0,
        })
    );
    let chdir = SetupStep::ChangeDirectory { path: "/nowhere".to_string() };
    assert_eq!(
        chdir.failure(FailedCall::Other, 2),
        Some(SubprocessSetupError::SetWorkDirFailed { source: 2, path: "/nowhere".to_string() })
    );
    let set = SetupStep::SetVariable { key: "A".to_string(), value: "1".to_string() };
    assert_eq!(set.failure(FailedCall::Other, 2), None);
}

#[test]
fn diagnostics_read_as_sentences() {
    let cause = "ENOENT: No such file or directory";
    assert_eq!(
        SubprocessSetupError::CloseFailed { source: 9, fd: 7 }.message("EBADF: Bad file number"),
        "failed to close fd 7: EBADF: Bad file number"
    );
    assert_eq!(
        SubprocessSetupError::DupFailed { source: 9, oldfd: -1, newfd: 12 }.message("EBADF"),
        "failed to dup fd 12 to -1: EBADF"
    );
    let open = SubprocessSetupError::OpenFailed {
        source: 2,
        file: "a \"b\"".to_string(),
        flags: OpenMode::Read.flags(),
        permissions: 0o644,
    };
    assert_eq!(open.message(cause), format!("could not open {:?}: {}", "a \"b\"", cause));
    assert_eq!(open.errno(), Some(2));
    let wrapped = SubprocessSetupError::OpenAndDupFailed {
        source: Box::new(open),
        file: "a \"b\"".to_string(),
        mode: OpenMode::Read,
        fd: 3,
    };
    assert_eq!(
        wrapped.message(cause),
        format!(
            "failed to open {:?} for reading on file descriptor 3: could not open {:?}: {}",
            "a \"b\"", "a \"b\"", cause
        )
    );
    assert_eq!(wrapped.errno(), Some(2));
    let appended = SubprocessSetupError::OpenAndDupFailed {
        source: Box::new(SubprocessSetupError::CloseFailed { source: 9, fd: 5 }),
        file: "log".to_string(),
        mode: OpenMode::Append,
        fd: 2,
    };
    assert_eq!(
        appended.message("EBADF"),
        "failed to open \"log\" for writing on file descriptor 2: failed to close fd 5: EBADF"
    );
    let null = SubprocessSetupError::ArgContainsNull { arg_number: 3, arg: "a\0b".to_string() };
    assert_eq!(
        null.message(""),
        format!("cannot exec, arg 3 contains a null byte: {:?}", "a\0b")
    );
    assert_eq!(null.errno(), None);
    assert_eq!(
        SubprocessSetupError::ExecFailed {
            args: vec!["x".to_string()],
            executable: "/bin/x".to_string(),
            source: 2
        }
        .message(cause),
        format!("exec() failed for \"/bin/x\": {}", cause)
    );
    assert_eq!(
        SubprocessSetupError::SetWorkDirFailed { source: 2, path: "/nowhere".to_string() }
            .message(cause),
        format!("failed to set process working directory to \"/nowhere\": {}", cause)
    );
    assert_eq!(
        SpawnError::ForkFailed { source: 11 }.message("EAGAIN"),
        "fork failed: EAGAIN"
    );
}

#[test]
fn an_opened_file_is_put_on_its_descriptor_and_closed() {
    let open = SetupStep::OpenOnto {
        file: "out.txt".to_string(),
        mode: OpenMode::Write,
        flags: OpenMode::Write.flags(),
        permissions: 0o644,
        fd: 1,
    };
    assert_eq!(
        open.after_open(7),
        vec![SetupStep::Duplicate { oldfd: 7, newfd: 1 }, SetupStep::Close { fd: 7 }]
    );
    assert_eq!(open.after_open(1), vec![]);
    assert_eq!(SetupStep::Close { fd: 3 }.after_open(7), vec![]);
}

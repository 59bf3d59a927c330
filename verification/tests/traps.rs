use rush::env::traps::parse_signal;

#[test]
fn signals_are_named_by_number_or_name() {
    assert_eq!(parse_signal("1"), Some(1));
    assert_eq!(parse_signal("HUP"), Some(1));
    assert_eq!(parse_signal("SIGINT"), Some(2));
    assert_eq!(parse_signal("int"), Some(2));
    assert_eq!(parse_signal("  sigTerm\t"), Some(15));
    assert_eq!(parse_signal("SIGSIGKILL"), Some(9));
    assert_eq!(parse_signal("9"), Some(9));
    assert_eq!(parse_signal("SIG9"), Some(9));
    assert_eq!(parse_signal("STKFLT"), Some(16));
    assert_eq!(parse_signal("sigchld"), Some(17));
    assert_eq!(parse_signal("31"), Some(31));
    assert_eq!(parse_signal("SYS"), Some(31));
    let names = [
        "HUP", "INT", "QUIT", "ILL", "TRAP", "ABRT", "BUS", "FPE", "KILL", "USR1", "SEGV", "USR2",
        "PIPE", "ALRM", "TERM", "STKFLT", "CHLD", "CONT", "STOP", "TSTP", "TTIN", "TTOU", "URG",
        "XCPU", "XFSZ", "VTALRM", "PROF", "WINCH", "IO", "PWR", "SYS",
    ];
    for (i, name) in names.iter().enumerate() {
        let number = i as i32 + 1;
        assert_eq!(parse_signal(name), Some(number));
        assert_eq!(parse_signal(&format!("SIG{}", name)), Some(number));
        assert_eq!(parse_signal(&number.to_string()), Some(number));
    }
}

#[test]
fn other_texts_name_no_signal() {
    assert_eq!(parse_signal(""), None);
    assert_eq!(parse_signal("SIG"), None);
    assert_eq!(parse_signal("0"), None);
    assert_eq!(parse_signal("32"), None);
    assert_eq!(parse_signal("SIG 9"), None);
    assert_eq!(parse_signal("S IGINT"), None);
    assert_eq!(parse_signal("INTSIG"), None);
    assert_eq!(parse_signal("hangup"), None);
    assert_eq!(parse_signal("01"), None);
}

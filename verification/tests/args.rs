use watchfs::args::Args;
use watchfs::RecursionMode;
use watchfs::args::ParseError;
use watchfs::args::parse_u64;
use watchfs::help::print_help;

fn argv(tokens: &[&str]) -> Vec<String> {
    tokens.iter().map(|t| t.to_string()).collect()
}

#[test]
fn no_arguments_defaults_to_echo_in_a_shell() {
    let a = Args::new(&argv(&["watchfs"])).expect("defaults parse");
    assert_eq!(a.path, "./");
    assert_eq!(a.delay_seconds, 30);
    assert!(a.pass_changed_paths);
    assert!(a.shell);
    assert_eq!(a.command, vec!["echo".to_string()]);
    assert!(!a.verbose);
    assert!(!a.help);
    assert!(!a.exit_on_error);
    assert!(!a.once);
    assert!(!a.non_recursive);
    assert!(!a.relativize_paths);
}

#[test]
fn flags_and_command_are_recognized() {
    let a = Args::new(&argv(&[
        "watchfs", "-v", "-x", "-o", "-n", "-s", "5", "-d", "/tmp", "make", "test",
    ]))
    .expect("parses");
    assert!(a.verbose);
    assert!(a.exit_on_error);
    assert!(a.once);
    assert!(a.non_recursive);
    assert_eq!(a.delay_seconds, 5);
    assert_eq!(a.path, "/tmp");
    assert_eq!(a.command, vec!["make".to_string(), "test".to_string()]);
}

#[test]
fn long_flags_work_too() {
    let a = Args::new(&argv(&[
        "watchfs",
        "--shell",
        "--relativize",
        "--pass-paths",
        "--seconds",
        "2",
        "ls",
    ]))
    .expect("parses");
    assert!(a.shell);
    assert!(a.relativize_paths);
    assert!(a.pass_changed_paths);
    assert_eq!(a.delay_seconds, 2);
    assert_eq!(a.command, vec!["ls".to_string()]);
}

#[test]
fn first_unrecognized_token_starts_the_command() {
    let a = Args::new(&argv(&["watchfs", "cargo", "build", "-v"])).expect("parses");
    // "-v" after the command start belongs to the command, not to us.
    assert_eq!(
        a.command,
        vec!["cargo".to_string(), "build".to_string(), "-v".to_string()]
    );
    assert!(!a.verbose);
}

#[test]
fn zero_delay_is_rejected() {
    let e = Args::new(&argv(&["watchfs", "-s", "0", "ls"])).unwrap_err();
    assert_eq!(e, ParseError::ZeroDelay);
    assert_eq!(e.exit_code(), 7);
}

#[test]
fn unparsable_delay_is_rejected() {
    let e = Args::new(&argv(&["watchfs", "-s", "soon", "ls"])).unwrap_err();
    assert_eq!(e, ParseError::BadDelay);
    assert_eq!(e.exit_code(), 2);
}

#[test]
fn missing_delay_value_is_rejected() {
    let e = Args::new(&argv(&["watchfs", "-s"])).unwrap_err();
    assert_eq!(e, ParseError::MissingDelay);
    assert_eq!(e.exit_code(), 3);
}

#[test]
fn missing_dir_value_is_rejected() {
    let e = Args::new(&argv(&["watchfs", "-d"])).unwrap_err();
    assert_eq!(e, ParseError::MissingDir);
    assert_eq!(e.exit_code(), 5);
}

#[test]
fn missing_filter_value_is_rejected() {
    let e = Args::new(&argv(&["watchfs", "-f"])).unwrap_err();
    assert_eq!(e, ParseError::MissingFilter);
    assert_eq!(e.exit_code(), 8);
}

#[test]
fn invalid_filter_pattern_is_rejected() {
    let e = Args::new(&argv(&["watchfs", "-f", "foo(bar", "ls"])).unwrap_err();
    assert_eq!(e, ParseError::BadFilter);
    assert_eq!(e.exit_code(), 9);
}

#[test]
fn valid_filter_pattern_is_kept() {
    let a = Args::new(&argv(&["watchfs", "-f", r"\.rs$", "make"])).expect("parses");
    assert!(!a.accepts("/w/main.rs"));
    assert!(a.accepts("/w/main.c"));
}

#[test]
fn help_short_circuits_validation() {
    let a = Args::new(&argv(&["watchfs", "-h"])).expect("help parses");
    assert!(a.help);
    // With help asked for, the missing command is not defaulted.
    assert!(a.command.is_empty());
}

#[test]
fn accessors_reflect_the_configuration() {
    let a = Args::new(&argv(&["watchfs", "-d", "/srv", "-s", "9", "ls"])).expect("parses");
    assert_eq!(a.dir(), "/srv");
    assert_eq!(a.delay(), 9);
}

#[test]
fn parse_u64_reads_decimal_digits() {
    assert_eq!(parse_u64("0"), Some(0));
    assert_eq!(parse_u64("42"), Some(42));
    assert_eq!(parse_u64("18446744073709551615"), Some(u64::MAX));
}

#[test]
fn parse_u64_rejects_junk_and_overflow() {
    assert_eq!(parse_u64(""), None);
    assert_eq!(parse_u64("4x2"), None);
    assert_eq!(parse_u64("-1"), None);
    assert_eq!(parse_u64("18446744073709551616"), None);
}

#[test]
fn help_text_names_every_flag() {
    let h = print_help();
    for flag in [
        "--verbose",
        "--help",
        "--seconds",
        "--filter",
        "--pass-paths",
        "--shell",
        "--relativize",
        "--once",
        "--non-recursive",
        "--dir",
        "--exit-on-error",
    ] {
        assert!(h.contains(flag), "help text must mention {flag}");
    }
}

#[test]
fn every_rejection_has_its_exit_code() {
    assert_eq!(ParseError::BadDelay.exit_code(), 2);
    assert_eq!(ParseError::MissingDelay.exit_code(), 3);
    assert_eq!(ParseError::RelativizeWithoutPass.exit_code(), 4);
    assert_eq!(ParseError::MissingDir.exit_code(), 5);
    assert_eq!(ParseError::ZeroDelay.exit_code(), 7);
    assert_eq!(ParseError::MissingFilter.exit_code(), 8);
    assert_eq!(ParseError::BadFilter.exit_code(), 9);
}

#[test]
fn recursion_mode_follows_the_flag() {
    let deep = Args::new(&argv(&["watchfs", "ls"])).expect("parses");
    assert_eq!(deep.recursion_mode(), RecursionMode::Recursive);
    let shallow = Args::new(&argv(&["watchfs", "-n", "ls"])).expect("parses");
    assert_eq!(shallow.recursion_mode(), RecursionMode::NonRecursive);
}

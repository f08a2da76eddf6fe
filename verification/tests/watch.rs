use watchfs::args::Args;
use watchfs::watch::FireOutcome;
use watchfs::watch::RawKind;
use watchfs::watch::Watch;
use watchfs::watch::WatchInput;
use watchfs::watch::WatchStep;

fn argv(tokens: &[&str]) -> Vec<String> {
    tokens.iter().map(|t| t.to_string()).collect()
}

fn change(path: &str) -> WatchInput {
    WatchInput::Change {
        kind: RawKind::Modify,
        path: Some(path.to_string()),
    }
}

#[test]
fn one_burst_one_invocation() {
    // delay = 1s; touches at t=0.2s and t=0.9s on paths a, b.
    let args = Args::new(&argv(&["watchfs", "-s", "1", "echo"])).unwrap();
    let mut w = Watch::new(args);
    let s1 = w.on_notification(change("a"), 200);
    assert_eq!(
        s1,
        WatchStep::Arm {
            deadline: 1200,
            generation: 1
        }
    );
    let s2 = w.on_notification(change("b"), 900);
    assert_eq!(
        s2,
        WatchStep::Arm {
            deadline: 1900,
            generation: 2
        }
    );
    // The superseded timer fires into nothing.
    assert!(matches!(w.on_timer(1), FireOutcome::Nothing));
    // The final timer dispatches exactly one invocation with both paths.
    match w.on_timer(2) {
        FireOutcome::Run(inv) => {
            assert_eq!(inv.program, "echo");
            let mut paths = inv.argv.clone();
            paths.sort();
            assert_eq!(paths, vec!["a".to_string(), "b".to_string()]);
        }
        _ => panic!("expected an invocation"),
    }
    // And the cycle is over: a repeated firing dispatches nothing.
    assert!(matches!(w.on_timer(2), FireOutcome::Nothing));
}

#[test]
fn filtered_paths_never_reach_the_scheduler() {
    let args = Args::new(&argv(&["watchfs", "-f", r"\.tmp$", "echo"])).unwrap();
    let mut w = Watch::new(args);
    assert_eq!(w.on_notification(change("/a/b/file.tmp"), 10), WatchStep::Ignore);
    assert!(matches!(
        w.on_notification(change("/a/b/file.go"), 10),
        WatchStep::Arm { .. }
    ));
}

#[test]
fn housekeeping_kinds_are_discarded() {
    let args = Args::new(&argv(&["watchfs", "echo"])).unwrap();
    let mut w = Watch::new(args);
    let chmod = WatchInput::Change {
        kind: RawKind::Chmod,
        path: Some("x".to_string()),
    };
    let rescan = WatchInput::Change {
        kind: RawKind::Rescan,
        path: Some("y".to_string()),
    };
    assert_eq!(w.on_notification(chmod, 0), WatchStep::Ignore);
    assert_eq!(w.on_notification(rescan, 0), WatchStep::Ignore);
}

#[test]
fn a_change_without_a_path_is_ignored() {
    let args = Args::new(&argv(&["watchfs", "echo"])).unwrap();
    let mut w = Watch::new(args);
    let input = WatchInput::Change {
        kind: RawKind::Create,
        path: None,
    };
    assert_eq!(w.on_notification(input, 0), WatchStep::Ignore);
}

#[test]
fn watcher_errors_follow_the_exit_policy() {
    let args = Args::new(&argv(&["watchfs", "-x", "echo"])).unwrap();
    let mut w = Watch::new(args);
    assert_eq!(
        w.on_notification(WatchInput::WatchError, 0),
        WatchStep::Exit { code: 10 }
    );
    assert_eq!(
        w.on_notification(WatchInput::ChannelError, 0),
        WatchStep::Exit { code: 11 }
    );

    let lenient = Args::new(&argv(&["watchfs", "echo"])).unwrap();
    let mut w2 = Watch::new(lenient);
    assert_eq!(w2.on_notification(WatchInput::WatchError, 0), WatchStep::Ignore);
    assert_eq!(w2.on_notification(WatchInput::ChannelError, 0), WatchStep::Ignore);
}

#[test]
fn relativized_dispatch_strips_the_root() {
    let args = Args::new(&argv(&["watchfs", "-d", "/w", "-r", "-p", "cat"])).unwrap();
    let mut w = Watch::new(args);
    w.on_notification(change("/w/sub/x.txt"), 0);
    match w.on_timer(1) {
        FireOutcome::Run(inv) => {
            assert_eq!(inv.program, "cat");
            assert_eq!(inv.argv, vec!["sub/x.txt".to_string()]);
        }
        _ => panic!("expected an invocation"),
    }
}

#[test]
fn a_path_outside_the_root_is_fatal() {
    let args = Args::new(&argv(&["watchfs", "-d", "/w", "-r", "-p", "cat"])).unwrap();
    let mut w = Watch::new(args);
    w.on_notification(change("/elsewhere/x.txt"), 0);
    match w.on_timer(1) {
        FireOutcome::PathOutsideRoot(p) => assert_eq!(p, "/elsewhere/x.txt"),
        _ => panic!("expected the watcher/root mismatch outcome"),
    }
}

#[test]
fn shell_mode_builds_the_quoted_string() {
    // Shell-mode with command ["echo"] and changed path "my file.txt".
    let args = Args::new(&argv(&["watchfs", "-l", "-p", "echo"])).unwrap();
    let mut w = Watch::new(args);
    w.on_notification(change("my file.txt"), 0);
    match w.on_timer(1) {
        FireOutcome::Run(inv) => {
            assert_eq!(inv.program, "sh");
            assert_eq!(
                inv.argv,
                vec!["-c".to_string(), "echo 'my file.txt'".to_string()]
            );
        }
        _ => panic!("expected an invocation"),
    }
}

#[test]
fn paths_are_not_passed_when_not_asked_for() {
    let mut args = Args::new(&argv(&["watchfs", "ls", "-la"])).unwrap();
    args.pass_changed_paths = false;
    let mut w = Watch::new(args);
    w.on_notification(change("ignored.txt"), 0);
    match w.on_timer(1) {
        FireOutcome::Run(inv) => {
            assert_eq!(inv.program, "ls");
            assert_eq!(inv.argv, vec!["-la".to_string()]);
        }
        _ => panic!("expected an invocation"),
    }
}

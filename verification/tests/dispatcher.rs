use watchfs::dispatcher::maybe_quote_or_escape;
use watchfs::dispatcher::build_shell_string;
use watchfs::dispatcher::post_exit_policy;
use watchfs::dispatcher::relativize;
use watchfs::dispatcher::ExecutionResult;
use watchfs::dispatcher::PostExitAction;

#[test]
fn bare_token_stays_bare() {
    assert_eq!(maybe_quote_or_escape(&"echo".to_string()), "echo");
    assert_eq!(maybe_quote_or_escape(&"".to_string()), "");
    assert_eq!(maybe_quote_or_escape(&"it's".to_string()), "it's");
}

#[test]
fn whitespace_token_gets_single_quotes() {
    assert_eq!(
        maybe_quote_or_escape(&"my file.txt".to_string()),
        "'my file.txt'"
    );
    assert_eq!(maybe_quote_or_escape(&"a\tb".to_string()), "'a\tb'");
    assert_eq!(maybe_quote_or_escape(&"a\nb".to_string()), "'a\nb'");
}

#[test]
fn dollar_or_quote_token_gets_double_quotes() {
    assert_eq!(
        maybe_quote_or_escape(&"my $file .txt".to_string()),
        "\"my $file .txt\""
    );
    assert_eq!(
        maybe_quote_or_escape(&"it's here".to_string()),
        "\"it's here\""
    );
}

#[test]
fn shell_string_for_echo_with_spaced_path() {
    // Shell-mode with command ["echo"] and changed path "my file.txt".
    let tokens = vec!["echo".to_string(), "my file.txt".to_string()];
    assert_eq!(build_shell_string(&tokens), "echo 'my file.txt'");
}

#[test]
fn shell_string_of_nothing_is_empty() {
    let tokens: Vec<String> = vec![];
    assert_eq!(build_shell_string(&tokens), "");
}

#[test]
fn policy_once_success_terminates_zero() {
    let a = post_exit_policy(false, true, ExecutionResult::Exited { success: true });
    assert_eq!(a, PostExitAction::Terminate { code: 0 });
}

#[test]
fn policy_nonzero_exit_with_exit_on_error() {
    let a = post_exit_policy(true, false, ExecutionResult::Exited { success: false });
    assert_eq!(a, PostExitAction::Terminate { code: 12 });
}

#[test]
fn policy_spawn_and_wait_failures() {
    assert_eq!(
        post_exit_policy(true, false, ExecutionResult::WaitError),
        PostExitAction::Terminate { code: 100 }
    );
    assert_eq!(
        post_exit_policy(true, false, ExecutionResult::SpawnError),
        PostExitAction::Terminate { code: 101 }
    );
    assert_eq!(
        post_exit_policy(false, false, ExecutionResult::WaitError),
        PostExitAction::KeepWatching
    );
    assert_eq!(
        post_exit_policy(false, false, ExecutionResult::SpawnError),
        PostExitAction::KeepWatching
    );
}

#[test]
fn policy_keeps_watching_on_plain_success() {
    let a = post_exit_policy(false, false, ExecutionResult::Exited { success: true });
    assert_eq!(a, PostExitAction::KeepWatching);
    let b = post_exit_policy(true, true, ExecutionResult::Exited { success: true });
    assert_eq!(b, PostExitAction::Terminate { code: 0 });
}

#[test]
fn relativize_strips_the_root() {
    assert_eq!(
        relativize("/a/b", "/a/b/c.txt"),
        Some("c.txt".to_string())
    );
    assert_eq!(
        relativize("/a/b", "/a/b/d/e.txt"),
        Some("d/e.txt".to_string())
    );
    assert_eq!(relativize("/a/b", "/a/b"), Some("".to_string()));
}

#[test]
fn relativize_respects_component_boundaries() {
    // "/a/bc" does not lie under "/a/b".
    assert_eq!(relativize("/a/b", "/a/bc"), None);
    assert_eq!(relativize("/a/b", "/x/y"), None);
    assert_eq!(relativize("/a/b", "/a"), None);
}

#[test]
fn relativize_handles_a_root_with_trailing_separator() {
    assert_eq!(relativize("/", "/x"), Some("x".to_string()));
    assert_eq!(relativize("/a/", "/a/x"), Some("x".to_string()));
}

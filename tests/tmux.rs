use std::sync::Mutex;
use tmux_debug_mcp::tmux::{
    classify_failure, parse_window_list, CommandExecutor, CommandOutput, TmuxError, TmuxSession, WindowInfo,
};

fn ok_output(stdout: &str) -> Result<CommandOutput, String> {
    Ok(CommandOutput { success: true, stdout: stdout.to_string(), stderr: String::new() })
}

/// Succeeds on every command, with fixed output per subcommand.
#[derive(Default)]
struct StaticMockExecutor {}

impl CommandExecutor for StaticMockExecutor {
    fn execute(&self, args: &[String]) -> Result<CommandOutput, String> {
        let stdout = match args.first().map(|s| s.as_str()) {
            Some("capture-pane") => "test output line 1\ntest output line 2\n",
            Some("list-windows") => "server|12345|0\nclient|12346|1\n",
            _ => "",
        };
        ok_output(stdout)
    }
}

/// Records every command it is given.
struct TrackingMockExecutor {
    calls: Mutex<Vec<Vec<String>>>,
}

impl TrackingMockExecutor {
    fn new() -> Self {
        Self { calls: Mutex::new(Vec::new()) }
    }

    fn get_calls(&self) -> Vec<Vec<String>> {
        self.calls.lock().unwrap().clone()
    }
}

impl CommandExecutor for TrackingMockExecutor {
    fn execute(&self, args: &[String]) -> Result<CommandOutput, String> {
        self.calls.lock().unwrap().push(args.to_vec());
        let stdout = match args.first().map(|s| s.as_str()) {
            Some("list-windows") => "test-pane|12345|0\n",
            Some("capture-pane") => "captured output\n",
            _ => "",
        };
        ok_output(stdout)
    }
}

/// Fails every command with the given error text.
struct FailingMockExecutor {
    error_message: String,
}

impl CommandExecutor for FailingMockExecutor {
    fn execute(&self, _args: &[String]) -> Result<CommandOutput, String> {
        Ok(CommandOutput { success: false, stdout: String::new(), stderr: self.error_message.clone() })
    }
}

/// Cannot run anything.
struct BrokenExecutor;

impl CommandExecutor for BrokenExecutor {
    fn execute(&self, _args: &[String]) -> Result<CommandOutput, String> {
        Err("No such file or directory".to_string())
    }
}

fn session<E: CommandExecutor>(executor: E) -> TmuxSession<E> {
    TmuxSession::with_executor(executor, 4321)
}

#[test]
fn test_session_name_format() {
    let mut session = session(StaticMockExecutor::default());
    assert!(session.session_name().starts_with("debug-"));
}

#[test]
fn test_session_not_created_initially() {
    let mut session = session(StaticMockExecutor::default());
    assert!(!session.is_created());
}

#[test]
fn test_session_created_after_create_pane() {
    let mut session = session(StaticMockExecutor::default());
    session.create_pane("echo hello", "test").unwrap();
    assert!(session.is_created());
}

#[test]
fn test_create_pane_executes_correct_commands() {
    let mut session = session(TrackingMockExecutor::new());

    session.create_pane("cargo run", "server").unwrap();

    let calls = session.executor().get_calls();

    assert!(calls.len() >= 5);

    assert_eq!(calls[0][0], "new-session");
    assert!(calls[0].contains(&"-d".to_string()));
    assert!(calls[0].contains(&"-s".to_string()));

    assert_eq!(calls[1][0], "set-option");
    assert!(calls[1].contains(&"remain-on-exit".to_string()));
    assert!(calls[1].contains(&"on".to_string()));

    assert_eq!(calls[2][0], "new-window");
    assert!(calls[2].contains(&"-n".to_string()));
    assert!(calls[2].contains(&"server".to_string()));

    assert_eq!(calls[3][0], "set-option");
    assert!(calls[3].contains(&"remain-on-exit".to_string()));
    assert!(calls[3].contains(&"on".to_string()));
    assert!(calls[3].iter().any(|s| s.contains("server")));

    assert_eq!(calls[4][0], "send-keys");
    assert!(calls[4].contains(&"cargo run".to_string()));
    assert!(calls[4].contains(&"Enter".to_string()));
}

#[test]
fn test_send_keys_executes_correct_command() {
    let mut session = session(TrackingMockExecutor::new());

    session.create_pane("bash", "test").unwrap();

    session.send_keys("test", "echo hello").unwrap();

    let calls = session.executor().get_calls();
    let send_keys_call = calls.last().unwrap();

    assert_eq!(send_keys_call[0], "send-keys");
    assert!(send_keys_call.iter().any(|s| s.contains("test")));
    assert!(send_keys_call.contains(&"echo hello".to_string()));
}

#[test]
fn test_capture_pane_executes_correct_command() {
    let mut session = session(TrackingMockExecutor::new());

    session.create_pane("bash", "test").unwrap();

    let output = session.capture_pane("test", 100).unwrap();

    assert_eq!(output, "captured output\n");

    let calls = session.executor().get_calls();
    let capture_call = calls.last().unwrap();

    assert_eq!(capture_call[0], "capture-pane");
    assert!(capture_call.contains(&"-p".to_string()));
    assert!(capture_call.contains(&"-S".to_string()));
    assert!(capture_call.contains(&"-100".to_string()));
}

#[test]
fn test_kill_pane_executes_correct_command() {
    let mut session = session(TrackingMockExecutor::new());

    session.create_pane("bash", "test").unwrap();

    session.kill_pane("test").unwrap();

    let calls = session.executor().get_calls();
    let kill_call = calls.last().unwrap();

    assert_eq!(kill_call[0], "kill-window");
    assert!(kill_call.iter().any(|s| s.contains("test")));
}

#[test]
fn test_list_windows_parses_output() {
    let mut session = session(StaticMockExecutor::default());

    session.create_pane("bash", "test").unwrap();

    let windows = session.list_windows().unwrap();

    assert_eq!(windows.len(), 2);

    assert_eq!(windows[0].name, "server");
    assert_eq!(windows[0].pid, Some(12345));
    assert!(!windows[0].is_dead);
    assert_eq!(windows[0].status(), "running");

    assert_eq!(windows[1].name, "client");
    assert_eq!(windows[1].pid, Some(12346));
    assert!(windows[1].is_dead);
    assert_eq!(windows[1].status(), "exited");
}

#[test]
fn test_list_windows_empty_when_no_session() {
    let mut session = session(StaticMockExecutor::default());
    let windows = session.list_windows().unwrap();
    assert!(windows.is_empty());
}

#[test]
fn test_kill_session_marks_not_created() {
    let mut session = session(StaticMockExecutor::default());

    session.create_pane("bash", "test").unwrap();
    assert!(session.is_created());

    session.kill_session().unwrap();
    assert!(!session.is_created());
}

#[test]
fn test_kill_session_noop_when_not_created() {
    let mut session = session(StaticMockExecutor::default());
    session.kill_session().unwrap();
}

#[test]
fn test_ensure_session_only_creates_once() {
    let mut session = session(TrackingMockExecutor::new());

    session.create_pane("bash", "pane1").unwrap();
    session.create_pane("bash", "pane2").unwrap();

    let calls = session.executor().get_calls();

    let new_session_count = calls.iter().filter(|c| c.first() == Some(&"new-session".to_string())).count();

    assert_eq!(new_session_count, 1);
}

#[test]
fn test_window_info_status_running() {
    let info = WindowInfo { name: "test".to_string(), pid: Some(123), is_dead: false };
    assert_eq!(info.status(), "running");
}

#[test]
fn test_window_info_status_exited() {
    let info = WindowInfo { name: "test".to_string(), pid: Some(123), is_dead: true };
    assert_eq!(info.status(), "exited");
}

#[test]
fn test_error_display_command_failed() {
    let err = TmuxError::CommandFailed { command: "tmux new-session".to_string(), stderr: "some error".to_string() };
    let display = err.message();
    assert!(display.contains("tmux new-session"));
    assert!(display.contains("some error"));
}

#[test]
fn test_error_display_session_not_found() {
    let err = TmuxError::SessionNotFound("debug-123".to_string());
    let display = err.message();
    assert!(display.contains("debug-123"));
    assert!(display.contains("not found"));
}

#[test]
fn test_error_display_window_not_found() {
    let err = TmuxError::WindowNotFound("my-pane".to_string());
    let display = err.message();
    assert!(display.contains("my-pane"));
    assert!(display.contains("tmux_list_panes"));
}

#[test]
fn session_name_carries_the_pid() {
    let mut s = TmuxSession::with_executor(StaticMockExecutor::default(), 4242);
    assert_eq!(s.session_name(), "debug-4242");
}

#[test]
fn create_pane_sends_exact_commands() {
    let mut s = TmuxSession::with_executor(TrackingMockExecutor::new(), 7);
    assert_eq!(s.create_pane("cargo run", "debug-1").unwrap(), "debug-1");
    let calls = s.executor().get_calls();
    let expect: Vec<Vec<&str>> = vec![
        vec!["new-session", "-d", "-s", "debug-7", "-x", "200", "-y", "50"],
        vec!["set-option", "-t", "debug-7", "remain-on-exit", "on"],
        vec!["new-window", "-t", "debug-7", "-n", "debug-1"],
        vec!["set-option", "-t", "debug-7:debug-1", "remain-on-exit", "on"],
        vec!["send-keys", "-t", "debug-7:debug-1", "cargo run", "Enter"],
    ];
    assert_eq!(calls, expect.iter().map(|c| c.iter().map(|s| s.to_string()).collect::<Vec<_>>()).collect::<Vec<_>>());
}

#[test]
fn send_keys_appends_no_enter() {
    let mut s = TmuxSession::with_executor(TrackingMockExecutor::new(), 7);
    s.send_keys("debug-1", "^C").unwrap();
    assert_eq!(s.executor().get_calls(), vec![vec!["send-keys", "-t", "debug-7:debug-1", "^C"]]);
}

#[test]
fn session_absence_is_classified() {
    let mut s = TmuxSession::with_executor(FailingMockExecutor { error_message: "no server running on /tmp/x".to_string() }, 9);
    match s.create_pane("bash", "debug-1") {
        Err(TmuxError::SessionNotFound(n)) => assert_eq!(n, "debug-9"),
        other => panic!("unexpected {:?}", other),
    }
    assert!(!s.is_created());
}

#[test]
fn window_absence_names_the_target() {
    let mut s = TmuxSession::with_executor(FailingMockExecutor { error_message: "can't find window: debug-5".to_string() }, 9);
    match s.kill_pane("debug-5") {
        Err(TmuxError::WindowNotFound(n)) => assert_eq!(n, "debug-9:debug-5"),
        other => panic!("unexpected {:?}", other),
    }
}

#[test]
fn other_failures_carry_command_and_text() {
    let args: Vec<String> = vec!["kill-window".to_string(), "-t".to_string(), "x".to_string()];
    match classify_failure("debug-1", &args, "permission denied") {
        TmuxError::CommandFailed { command, stderr } => {
            assert_eq!(command, "tmux kill-window -t x");
            assert_eq!(stderr, "permission denied");
        }
        other => panic!("unexpected {:?}", other),
    }
    match classify_failure("debug-1", &args, "window not found") {
        TmuxError::WindowNotFound(n) => assert_eq!(n, "unknown"),
        other => panic!("unexpected {:?}", other),
    }
}

#[test]
fn spawn_failure_is_io_error() {
    let mut s = TmuxSession::with_executor(BrokenExecutor, 1);
    match s.send_keys("debug-1", "ls") {
        Err(TmuxError::IoError(e)) => assert_eq!(e, "No such file or directory"),
        other => panic!("unexpected {:?}", other),
    }
}

#[test]
fn window_list_skips_malformed_lines() {
    let windows = parse_window_list("a|1|0\n\nbroken\nb|x|1\r\nc|+7|2");
    assert_eq!(windows.len(), 3);
    assert_eq!(windows[0], WindowInfo { name: "a".to_string(), pid: Some(1), is_dead: false });
    assert_eq!(windows[1], WindowInfo { name: "b".to_string(), pid: None, is_dead: true });
    assert_eq!(windows[2], WindowInfo { name: "c".to_string(), pid: Some(7), is_dead: false });
}

#[test]
fn window_info_requires_a_line() {
    let mut s = TmuxSession::with_executor(StaticMockExecutor::default(), 1);
    // The static mock answers a scoped listing with two lines; the first wins.
    let info = s.get_window_info("server").unwrap();
    assert_eq!(info.name, "server");
    let mut t = TmuxSession::with_executor(TrackingMockExecutor::new(), 1);
    assert_eq!(t.get_window_info("x").unwrap().name, "test-pane");
    let mut u = TmuxSession::with_executor(FailingMockExecutor { error_message: String::new() }, 1);
    assert!(matches!(u.get_window_info("x"), Err(TmuxError::CommandFailed { .. })));
}

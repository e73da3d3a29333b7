use liminal::LiminalError;
use liminal::shell::ShellEvent;
use liminal::shell::ShellManager;
use liminal::shell::detect_shell;
use liminal::shell::exit_event;
use liminal::shell::forward_chunk;
use liminal::shell::session_event_log;
use liminal::shell::str_ends_with;

fn manager() -> ShellManager {
    ShellManager::new("/bin/bash".to_string(), "/tmp".to_string())
}

#[test]
fn shell_detection_prefers_the_environment_value() {
    assert_eq!(detect_shell(Some("/usr/bin/zsh".to_string())), "/usr/bin/zsh");
    assert_eq!(detect_shell(None), "/bin/bash");
}

#[test]
fn a_new_manager_has_no_live_session() {
    let m = manager();
    assert!(!m.is_running());
    assert_eq!(m.get_shell_command(), "/bin/bash");
}

#[test]
fn starting_a_session_marks_it_live_and_plans_the_spawn() {
    let mut m = manager();
    let req = m.start_shell().expect("first start succeeds");
    assert!(m.is_running());
    assert_eq!(req.command, "/bin/bash");
    assert_eq!(req.args, vec!["-i".to_string()]);
    assert_eq!(req.working_directory, "/tmp");
    // The forced terminal variables close the override list.
    let tail: Vec<(String, String)> = req.env[req.env.len() - 3..].to_vec();
    assert_eq!(
        tail,
        vec![
            ("TERM".to_string(), "xterm-256color".to_string()),
            ("COLUMNS".to_string(), "80".to_string()),
            ("LINES".to_string(), "24".to_string()),
        ]
    );
}

#[test]
fn starting_twice_fails_and_leaves_the_session_usable() {
    // A second start while one session is live is a Shell error, not a
    // silent replacement; the first session stays intact.
    let mut m = manager();
    m.start_shell().expect("first start succeeds");
    let second = m.start_shell();
    match second {
        Err(LiminalError::Shell(msg)) => {
            assert_eq!(msg, "Shell process already running");
        }
        other => panic!("expected a Shell error, got {:?}", other),
    }
    assert!(m.is_running());
    // The session still accepts input after the failed start.
    let sent = m.send_input(b"echo hi").expect("input still flows");
    assert_eq!(sent, b"echo hi");
}

#[test]
fn only_interactive_shells_get_the_flag() {
    let mut zsh = ShellManager::new("/usr/bin/zsh".to_string(), "/".to_string());
    assert_eq!(zsh.start_shell().unwrap().args, vec!["-i".to_string()]);
    let mut fish = ShellManager::new("/usr/bin/fish".to_string(), "/".to_string());
    assert!(fish.start_shell().unwrap().args.is_empty());
}

#[test]
fn input_is_rejected_without_a_session() {
    let m = manager();
    match m.send_input(b"ls") {
        Err(LiminalError::Shell(msg)) => assert_eq!(msg, "Shell process not running"),
        other => panic!("expected a Shell error, got {:?}", other),
    }
    match m.send_command("ls") {
        Err(LiminalError::Shell(msg)) => assert_eq!(msg, "Shell process not running"),
        other => panic!("expected a Shell error, got {:?}", other),
    }
}

#[test]
fn errors_carry_their_cause() {
    let m = manager();
    let err = m.send_input(b"x").unwrap_err();
    assert_eq!(err.detail(), "Shell process not running");
    let err = LiminalError::Config("bad value".to_string());
    assert_eq!(err.detail(), "bad value");
}

#[test]
fn send_command_appends_a_newline() {
    let mut m = manager();
    m.start_shell().unwrap();
    let bytes = m.send_command("echo hello").unwrap();
    assert_eq!(bytes, b"echo hello\n");
}

#[test]
fn resize_produces_the_export_line_only_when_live() {
    let mut m = manager();
    let quiet = m.resize_terminal(100, 30).unwrap();
    assert!(quiet.is_none());
    m.start_shell().unwrap();
    let line = m.resize_terminal(120, 40).unwrap().expect("live session gets the line");
    assert_eq!(line, b"export COLUMNS=120 LINES=40\n");
}

#[test]
fn environment_overrides_reach_the_spawn_plan() {
    let mut m = manager();
    m.set_environment_variable("EDITOR".to_string(), "vi".to_string());
    m.set_environment_variable("EDITOR".to_string(), "emacs".to_string());
    let req = m.start_shell().unwrap();
    let editors: Vec<&(String, String)> =
        req.env.iter().filter(|p| p.0 == "EDITOR").collect();
    assert_eq!(editors.len(), 1);
    assert_eq!(editors[0].1, "emacs");
}

#[test]
fn setters_replace_command_and_directory() {
    let mut m = manager();
    m.set_shell_command("/bin/sh".to_string());
    assert_eq!(m.get_shell_command(), "/bin/sh");
    m.set_working_directory("/var".to_string());
    let req = m.start_shell().unwrap();
    assert_eq!(req.command, "/bin/sh");
    assert_eq!(req.working_directory, "/var");
}

#[test]
fn suffix_checks_look_at_the_end() {
    assert!(str_ends_with("/usr/local/bin/bash", "bash"));
    assert!(str_ends_with("zsh", "zsh"));
    assert!(!str_ends_with("bash", "/bin/bash"));
    assert!(!str_ends_with("/bin/fish", "bash"));
    assert!(str_ends_with("anything", ""));
}

#[test]
fn empty_chunks_are_not_forwarded() {
    assert_eq!(forward_chunk(Vec::new()), None);
    assert_eq!(
        forward_chunk(vec![104, 105]),
        Some(ShellEvent::Output(vec![104, 105]))
    );
}

#[test]
fn the_exit_event_carries_the_real_code_or_minus_one() {
    assert_eq!(exit_event(Some(0)), ShellEvent::Exit(0));
    assert_eq!(exit_event(Some(42)), ShellEvent::Exit(42));
    assert_eq!(exit_event(None), ShellEvent::Exit(-1));
}

#[test]
fn an_empty_stream_still_yields_exactly_one_exit_event() {
    // Immediate end-of-stream on stdout: the session's whole event log is
    // one exit event with the child's real code.
    let log = session_event_log(Vec::new(), Vec::new(), 7);
    assert_eq!(log, vec![ShellEvent::Exit(7)]);
}

#[test]
fn the_event_log_keeps_stream_order_and_ends_with_the_exit() {
    let stdout_chunks = vec![b"one".to_vec(), Vec::new(), b"two".to_vec()];
    let stderr_chunks = vec![b"oops".to_vec()];
    let log = session_event_log(stdout_chunks, stderr_chunks, 0);
    assert_eq!(
        log,
        vec![
            ShellEvent::Output(b"one".to_vec()),
            ShellEvent::Output(b"two".to_vec()),
            ShellEvent::Output(b"oops".to_vec()),
            ShellEvent::Exit(0),
        ]
    );
    assert_eq!(
        log.iter().filter(|e| matches!(e, ShellEvent::Exit(_))).count(),
        1
    );
}

use phantomtty::screen::VteTerminal;
use phantomtty::session::{
    basename, next_state, open_session, setup_failure_severity, shell_from_passwd, term_for_shell,
    FatalError, SessionEvent, SessionState, SetupStep, Severity,
};

#[test]
fn lifecycle_transitions() {
    let s = SessionState::Uninitialized;
    let s = next_state(s, SessionEvent::SpawnSucceeded);
    assert_eq!(s, SessionState::Spawned);
    let s = next_state(s, SessionEvent::DataRead);
    assert_eq!(s, SessionState::Running);
    let s = next_state(s, SessionEvent::DataRead);
    assert_eq!(s, SessionState::Running);
    let s = next_state(s, SessionEvent::ReadEof);
    assert_eq!(s, SessionState::Terminated);
}

#[test]
fn exit_and_failure_terminate() {
    assert_eq!(
        next_state(SessionState::Running, SessionEvent::ExitRequested),
        SessionState::Terminated
    );
    assert_eq!(
        next_state(SessionState::Uninitialized, SessionEvent::SpawnFailed),
        SessionState::Terminated
    );
    // data on a dead session does not revive it
    assert_eq!(
        next_state(SessionState::Terminated, SessionEvent::DataRead),
        SessionState::Terminated
    );
}

#[test]
fn severity_of_setup_failures() {
    assert_eq!(setup_failure_severity(SetupStep::PtyAllocate), Severity::FatalStartup);
    assert_eq!(setup_failure_severity(SetupStep::Fork), Severity::FatalStartup);
    assert_eq!(setup_failure_severity(SetupStep::ForegroundParent), Severity::Warning);
    assert_eq!(setup_failure_severity(SetupStep::NewSession), Severity::Warning);
    assert_eq!(setup_failure_severity(SetupStep::ProcessGroup), Severity::Warning);
    assert_eq!(setup_failure_severity(SetupStep::ForegroundChild), Severity::Warning);
    assert_eq!(setup_failure_severity(SetupStep::ControllingTerminal), Severity::Warning);
    assert_eq!(setup_failure_severity(SetupStep::RedirectStdio), Severity::FatalChild);
    assert_eq!(setup_failure_severity(SetupStep::RawMode), Severity::FatalChild);
    assert_eq!(setup_failure_severity(SetupStep::ExecImage), Severity::FatalChild);
}

#[test]
fn session_scenario() {
    // opening with a valid interactive shell path succeeds and the
    // session is ready for reading
    let s = open_session("/bin/bash".to_string(), true, true).unwrap();
    assert_eq!(s.state, SessionState::Spawned);
    assert_eq!(s.shell_path, "/bin/bash");
    assert_eq!(s.term, "xterm-256color");
    // a submitted command round-trips: the shell's output reaches the
    // snapshot
    let mut term = VteTerminal::new(80, 24);
    let st = next_state(s.state, SessionEvent::DataRead);
    assert_eq!(st, SessionState::Running);
    term.process(b"ready\r\n");
    assert!(term.get_screen().contains("ready"));
}

#[test]
fn fatal_scenario_pty_allocation() {
    // a failed PTY allocation produces no session at all
    let r = open_session("/bin/sh".to_string(), false, true);
    match r {
        Err(e) => {
            assert_eq!(e, FatalError::PtyAllocation);
            assert_eq!(e.message(), "Failed to open pty");
        },
        Ok(_) => panic!("a session must not be produced"),
    }
}

#[test]
fn fatal_scenario_fork() {
    let r = open_session("/bin/sh".to_string(), true, false);
    assert_eq!(r.err(), Some(FatalError::ForkFailure));
    assert_eq!(FatalError::ForkFailure.message(), "Fork failed");
}

#[test]
fn term_mapping() {
    assert_eq!(term_for_shell("/bin/bash"), "xterm-256color");
    assert_eq!(term_for_shell("/usr/bin/bash"), "xterm-256color");
    assert_eq!(term_for_shell("/bin/zsh"), "xterm-256color");
    assert_eq!(term_for_shell("/usr/bin/fish"), "xterm-256color");
    assert_eq!(term_for_shell("/bin/dash"), "vt100");
    assert_eq!(term_for_shell("/bin/sh"), "vt100");
    assert_eq!(term_for_shell("bash"), "xterm-256color");
    assert_eq!(term_for_shell(""), "vt100");
}

#[test]
fn basename_takes_last_segment() {
    assert_eq!(basename("/usr/bin/fish"), "fish");
    assert_eq!(basename("plain"), "plain");
    assert_eq!(basename("/trailing/"), "");
    assert_eq!(basename(""), "");
}

#[test]
fn passwd_lookup_finds_shell() {
    let content = "root:x:0:0:root:/root:/bin/bash\n\
                   daemon:x:1:1:daemon:/usr/sbin:/usr/sbin/nologin\n\
                   alice:x:1000:1000:Alice:/home/alice:/bin/zsh\n";
    assert_eq!(shell_from_passwd(content, "alice").as_deref(), Some("/bin/zsh"));
    assert_eq!(shell_from_passwd(content, "root").as_deref(), Some("/bin/bash"));
    assert_eq!(shell_from_passwd(content, "bob"), None);
}

#[test]
fn passwd_lookup_skips_short_records() {
    let content = "alice:x:1000\nalice:x:1000:1000:Alice:/home/alice:/bin/fish\n";
    // the first record naming the user is too short; the next full one wins
    assert_eq!(shell_from_passwd(content, "alice").as_deref(), Some("/bin/fish"));
    assert_eq!(shell_from_passwd("", "alice"), None);
}

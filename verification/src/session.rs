//! Session-level decisions of the PTY manager: the session state
//! machine, the severity of each setup failure, the terminal type
//! advertised to the shell, and the fallback shell drawn from the user
//! database.  Device and process work itself (allocating the terminal
//! pair, forking, redirecting descriptors) is the embedding program's;
//! it reports the outcomes as events and values here.

use vstd::prelude::*;

use crate::text::{chars_to_string, split_spec, split_str, str_eq_chars, vec_chars_eq_str};

verus! {

/// The polling timeout, in microseconds, of one readiness wait on the
/// master side.
pub const POLL_TIMEOUT_MICROS: u64 = 100000;

/// The most bytes one read of the master side hands to the interpreter.
pub const READ_CHUNK_BYTES: usize = 1024;

/// The rows of a newly opened session's terminal.
pub const DEFAULT_ROWS: usize = 24;

/// The columns of a newly opened session's terminal.
pub const DEFAULT_COLS: usize = 80;

/// Lifecycle states of a PTY session.
#[derive(Clone, Copy, PartialEq, Eq, Structural, Debug)]
pub enum SessionState {
    /// No terminal pair exists yet.
    Uninitialized,
    /// The shell was started and the master side is held.
    Spawned,
    /// Output has been read from the shell.
    Running,
    /// The session ended: an exit was requested, startup failed, or the
    /// master side reached end of file.
    Terminated,
}

/// What the embedding program observed on one scheduling tick.
#[derive(Clone, Copy, PartialEq, Eq, Structural, Debug)]
pub enum SessionEvent {
    /// The terminal pair was allocated and the shell was started.
    SpawnSucceeded,
    /// The terminal pair or the fork could not be had.
    SpawnFailed,
    /// A read of the master side returned data.
    DataRead,
    /// A read of the master side returned end of file: the child side
    /// closed.
    ReadEof,
    /// The user asked to leave.
    ExitRequested,
}

/// Next session state on an event: a successful spawn arms an
/// uninitialized session, data marks it running, and an exit request,
/// a failed spawn or end of file terminates it.
pub open spec fn next_state_spec(s: SessionState, e: SessionEvent) -> SessionState {
    match e {
        SessionEvent::SpawnSucceeded => if s is Uninitialized {
            SessionState::Spawned
        } else {
            s
        },
        SessionEvent::SpawnFailed => SessionState::Terminated,
        SessionEvent::DataRead => if s is Spawned || s is Running {
            SessionState::Running
        } else {
            s
        },
        SessionEvent::ReadEof => SessionState::Terminated,
        SessionEvent::ExitRequested => SessionState::Terminated,
    }
}

/// Advances the session state machine by one observed event.
pub fn next_state(s: SessionState, e: SessionEvent) -> (r: SessionState)
    ensures
        r == next_state_spec(s, e),
{
    match e {
        SessionEvent::SpawnSucceeded => if matches!(s, SessionState::Uninitialized) {
            SessionState::Spawned
        } else {
            s
        },
        SessionEvent::SpawnFailed => SessionState::Terminated,
        SessionEvent::DataRead => if matches!(s, SessionState::Spawned | SessionState::Running) {
            SessionState::Running
        } else {
            s
        },
        SessionEvent::ReadEof => SessionState::Terminated,
        SessionEvent::ExitRequested => SessionState::Terminated,
    }
}

/// The steps of opening a session, in the parent and in the child.
#[derive(Clone, Copy, PartialEq, Eq, Structural, Debug)]
pub enum SetupStep {
    /// Allocating the terminal pair.
    PtyAllocate,
    /// Duplicating the process.
    Fork,
    /// Parent: making the child the foreground group of the child side.
    ForegroundParent,
    /// Child: starting a new session.
    NewSession,
    /// Child: setting its own process group.
    ProcessGroup,
    /// Child: making itself the foreground group of the child side.
    ForegroundChild,
    /// Child: taking the child side as its controlling terminal.
    ControllingTerminal,
    /// Child: redirecting its standard descriptors to the child side.
    RedirectStdio,
    /// Child: putting the device into raw mode.
    RawMode,
    /// Child: replacing its image with the shell.
    ExecImage,
}

/// How bad a failure of a setup step is.
#[derive(Clone, Copy, PartialEq, Eq, Structural, Debug)]
pub enum Severity {
    /// Startup aborts: no session is produced.
    FatalStartup,
    /// The child terminates abnormally; the parent learns of it only
    /// through end of file on the master side.
    FatalChild,
    /// Logged; the session continues with degraded job control.
    Warning,
}

/// Severity of a failure in each setup step: failing to allocate the
/// terminal pair or to fork aborts startup; the child's descriptor
/// redirection, raw-mode configuration and image replacement are fatal
/// to the child; the job-control steps only degrade the session.
pub open spec fn setup_failure_severity_spec(step: SetupStep) -> Severity {
    match step {
        SetupStep::PtyAllocate => Severity::FatalStartup,
        SetupStep::Fork => Severity::FatalStartup,
        SetupStep::ForegroundParent => Severity::Warning,
        SetupStep::NewSession => Severity::Warning,
        SetupStep::ProcessGroup => Severity::Warning,
        SetupStep::ForegroundChild => Severity::Warning,
        SetupStep::ControllingTerminal => Severity::Warning,
        SetupStep::RedirectStdio => Severity::FatalChild,
        SetupStep::RawMode => Severity::FatalChild,
        SetupStep::ExecImage => Severity::FatalChild,
    }
}

/// How bad a failure of the given setup step is.
pub fn setup_failure_severity(step: SetupStep) -> (s: Severity)
    ensures
        s == setup_failure_severity_spec(step),
{
    match step {
        SetupStep::PtyAllocate => Severity::FatalStartup,
        SetupStep::Fork => Severity::FatalStartup,
        SetupStep::ForegroundParent => Severity::Warning,
        SetupStep::NewSession => Severity::Warning,
        SetupStep::ProcessGroup => Severity::Warning,
        SetupStep::ForegroundChild => Severity::Warning,
        SetupStep::ControllingTerminal => Severity::Warning,
        SetupStep::RedirectStdio => Severity::FatalChild,
        SetupStep::RawMode => Severity::FatalChild,
        SetupStep::ExecImage => Severity::FatalChild,
    }
}

/// Why opening a session failed outright.
#[derive(Clone, Copy, PartialEq, Eq, Structural, Debug)]
pub enum FatalError {
    /// The terminal pair could not be allocated.
    PtyAllocation,
    /// The process could not be duplicated.
    ForkFailure,
}

impl FatalError {
    /// A diagnostic line for the failure.
    pub fn message(&self) -> (r: String)
        ensures
            *self is PtyAllocation ==> r@ == "Failed to open pty"@,
            *self is ForkFailure ==> r@ == "Fork failed"@,
    {
        match self {
            FatalError::PtyAllocation => String::from_str("Failed to open pty"),
            FatalError::ForkFailure => String::from_str("Fork failed"),
        }
    }
}

/// The name after the last `/` of a path; the whole path when it holds
/// none.
pub open spec fn basename_spec(s: Seq<char>) -> Seq<char>
    decreases s.len(),
{
    if s.len() == 0 {
        s
    } else if s.last() == '/' {
        Seq::empty()
    } else {
        basename_spec(s.drop_last()).push(s.last())
    }
}

/// The terminal type advertised for a shell path: the known shells get
/// the rich terminal type, anything else the plain one.
pub open spec fn term_for_shell_spec(path: Seq<char>) -> Seq<char> {
    if basename_spec(path) == "bash"@ || basename_spec(path) == "zsh"@ || basename_spec(path)
        == "fish"@ {
        "xterm-256color"@
    } else {
        "vt100"@
    }
}

/// The name after the last `/` of the path.
pub fn basename<'a>(path: &'a str) -> (r: &'a str)
    ensures
        r@ == basename_spec(path@),
{
    let n = path.unicode_len();
    let mut i: usize = n;
    proof {
        assert(path@.subrange(n as int, n as int) =~= Seq::<char>::empty());
        assert(path@.take(n as int) =~= path@);
    }
    while i > 0 && path.get_char(i - 1) != '/'
        invariant
            i <= n,
            n == path@.len(),
            basename_spec(path@) == basename_spec(path@.take(i as int)) + path@.subrange(
                i as int,
                n as int,
            ),
        decreases i,
    {
        proof {
            assert(path@.take(i as int).drop_last() =~= path@.take(i as int - 1));
            assert(path@.take(i as int).last() == path@[i - 1]);
            assert(basename_spec(path@.take(i as int - 1)).push(path@[i - 1]) + path@.subrange(
                i as int,
                n as int,
            ) =~= basename_spec(path@.take(i as int - 1)) + path@.subrange(i - 1, n as int));
        }
        i -= 1;
    }
    proof {
        if i > 0 {
            assert(path@.take(i as int).last() == path@[i - 1]);
            assert(basename_spec(path@.take(i as int)) =~= Seq::<char>::empty());
        } else {
            assert(path@.take(0) =~= Seq::<char>::empty());
        }
        assert(basename_spec(path@) =~= path@.subrange(i as int, n as int));
    }
    path.substring_char(i, n)
}

/// The terminal type advertised for the given shell path.
pub fn term_for_shell(path: &str) -> (r: String)
    ensures
        r@ == term_for_shell_spec(path@),
{
    let b = basename(path);
    if str_eq_chars(b, "bash") || str_eq_chars(b, "zsh") || str_eq_chars(b, "fish") {
        String::from_str("xterm-256color")
    } else {
        String::from_str("vt100")
    }
}

/// A PTY session as the core sees it: its lifecycle state, the shell it
/// runs, and the terminal type it advertised.  The master handle stays
/// with the embedding program.
pub struct Session {
    /// Where the session stands in its lifecycle.
    pub state: SessionState,
    /// The executable the child runs.
    pub shell_path: String,
    /// The advertised terminal type, derived from the shell.
    pub term: String,
}

/// Decides the outcome of opening a session, from the outcomes of the
/// two fatal setup steps as the embedding program reports them: only
/// with the terminal pair allocated and the fork done is a session
/// produced, spawned and ready, with its terminal type chosen for the
/// shell; otherwise startup aborts with the step that failed.
pub fn open_session(shell_path: String, pty_allocated: bool, fork_succeeded: bool) -> (r: Result<
    Session,
    FatalError,
>)
    ensures
        !pty_allocated ==> r == Err::<Session, FatalError>(FatalError::PtyAllocation),
        pty_allocated && !fork_succeeded ==> r == Err::<Session, FatalError>(
            FatalError::ForkFailure,
        ),
        pty_allocated && fork_succeeded ==> (r matches Ok(s) && s.state == SessionState::Spawned
            && s.shell_path@ == shell_path@ && s.term@ == term_for_shell_spec(shell_path@)),
{
    if !pty_allocated {
        return Err(FatalError::PtyAllocation);
    }
    if !fork_succeeded {
        return Err(FatalError::ForkFailure);
    }
    let term = term_for_shell(shell_path.as_str());
    Ok(Session { state: SessionState::Spawned, shell_path, term })
}

/// The shell of the first record naming `user` in a sequence of user
/// database lines; nothing when no record does.  A record names the
/// user when its first `:`-separated field is the user and it has at
/// least seven fields; the shell is the seventh.
pub open spec fn passwd_shell_spec(lines: Seq<Seq<char>>, user: Seq<char>) -> Option<Seq<char>>
    decreases lines.len(),
{
    if lines.len() == 0 {
        None
    } else {
        let fs = split_spec(lines[0], ':');
        if fs.len() >= 7 && fs[0] == user {
            Some(fs[6])
        } else {
            passwd_shell_spec(lines.drop_first(), user)
        }
    }
}

/// Looks `user` up in the text of a user database (one
/// `name:...:shell` record per line) and returns the recorded login
/// shell of the first record naming the user.
pub fn shell_from_passwd(content: &str, user: &str) -> (r: Option<String>)
    ensures
        match passwd_shell_spec(split_spec(content@, '\n'), user@) {
            Some(sh) => r matches Some(s) && s@ == sh,
            None => r is None,
        },
{
    let lines = split_str(content, '\n');
    let ghost lv = lines.deep_view();
    let mut i: usize = 0;
    proof {
        assert(lv.skip(0) =~= lv);
    }
    while i < lines.len()
        invariant
            i <= lines@.len(),
            lv == lines.deep_view(),
            lv == split_spec(content@, '\n'),
            lv.len() == lines@.len(),
            passwd_shell_spec(lv, user@) == passwd_shell_spec(lv.skip(i as int), user@),
        decreases lines@.len() - i,
    {
        let line = chars_to_string(&lines[i]);
        let fields = split_str(line.as_str(), ':');
        proof {
            assert(lines[i as int]@ == lv[i as int]);
            assert(lv.skip(i as int)[0] == lv[i as int]);
        }
        if fields.len() >= 7 && vec_chars_eq_str(&fields[0], user) {
            let shell = chars_to_string(&fields[6]);
            proof {
                let fs = split_spec(lv.skip(i as int)[0], ':');
                assert(fs == fields.deep_view());
                assert(fields.deep_view().len() == fields@.len());
                assert(fields.deep_view()[0] =~= fields@[0]@);
                assert(fields.deep_view()[6] =~= fields@[6]@);
                assert(fs.len() >= 7 && fs[0] == user@);
                assert(passwd_shell_spec(lv.skip(i as int), user@) == Some(fs[6]));
                assert(shell@ == fs[6]);
            }
            return Some(shell);
        }
        proof {
            assert(fields.deep_view()[0] == fields[0]@);
            assert(lv.skip(i as int).drop_first() =~= lv.skip(i as int + 1));
        }
        i += 1;
    }
    None
}

} // verus!

use vstd::prelude::*;
use crate::types::ChildProcess;

verus! {

/// The command a spawn runs: the one asked for, else the platform's shell (`sh` on unix,
/// `powershell` elsewhere).
pub fn spawn_command(cmd: Option<String>, unix: bool) -> (r: String)
    ensures
        match cmd {
            Some(c) => r == c,
            None => r@ == (if unix { "sh"@ } else { "powershell"@ }),
        },
{
    match cmd {
        Some(c) => c,
        None => if unix { "sh".to_owned() } else { "powershell".to_owned() },
    }
}

/// The arguments a spawn passes: the ones asked for, else none.
pub fn spawn_args(args: Option<Vec<String>>) -> (r: Vec<String>)
    ensures
        match args {
            Some(a) => r == a,
            None => r@.len() == 0,
        },
{
    match args {
        Some(a) => a,
        None => Vec::new(),
    }
}

/// What the task that watches a child process knows: which output streams have ended,
/// the exit code once the process has exited with one, and whether it was disconnected.
#[derive(Clone, Copy, Debug, PartialEq, Eq, Structural)]
pub struct MonitorState {
    pub stdout_end: bool,
    pub stderr_end: bool,
    pub exit_code: Option<i32>,
    pub disconnected: bool,
}

impl MonitorState {
    /// A freshly started process.
    pub fn new() -> (r: MonitorState)
        ensures
            r == (MonitorState { stdout_end: false, stderr_end: false, exit_code: None, disconnected: false }),
    {
        MonitorState { stdout_end: false, stderr_end: false, exit_code: None, disconnected: false }
    }
}

/// What the watching task does for a message.
pub enum MonitorAction {
    Nothing,
    /// Write these bytes to the process's standard input.
    WriteStdin(Vec<u8>),
    /// Stop both output readers and stop watching at once.
    Disconnect,
    /// Stop both output readers and kill the process.
    Kill,
}

/// Handles a message to the watching task. Returns the action and whether watching stops
/// at once. The end of the error stream is recorded as `stdout_end` and that of the output
/// stream as `stderr_end`; both are needed before the task ends on its own, so the naming
/// does not change when it ends.
pub fn monitor_on_message(state: &mut MonitorState, msg: ChildProcess) -> (r: (MonitorAction, bool))
    ensures
        match msg {
            ChildProcess::StdinWrite { data, end } => r.1 == false && *final(state) == *old(state) && match data {
                Some(d) => r.0 == MonitorAction::WriteStdin(d),
                None => r.0 is Nothing,
            },
            ChildProcess::Disconnect => r.0 is Disconnect && r.1 == true
                && *final(state) == (MonitorState { disconnected: true, ..*old(state) }),
            ChildProcess::Kill => r.0 is Kill && r.1 == false
                && *final(state) == (MonitorState { disconnected: true, ..*old(state) }),
            ChildProcess::StderrEnd => r.0 is Nothing && r.1 == false
                && *final(state) == (MonitorState { stdout_end: true, ..*old(state) }),
            ChildProcess::StdoutEnd => r.0 is Nothing && r.1 == false
                && *final(state) == (MonitorState { stderr_end: true, ..*old(state) }),
        },
{
    match msg {
        ChildProcess::StdinWrite { data, end } => match data {
            Some(d) => (MonitorAction::WriteStdin(d), false),
            None => (MonitorAction::Nothing, false),
        },
        ChildProcess::Disconnect => {
            state.disconnected = true;
            (MonitorAction::Disconnect, true)
        },
        ChildProcess::Kill => {
            state.disconnected = true;
            (MonitorAction::Kill, false)
        },
        ChildProcess::StderrEnd => {
            state.stdout_end = true;
            (MonitorAction::Nothing, false)
        },
        ChildProcess::StdoutEnd => {
            state.stderr_end = true;
            (MonitorAction::Nothing, false)
        },
    }
}

/// What asking the process whether it has exited gave.
pub enum WaitOutcome {
    /// It exited, with this exit code (none when a signal ended it).
    Exited(Option<i32>),
    Running,
    /// The question failed.
    Failed,
}

/// Records the outcome of asking whether the process exited; returns whether watching
/// stops: on a failed question, once the process exited with a code and both streams
/// ended, or once it was disconnected.
pub fn monitor_after_wait(state: &mut MonitorState, wait: WaitOutcome) -> (stop: bool)
    ensures
        final(state).stdout_end == old(state).stdout_end,
        final(state).stderr_end == old(state).stderr_end,
        final(state).disconnected == old(state).disconnected,
        final(state).exit_code == match wait {
            WaitOutcome::Exited(c) => c,
            _ => old(state).exit_code,
        },
        stop == (wait is Failed || (final(state).exit_code is Some && final(state).stdout_end && final(state).stderr_end)
            || final(state).disconnected),
{
    match wait {
        WaitOutcome::Exited(c) => {
            state.exit_code = c;
        },
        WaitOutcome::Running => {},
        WaitOutcome::Failed => {
            return true;
        },
    }
    (state.exit_code.is_some() && state.stdout_end && state.stderr_end) || state.disconnected
}

/// The exit to report once watching stopped: the exit code (possibly none) unless the
/// process was disconnected, in which case nothing is reported.
pub fn monitor_exit_report(state: &MonitorState) -> (r: Option<Option<i32>>)
    ensures
        r == (if state.disconnected { None } else { Some(state.exit_code) }),
{
    if state.disconnected { None } else { Some(state.exit_code) }
}

} // verus!

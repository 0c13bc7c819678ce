//! What the worker exchanges with the UI, and how one run's outcome is made.

use crate::aggregator::Emission;
use vstd::prelude::*;
use vstd::string::StringExecFns;

verus! {

/// The exit code used when the process could not be started or gave none.
pub const FAILED_EXIT: i32 = -1;

/// The outcome of one run.
#[derive(Clone, Debug)]
pub struct ExecResult {
    pub cmd: String,
    pub status: i32,
    pub stdout: String,
    pub stderr: String,
}

/// A request to the worker.
pub enum WorkerMsg {
    Run(String),
}

/// What the worker reports to the UI.
pub enum UiMsg {
    Started(String),
    StdoutChunk(String),
    StderrChunk(String),
    Finished(ExecResult),
}

/// The exit code a run reports: the process's own code when it gave one,
/// `FAILED_EXIT` when it was ended by a signal or the code is unknown.
pub fn resolve_exit_code(code: Option<i32>) -> (r: i32)
    ensures
        r == match code {
            Some(c) => c,
            None => FAILED_EXIT,
        },
{
    match code {
        Some(c) => c,
        None => FAILED_EXIT,
    }
}

pub open spec fn spawn_failure_prefix() -> Seq<char> {
    "Failed to spawn: "@
}

impl ExecResult {
    /// The result of a run whose process was started and has ended.
    pub fn completed(cmd: String, code: Option<i32>, stdout: String, stderr: String) -> (r:
        ExecResult)
        ensures
            r.cmd@ == cmd@,
            r.status == match code {
                Some(c) => c,
                None => FAILED_EXIT,
            },
            r.stdout@ == stdout@,
            r.stderr@ == stderr@,
    {
        ExecResult { cmd, status: resolve_exit_code(code), stdout, stderr }
    }

    /// The result of a run whose process could not be started: no output,
    /// the failure exit code, and the reason in stderr.
    pub fn spawn_failed(cmd: String, reason: &str) -> (r: ExecResult)
        ensures
            r.cmd@ == cmd@,
            r.status == FAILED_EXIT,
            r.stdout@.len() == 0,
            r.stderr@ == spawn_failure_prefix() + reason@,
            r.stderr@.len() > 0,
    {
        let mut stderr = String::from_str("Failed to spawn: ");
        proof {
            reveal_strlit("Failed to spawn: ");
        }
        stderr.append(reason);
        ExecResult { cmd, status: FAILED_EXIT, stdout: String::new(), stderr }
    }
}

/// The program and arguments that run `cmd` through the platform's command
/// interpreter: `sh -c cmd`, or `cmd /C cmd` on Windows. The command is passed
/// on as it is.
pub fn shell_invocation(cmd: &str, windows: bool) -> (r: (String, Vec<String>))
    ensures
        windows ==> r.0@ == "cmd"@ && r.1@.len() == 2 && r.1@[0]@ == "/C"@ && r.1@[1]@ == cmd@,
        !windows ==> r.0@ == "sh"@ && r.1@.len() == 2 && r.1@[0]@ == "-c"@ && r.1@[1]@ == cmd@,
{
    let (program, flag) = if windows {
        (String::from_str("cmd"), String::from_str("/C"))
    } else {
        (String::from_str("sh"), String::from_str("-c"))
    };
    let mut args: Vec<String> = Vec::new();
    args.push(flag);
    args.push(String::from_str(cmd));
    (program, args)
}

/// The UI messages for one emission of the aggregator, stdout first.
pub fn emission_messages(e: Emission) -> (r: Vec<UiMsg>)
    ensures
        r@.len() == (if e.stdout is Some { 1int } else { 0 }) + (if e.stderr is Some { 1int } else { 0 }),
        e.stdout matches Some(s) ==> r@[0] matches UiMsg::StdoutChunk(t) && t@ == s@,
        e.stderr matches Some(s) ==> r@.last() matches UiMsg::StderrChunk(t) && t@ == s@,
{
    let mut r: Vec<UiMsg> = Vec::new();
    match e.stdout {
        Some(s) => r.push(UiMsg::StdoutChunk(s)),
        None => {},
    }
    match e.stderr {
        Some(s) => r.push(UiMsg::StderrChunk(s)),
        None => {},
    }
    r
}

} // verus!

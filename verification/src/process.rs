//! Running external commands: the command to run, its outcome, and the
//! errors of running it.

use vstd::prelude::*;
use crate::text::{push_str, string_of};

verus! {

/// Outcome of running a command.
#[derive(Debug, Clone)]
pub struct CommandOutput {
    pub status: i32,
    pub stdout: String,
    pub stderr: String,
}

impl CommandOutput {
    /// The outcome of a finished process: its exit code, or `-1` when it was
    /// ended by a signal (no exit code).
    pub fn from_exit(code: Option<i32>, stdout: String, stderr: String) -> (o: CommandOutput)
        ensures
            o.status == match code {
                Some(c) => c,
                None => -1i32,
            },
            o.stdout == stdout,
            o.stderr == stderr,
    {
        let status = match code {
            Some(c) => c,
            None => -1,
        };
        CommandOutput { status, stdout, stderr }
    }

    /// Whether the command exited with status 0.
    pub fn success(&self) -> (b: bool)
        ensures
            b == (self.status == 0),
    {
        self.status == 0
    }
}

/// A command to execute.
pub struct CommandSpec {
    pub program: String,
    pub args: Vec<String>,
    pub stdin: Option<String>,
    /// Extra environment variables for the child process (name, value).
    pub env: Vec<(String, String)>,
    /// Working directory for the child process (defaults to the parent's).
    pub cwd: Option<String>,
}

/// Errors from running a command.
pub enum CommandError {
    /// The process could not be started.
    Spawn(String),
    /// Talking to the process failed.
    Io(String),
}

impl CommandError {
    /// The error's message.
    pub fn message(&self) -> (r: String)
        ensures
            r@ == match self {
                CommandError::Spawn(e) => "failed to spawn process: "@ + e@,
                CommandError::Io(e) => "process io error: "@ + e@,
            },
    {
        let mut s: Vec<char> = Vec::new();
        match self {
            CommandError::Spawn(e) => {
                push_str(&mut s, "failed to spawn process: ");
                push_str(&mut s, e.as_str());
            },
            CommandError::Io(e) => {
                push_str(&mut s, "process io error: ");
                push_str(&mut s, e.as_str());
            },
        }
        string_of(&s)
    }
}

} // verus!

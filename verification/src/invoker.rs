//! The process invoker's decision logic. Spawning, output capture and the
//! timeout race are outside work; the caller performs them and hands the
//! observed event back. This module fixes what may be launched (a non-empty
//! command) and what every event means for the caller.

use vstd::prelude::*;

verus! {

/// Why an invocation failed.
#[derive(Debug, Clone, PartialEq, Eq)]
pub enum InvokeError {
    /// The command was empty: caller misconfiguration, fatal.
    InvalidCommand,
    /// The command ran past its allotted duration and was terminated.
    Timeout,
    /// The command could not be spawned or its output could not be read.
    SpawnFailure(String),
}

/// What one completed invocation produced.
#[derive(Debug, Clone)]
pub struct ExecutionOutcome {
    pub exit_ok: bool,
    pub stdout: String,
    pub stderr: String,
}

/// What the caller observed while running one command: completion with an
/// exit status and captured output, a spawn or read failure, or the timeout
/// elapsing first.
#[derive(Debug, Clone)]
pub enum CommandEvent {
    Completed(bool, String, String),
    Failed(String),
    TimedOut,
}

/// A command may be launched exactly when it has a program word.
pub fn validate_command(command: &Vec<String>) -> (r: Result<(), InvokeError>)
    ensures
        r is Ok <==> command@.len() > 0,
        r is Err ==> r == Result::<(), InvokeError>::Err(InvokeError::InvalidCommand),
{
    if command.len() == 0 {
        Err(InvokeError::InvalidCommand)
    } else {
        Ok(())
    }
}

/// Maps the observed event to the invocation's result: completion yields
/// the captured outcome whatever the exit status was, a spawn failure and
/// the timeout each yield their error.
pub fn finish_invocation(event: CommandEvent) -> (r: Result<ExecutionOutcome, InvokeError>)
    ensures
        match event {
            CommandEvent::Completed(exit_ok, stdout, stderr) => {
                &&& r is Ok
                &&& r->Ok_0.exit_ok == exit_ok
                &&& r->Ok_0.stdout == stdout
                &&& r->Ok_0.stderr == stderr
            },
            CommandEvent::Failed(message) => r == Result::<ExecutionOutcome, InvokeError>::Err(
                InvokeError::SpawnFailure(message),
            ),
            CommandEvent::TimedOut => r == Result::<ExecutionOutcome, InvokeError>::Err(
                InvokeError::Timeout,
            ),
        },
{
    match event {
        CommandEvent::Completed(exit_ok, stdout, stderr) => Ok(ExecutionOutcome {
            exit_ok,
            stdout,
            stderr,
        }),
        CommandEvent::Failed(message) => Err(InvokeError::SpawnFailure(message)),
        CommandEvent::TimedOut => Err(InvokeError::Timeout),
    }
}

} // verus!

//! A cross-environment test-orchestration engine.
//!
//! The crate runs a matrix of build/lint/test commands for a multi-package
//! project across heterogeneous execution targets: the local host, a Docker
//! container, or an Android emulator reached through a container and ADB.
//! Test results are reported as a stream of structured events, which can be
//! rendered on a console, framed onto a socket, or embedded in captured
//! process output as marker lines.

use vstd::prelude::*;

pub mod codec;
pub mod command;
pub mod driver;
pub mod environment;
pub mod events;
pub mod frame;
pub mod harness;
pub mod provision;
pub mod reporter;
pub mod runner;
pub mod window;

verus! {

/// The error vocabulary of the engine.
#[derive(Clone, Debug, PartialEq)]
pub enum RunnerError {
    /// The external tool or binary could not be launched.
    Spawn(String),
    /// The process ran but returned a failing status; carries the raw exit
    /// code when the process exited normally.
    NonZeroExit(Option<i32>),
    /// The process did not finish within the allotted duration.
    Timeout,
    /// A malformed or truncated event frame, or invalid text destined for a
    /// text-only transport.
    Protocol,
    /// No compatible execution environment could be matched or provisioned.
    EnvironmentUnavailable(String),
    /// A command's exit future was polled after it had already resolved.
    DoubleCompletion,
}

/// An error that running one external command can produce: it failed to
/// launch, exited with a failing status, or timed out.
pub open spec fn spec_exec_error(e: RunnerError) -> bool {
    ||| e is Spawn
    ||| e is NonZeroExit
    ||| e is Timeout
}

impl RunnerError {
    /// A short human-readable description of the error kind.
    pub fn message(&self) -> (r: String)
        ensures
            r@.len() > 0,
    {
        let r = match self {
            RunnerError::Spawn(_) => "failed to launch external command",
            RunnerError::NonZeroExit(_) => "child exited with a failing status",
            RunnerError::Timeout => "child timed out",
            RunnerError::Protocol => "malformed event frame or non-text command",
            RunnerError::EnvironmentUnavailable(_) => "no compatible environment",
            RunnerError::DoubleCompletion => "command exit polled after completion",
        };
        proof {
            reveal_strlit("failed to launch external command");
            reveal_strlit("child exited with a failing status");
            reveal_strlit("child timed out");
            reveal_strlit("malformed event frame or non-text command");
            reveal_strlit("no compatible environment");
            reveal_strlit("command exit polled after completion");
        }
        r.to_owned()
    }
}

} // verus!

//! Shared types of the supervisor: the lifecycle state of the supervised
//! worker process and the error taxonomy of the library.

use vstd::prelude::*;

verus! {

/// Lifecycle state of the supervised worker process.
#[derive(Debug, Clone, Copy, PartialEq, Eq, Structural)]
pub enum SraStatus {
    /// No live worker; the handle is released.
    NotRunning,
    /// The worker runs and awaits commands.
    Running,
    /// The worker reported a running task; advisory only.
    TaskRunning,
    /// The last start attempt failed; recoverable by a later start.
    Error,
}

/// The supervisor's view of the worker process: whether a child handle is
/// held, and the lifecycle state. The operating-system handle itself lives
/// with the caller, which must keep `has_child` in step with it.
#[derive(Debug, Clone, Copy, PartialEq, Eq, Structural)]
pub struct SraProcess {
    pub has_child: bool,
    pub status: SraStatus,
}

/// What can go wrong in the supervisor's own operations.
#[derive(Debug, Clone, Copy, PartialEq, Eq, Structural)]
pub enum SraError {
    /// The worker executable was not found at any known location.
    NotFound,
    /// The operating system failed to launch the worker.
    SpawnFailure,
    /// The operation needs a live worker and there is none.
    NotRunning,
    /// The command text is empty or whitespace only.
    InvalidArgument,
    /// A pipe or log-file transfer failed.
    IOError,
    /// An exclusion primitive was unavailable; fatal to the call.
    LockContention,
}

/// The fixed description of each error.
pub open spec fn error_text(e: SraError) -> Seq<char> {
    match e {
        SraError::NotFound => "worker executable not found"@,
        SraError::SpawnFailure => "failed to launch the worker process"@,
        SraError::NotRunning => "the worker process is not running"@,
        SraError::InvalidArgument => "input must not be empty"@,
        SraError::IOError => "input/output failure"@,
        SraError::LockContention => "internal lock unavailable"@,
    }
}

impl SraError {
    pub fn message(&self) -> (r: &'static str)
        ensures
            r@ == error_text(*self),
    {
        match self {
            SraError::NotFound => "worker executable not found",
            SraError::SpawnFailure => "failed to launch the worker process",
            SraError::NotRunning => "the worker process is not running",
            SraError::InvalidArgument => "input must not be empty",
            SraError::IOError => "input/output failure",
            SraError::LockContention => "internal lock unavailable",
        }
    }
}

} // verus!

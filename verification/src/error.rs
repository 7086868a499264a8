//! What can go wrong.

use vstd::prelude::*;

verus! {

/// A lifecycle request that does not fit the state of the handle.
#[derive(Debug, Clone, Copy, PartialEq, Eq)]
pub enum RunningError {
    /// A start was requested while an execution was running.
    AlreadyRunning,
    /// A stop was requested while nothing was running.
    NotRunning,
}

/// The reason a script could not be bound to devices, as the binder words it.
#[derive(Debug, PartialEq, Eq)]
pub struct CompileError {
    pub reason: String,
}

/// A statement that could not be evaluated.
#[derive(Debug, Clone, Copy, PartialEq, Eq)]
pub enum EvalError {
    /// An argument reads a live input; only constants and vectors of
    /// constants can be evaluated.
    InputNotSupported,
}

#[derive(Debug, PartialEq, Eq)]
pub enum Error {
    CompileError(CompileError),
    RunningError(RunningError),
    EvalError(EvalError),
}

} // verus!

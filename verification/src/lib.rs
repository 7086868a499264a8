//! A reactive rule engine: scripts of triggers over sensor readings, with
//! edge-triggered guards and actions dispatched to devices.
//!
//! A script is written against abstract devices and bound to real ones by
//! a binder. A bound script runs as an [`ExecutionTask`]: the task is told
//! of each new sensor value, evaluates the guard of every rule, and answers
//! with the requests to make of the devices. An [`Execution`] keeps the
//! lifecycle of one such task. The library makes no call to the outside but
//! to read the clock: threads, channels and devices are its caller's.

pub mod ast;
pub mod cells;
pub mod clock;
pub mod conditions;
pub mod context;
pub mod env;
pub mod error;
pub mod execution;
pub mod statements;
pub mod task;
pub mod values;

pub use crate::ast::{
    Condition, Conjunction, Expression, InputSet, Requirement, Resource, Script, Statement, Trigger,
};
pub use crate::cells::{CellStore, DatedData};
pub use crate::clock::Timestamp;
pub use crate::conditions::IsMet;
pub use crate::context::{
    CompiledConditionState, CompiledCtx, CompiledInput, CompiledOutput, Context, UncheckedCtx,
};
pub use crate::env::{DevEnv, UncheckedEnv};
pub use crate::error::{CompileError, Error, EvalError, RunningError};
pub use crate::execution::Execution;
pub use crate::statements::Dispatch;
pub use crate::task::{Effect, ExecutionOp, ExecutionTask, Step, Watch, WatchedInput};
pub use crate::values::{Range, Value};

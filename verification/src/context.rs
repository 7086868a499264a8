//! The two forms of a script: unchecked, and compiled.

use crate::env::DevEnv;
use vstd::prelude::*;

verus! {

/// The bookkeeping attached to a script tree. A tree is in one form
/// throughout: the type parameter says which.
pub trait Context {
    /// What a condition or a conjunction remembers of its last evaluation.
    type ConditionState;

    /// Where a condition reads from.
    type InputSet;

    /// Where a statement sends to.
    type OutputSet;
}

/// The form of a script as its author wrote it: inputs and outputs are
/// positions in the script's list of requirements, and nothing has been
/// evaluated yet.
pub struct UncheckedCtx;

impl Context for UncheckedCtx {
    type ConditionState = ();

    type InputSet = usize;

    type OutputSet = usize;
}

/// The form of a script bound to the devices of `Env`.
pub struct CompiledCtx<Env: DevEnv> {
    pub phantom: core::marker::PhantomData<Env>,
}

impl<Env: DevEnv> Context for CompiledCtx<Env> {
    type ConditionState = CompiledConditionState;

    type InputSet = Vec<CompiledInput<Env>>;

    type OutputSet = Vec<CompiledOutput<Env>>;
}

/// One device to read from, and the cell that holds its last known value.
///
/// Inputs that name the same cell share it: a value written to the cell is
/// seen through each of them.
pub struct CompiledInput<Env: DevEnv> {
    pub device: Env::Device,
    pub cell: u64,
}

/// One device to send to.
pub struct CompiledOutput<Env: DevEnv> {
    pub device: Env::Device,
}

/// The truth value that a condition or a conjunction had when it was last
/// evaluated.
pub struct CompiledConditionState {
    pub is_met: bool,
}

} // verus!

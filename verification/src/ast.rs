//! The script tree.

use crate::context::Context;
use crate::env::DevEnv;
use crate::values::{Range, Value};
use vstd::prelude::*;

verus! {

/// A monitor: what it needs, what it was given, and its rules.
pub struct Script<Ctx: Context, Env: DevEnv> {
    /// Authorization, author, description, version.
    pub metadata: (),
    /// What the monitor needs, such as "a camera".
    pub requirements: Vec<Requirement<Ctx, Env>>,
    /// What was allocated to each requirement, position by position.
    pub allocations: Vec<Resource<Ctx, Env>>,
    /// What must be done in which circumstance, in order.
    pub rules: Vec<Trigger<Ctx, Env>>,
}

impl<Ctx: Context, Env: DevEnv> Script<Ctx, Env> {
    /// Each requirement has its allocation, and each rule is well formed.
    pub open spec fn well_formed(&self) -> bool {
        &&& self.requirements@.len() == self.allocations@.len()
        &&& forall|r: int| 0 <= r < self.rules@.len() ==> (#[trigger] self.rules@[r]).well_formed()
    }
}

/// The devices allocated to one requirement.
pub struct Resource<Ctx: Context, Env: DevEnv> {
    pub devices: Vec<Env::Device>,
    pub phantom: core::marker::PhantomData<Ctx>,
}

/// A kind of device, with the capabilities needed from it.
pub struct Requirement<Ctx: Context, Env: DevEnv> {
    pub kind: Env::DeviceKind,
    pub inputs: Vec<Env::InputCapability>,
    pub outputs: Vec<Env::OutputCapability>,
    pub phantom: core::marker::PhantomData<Ctx>,
}

/// One rule: when the condition becomes true, execute the statements.
pub struct Trigger<Ctx: Context, Env: DevEnv> {
    pub condition: Conjunction<Ctx, Env>,
    pub execute: Vec<Statement<Ctx, Env>>,
}

impl<Ctx: Context, Env: DevEnv> Trigger<Ctx, Env> {
    /// Each statement is well formed.
    pub open spec fn well_formed(&self) -> bool {
        forall|s: int| 0 <= s < self.execute@.len() ==> (#[trigger] self.execute@[s]).well_formed()
    }
}

/// True when all of its conditions are.
pub struct Conjunction<Ctx: Context, Env: DevEnv> {
    pub all: Vec<Condition<Ctx, Env>>,
    pub state: Ctx::ConditionState,
}

/// "A value received from one of these inputs is in this range."
pub struct Condition<Ctx: Context, Env: DevEnv> {
    pub input: Ctx::InputSet,
    pub capability: Env::InputCapability,
    pub range: Range,
    pub state: Ctx::ConditionState,
}

/// An action to ask of each device of a destination.
pub struct Statement<Ctx: Context, Env: DevEnv> {
    pub destination: Ctx::OutputSet,
    pub action: Env::OutputCapability,
    /// The arguments by name, in the order in which they are evaluated.
    pub arguments: Vec<(String, Expression<Ctx, Env>)>,
}

impl<Ctx: Context, Env: DevEnv> Statement<Ctx, Env> {
    /// No argument name occurs twice.
    pub open spec fn well_formed(&self) -> bool {
        forall|i: int, j: int|
            0 <= i < j < self.arguments@.len() ==> (#[trigger] self.arguments@[i]).0@
                != (#[trigger] self.arguments@[j]).0@
    }
}

/// The inputs that match a condition, and the capability to read from them.
pub struct InputSet<Ctx: Context, Env: DevEnv> {
    pub condition: Condition<Ctx, Env>,
    pub capability: Env::InputCapability,
}

/// A value that may be sent to an output.
pub enum Expression<Ctx: Context, Env: DevEnv> {
    /// A value to be read from inputs when the statement runs.
    Input(InputSet<Ctx, Env>),
    /// A constant.
    Value(Value),
    /// Several values.
    Vec(Vec<Expression<Ctx, Env>>),
}

} // verus!

//! Evaluating the statements of a compiled script.

use crate::ast::{Expression, Statement};
use crate::context::CompiledCtx;
use crate::env::DevEnv;
use crate::error::{Error, EvalError};
use crate::values::{Value, ValueView};
use vstd::pervasive::cloned;
use vstd::prelude::*;

verus! {

/// One request to one device: do `action` with `arguments`.
pub struct Dispatch<Env: DevEnv> {
    pub device: Env::Device,
    pub action: Env::OutputCapability,
    /// The arguments by name, in the statement's order.
    pub arguments: Vec<(String, Value)>,
}

/// What a list of named values holds, as mathematics.
pub open spec fn arguments_view(arguments: Seq<(String, Value)>) -> Seq<(Seq<char>, ValueView)> {
    Seq::new(arguments.len(), |i: int| (arguments[i].0@, arguments[i].1@))
}

/// A deep copy of a list of named values.
fn clone_arguments(arguments: &Vec<(String, Value)>) -> (copy: Vec<(String, Value)>)
    ensures
        arguments_view(copy@) == arguments_view(arguments@),
{
    let mut copy: Vec<(String, Value)> = Vec::new();
    let mut i: usize = 0;
    while i < arguments.len()
        invariant
            i <= arguments@.len(),
            copy@.len() == i,
            forall|j: int|
                0 <= j < i ==> (#[trigger] copy@[j]).0@ == arguments@[j].0@ && copy@[j].1@
                    == arguments@[j].1@,
        decreases arguments@.len() - i,
    {
        copy.push((arguments[i].0.clone(), arguments[i].1.clone()));
        i += 1;
    }
    assert(arguments_view(copy@) =~= arguments_view(arguments@));
    copy
}

impl<Env: DevEnv> Expression<CompiledCtx<Env>, Env> {
    /// The expression is made of constants and vectors alone: nothing in it
    /// reads an input.
    pub open spec fn is_constant(&self) -> bool
        decreases self,
    {
        match self {
            Expression::Input(_) => false,
            Expression::Value(_) => true,
            Expression::Vec(items) => forall|i: int|
                0 <= i < items@.len() ==> (#[trigger] items@[i]).is_constant(),
        }
    }

    /// The value of a constant expression: a constant is its own value, and
    /// a vector is the vector of the values of its items, in order.
    pub open spec fn value(&self) -> ValueView
        decreases self,
    {
        match self {
            Expression::Input(_) => arbitrary(),
            Expression::Value(v) => v@,
            Expression::Vec(items) => ValueView::Vec(
                Seq::new(
                    items@.len(),
                    |i: int|
                        if 0 <= i < items@.len() {
                            items@[i].value()
                        } else {
                            arbitrary()
                        },
                ),
            ),
        }
    }

    /// Evaluates the expression.
    ///
    /// Reading an input is not supported: an expression that holds such a
    /// read anywhere is refused, and no value is made up in its place.
    pub fn eval(&self) -> (result: Result<Value, Error>)
        ensures
            match result {
                Ok(v) => self.is_constant() && v@ == self.value(),
                Err(e) => !self.is_constant() && e == Error::EvalError(EvalError::InputNotSupported),
            },
        decreases self,
    {
        match self {
            Expression::Value(v) => Ok(v.clone()),
            Expression::Input(_) => Err(Error::EvalError(EvalError::InputNotSupported)),
            Expression::Vec(items) => {
                let mut values: Vec<Value> = Vec::new();
                let mut i: usize = 0;
                while i < items.len()
                    invariant
                        *self == Expression::<CompiledCtx<Env>, Env>::Vec(*items),
                        i <= items@.len(),
                        values@.len() == i,
                        forall|j: int| 0 <= j < i ==> (#[trigger] items@[j]).is_constant(),
                        forall|j: int| 0 <= j < i ==> (#[trigger] values@[j])@ == items@[j].value(),
                    decreases items@.len() - i,
                {
                    proof {
                        vstd::std_specs::vec::axiom_vec_index_decreases(*items, i as int);
                        assert(decreases_to!(*self => self->Vec_0));
                    }
                    match items[i].eval() {
                        Ok(v) => values.push(v),
                        Err(e) => {
                            return Err(e);
                        },
                    }
                    i += 1;
                }
                let result = Value::Vec(values);
                assert(result@ =~= self.value()) by {
                    assert(crate::values::views_of(values@) =~= self.value()->Vec_0);
                }
                Ok(result)
            },
        }
    }
}

impl<Env: DevEnv> Statement<CompiledCtx<Env>, Env> {
    /// Every argument is a constant expression.
    pub open spec fn is_constant(&self) -> bool {
        forall|i: int| 0 <= i < self.arguments@.len() ==> (#[trigger] self.arguments@[i]).1.is_constant()
    }

    /// The arguments by name, each with the value of its expression, in the
    /// statement's order.
    pub open spec fn argument_values(&self) -> Seq<(Seq<char>, ValueView)> {
        Seq::new(
            self.arguments@.len(),
            |i: int| (self.arguments@[i].0@, self.arguments@[i].1.value()),
        )
    }

    /// `dispatch` is the request that the statement makes of the device at
    /// position `k` of its destination.
    pub open spec fn dispatches(&self, k: int, dispatch: Dispatch<Env>) -> bool {
        &&& cloned(self.destination@[k].device, dispatch.device)
        &&& cloned(self.action, dispatch.action)
        &&& arguments_view(dispatch.arguments@) == self.argument_values()
    }

    /// `outcome` is what evaluating the statement gives.
    ///
    /// Where every argument is a constant expression, it is the list of
    /// requests: one for each device of the destination, in the
    /// destination's order. Where an argument reads an input, it is the
    /// error, and there is no request.
    pub open spec fn evaluates_to(&self, outcome: Result<Vec<Dispatch<Env>>, Error>) -> bool {
        match outcome {
            Ok(dispatches) => {
                &&& self.is_constant()
                &&& dispatches@.len() == self.destination@.len()
                &&& forall|k: int|
                    0 <= k < dispatches@.len() ==> self.dispatches(k, #[trigger] dispatches@[k])
            },
            Err(e) => !self.is_constant() && e == Error::EvalError(EvalError::InputNotSupported),
        }
    }

    /// Evaluates each argument, in order.
    pub fn evaluate_arguments(&self) -> (result: Result<Vec<(String, Value)>, Error>)
        ensures
            match result {
                Ok(values) => self.is_constant() && arguments_view(values@) == self.argument_values(),
                Err(e) => !self.is_constant() && e == Error::EvalError(EvalError::InputNotSupported),
            },
    {
        let mut values: Vec<(String, Value)> = Vec::new();
        let mut i: usize = 0;
        while i < self.arguments.len()
            invariant
                i <= self.arguments@.len(),
                values@.len() == i,
                forall|j: int| 0 <= j < i ==> (#[trigger] self.arguments@[j]).1.is_constant(),
                forall|j: int|
                    0 <= j < i ==> (#[trigger] values@[j]).0@ == self.arguments@[j].0@ && values@[j].1@
                        == self.arguments@[j].1.value(),
            decreases self.arguments@.len() - i,
        {
            match self.arguments[i].1.eval() {
                Ok(v) => values.push((self.arguments[i].0.clone(), v)),
                Err(e) => {
                    return Err(e);
                },
            }
            i += 1;
        }
        assert(arguments_view(values@) =~= self.argument_values());
        Ok(values)
    }

    /// Evaluates the statement: the requests to make, one for each device
    /// of the destination, in the destination's order, each with the
    /// statement's action and the values of its arguments.
    ///
    /// A statement with an argument that cannot be evaluated makes no
    /// request at all.
    pub fn eval(&self) -> (result: Result<Vec<Dispatch<Env>>, Error>)
        ensures
            self.evaluates_to(result),
    {
        let arguments = match self.evaluate_arguments() {
            Ok(arguments) => arguments,
            Err(e) => {
                return Err(e);
            },
        };
        let mut dispatches: Vec<Dispatch<Env>> = Vec::new();
        let mut k: usize = 0;
        while k < self.destination.len()
            invariant
                k <= self.destination@.len(),
                dispatches@.len() == k,
                arguments_view(arguments@) == self.argument_values(),
                forall|j: int| 0 <= j < k ==> self.dispatches(j, #[trigger] dispatches@[j]),
            decreases self.destination@.len() - k,
        {
            dispatches.push(
                Dispatch {
                    device: self.destination[k].device.clone(),
                    action: self.action.clone(),
                    arguments: clone_arguments(&arguments),
                },
            );
            k += 1;
        }
        Ok(dispatches)
    }
}

/// A vector of constants is a constant expression. Its value is a vector
/// of as many values, the value at each position being the constant at
/// that position.
pub proof fn lemma_vector_of_constants<Env: DevEnv>(items: Vec<Expression<CompiledCtx<Env>, Env>>)
    requires
        forall|i: int| 0 <= i < items@.len() ==> (#[trigger] items@[i]) is Value,
    ensures
        ({
            let vector = Expression::<CompiledCtx<Env>, Env>::Vec(items);
            &&& vector.is_constant()
            &&& vector.value() matches ValueView::Vec(values)
            &&& values.len() == items@.len()
            &&& forall|i: int| 0 <= i < items@.len() ==> #[trigger] values[i] == items@[i]->Value_0@
        }),
{
    let vector = Expression::<CompiledCtx<Env>, Env>::Vec(items);
    assert(vector->Vec_0 == items);
    assert forall|i: int| 0 <= i < items@.len() implies (#[trigger] items@[i]).is_constant() by {
        assert(items@[i] is Value);
    }
    assert(vector.is_constant());
    let values = vector.value()->Vec_0;
    assert forall|i: int| 0 <= i < items@.len() implies #[trigger] values[i] == items@[i]->Value_0@ by {
        assert(items@[i] is Value);
        assert(values[i] == items@[i].value());
    }
}

/// An expression that reads an input is no constant expression, and
/// neither is a vector that holds one: evaluating either is refused.
pub proof fn lemma_input_is_not_constant<Env: DevEnv>(
    items: Vec<Expression<CompiledCtx<Env>, Env>>,
    i: int,
)
    requires
        0 <= i < items@.len(),
        items@[i] is Input,
    ensures
        !items@[i].is_constant(),
        !Expression::<CompiledCtx<Env>, Env>::Vec(items).is_constant(),
{
    let vector = Expression::<CompiledCtx<Env>, Env>::Vec(items);
    assert(vector->Vec_0 == items);
    assert(!items@[i].is_constant());
    if vector.is_constant() {
        assert(vector->Vec_0@[i].is_constant());
    }
}

} // verus!

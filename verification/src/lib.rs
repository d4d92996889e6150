//! An interpreter for a continuation-passing-style intermediate language.
//!
//! A program is a [`continuation_expression::ContinuationExpression`].
//! Evaluating it under an [`environment::Environment`] yields an
//! [`continuation::Answer`]: a continuation together with its arguments,
//! waiting for a [`store::Store`]. The [`machine`] applies answers to stores
//! one step at a time.

use crate::continuation::Answer;
use crate::continuation_expression::ContinuationExpression;
use crate::denotable_value::{DenotableValue, DenotableValueList};
use crate::environment::{Bindings, Environment};
use crate::exception::InternalException;
use crate::primitive_op::agrees;
use vstd::prelude::*;

pub mod continuation;
pub mod continuation_expression;
pub mod denotable_value;
pub mod environment;
pub mod exception;
pub mod locations;
pub mod machine;
pub mod primitive_op;
pub mod reals;
pub mod sharing;
pub mod store;
pub mod value;

verus! {

pub type Integer = i64;

pub type IntegerList = Vec<Integer>;

pub type Location = usize;

pub type VariableList = Vec<Variable>;

/// An identifier of the interpreted program. Two variables are the same
/// variable exactly when their names are the same text.
#[derive(Debug, Hash)]
pub struct Variable {
    pub name: String,
}

impl View for Variable {
    type V = Seq<char>;

    open spec fn view(&self) -> Seq<char> {
        self.name@
    }
}

impl Variable {
    pub fn new(name: &str) -> (r: Variable)
        ensures
            r@ == name@,
    {
        Variable { name: name.to_owned() }
    }
}

impl Clone for Variable {
    fn clone(&self) -> (r: Variable)
        ensures
            r == *self,
    {
        Variable { name: self.name.clone() }
    }
}

impl PartialEq for Variable {
    fn eq(&self, other: &Self) -> (r: bool) {
        self.name.eq(&other.name)
    }
}

impl Eq for Variable {

}

impl vstd::std_specs::cmp::PartialEqSpecImpl for Variable {
    open spec fn obeys_eq_spec() -> bool {
        true
    }

    open spec fn eq_spec(&self, other: &Self) -> bool {
        self@ == other@
    }
}

/// "arbitrarily" selects one of the two provided alternatives.
///
/// It marks the places where the language leaves a choice open: whether two
/// immutable values that live in one allocation are reported as equal. This
/// interpreter always takes the first alternative.
pub fn arbitrarily(a: bool, b: bool) -> (r: bool)
    ensures
        r == arbitrarily_spec(a, b),
{
    a
}

/// The alternative that [`arbitrarily`] selects.
pub open spec fn arbitrarily_spec(a: bool, b: bool) -> bool {
    a
}

/// The environment in which evaluation begins: each of `variables` bound to
/// the value at the same place in `values`.
pub open spec fn initial(variables: Seq<Variable>, values: Seq<DenotableValue>) -> Environment {
    (Environment { bindings: Bindings::Empty }).bound_all(variables, values)
}

/// The entry point of the interpreter, `evaluate` takes a `VariableList`, a
/// `ContinuationExpression`, and a list of values to be bound to the
/// corresponding variables in the `VariableList`, and returns the denotation
/// of the expression in the resulting environment.
///
/// Lists of different lengths are a fault: `WrongNumberOfParameters`.
/// Otherwise the result is what the expression denotes for one of the two
/// answers to the question of the allocation; where the two agree, it is
/// what both give.
pub fn evaluate(
    variables: VariableList,
    values: DenotableValueList,
    expression: ContinuationExpression,
) -> (r: Result<Answer, InternalException>)
    ensures
        variables.len() != values.len() ==> r == Err::<Answer, InternalException>(
            InternalException::WrongNumberOfParameters,
        ),
        variables.len() == values.len() ==> exists|same: bool|
            agrees(r, #[trigger] expression.denotation(initial(variables@, values@), same)),
        variables.len() == values.len() && expression.denotation(
            initial(variables@, values@),
            true,
        ) == expression.denotation(initial(variables@, values@), false) ==> agrees(
            r,
            expression.denotation(initial(variables@, values@), false),
        ),
{
    if variables.len() != values.len() {
        return Err(InternalException::WrongNumberOfParameters);
    }
    let environment = Environment::new().bindn(&variables, &values);
    expression.evaluate(environment)
}

} // verus!

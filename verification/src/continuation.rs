//! Continuations and answers.
//!
//! A continuation takes a list of denotable values and a store, and produces
//! an answer. An [`Answer`] is a continuation that has its values already and
//! waits for the store.

use crate::continuation_expression::{ContinuationExpression, FunctionDefinition};
use crate::denotable_value::{DValue, DValueList};
use crate::environment::Environment;
use crate::primitive_op::PrimitiveOp;
use crate::sharing::share;
use crate::{Integer, Location, Variable};
use std::rc::Rc;
use vstd::prelude::*;

verus! {

pub type Parameters = DValueList;

pub type ContinuationList = Vec<Continuation>;

/// What a continuation does once it has its parameters and a store. Every
/// form names the data it has captured.
#[derive(Debug)]
pub enum RawContinuation {
    /// One of the functions that a `Fix` defines together. It binds all of
    /// `definitions` in `environment`, then its formal parameters, and
    /// evaluates its body there.
    Defined {
        environment: Environment,
        definition: Rc<FunctionDefinition>,
        definitions: Rc<Vec<Rc<FunctionDefinition>>>,
    },
    /// An arm of a primitive operation: binds `variables` to the results and
    /// evaluates `body`.
    Arm { environment: Environment, variables: Rc<Vec<Variable>>, body: Rc<ContinuationExpression> },
    /// A function of the host, known by its number. Reaching one hands
    /// control back to the host.
    Host(u64),
    /// Hands its one parameter, an exception, to the handler in the store.
    Raise,
    /// Reads cell `start + index` and passes what it holds to `next`.
    Subscript { start: Location, index: Integer, next: Continuation },
    /// Reads integer cell `start + index` and passes the integer to `next`.
    SubscriptUnboxed { start: Location, index: Integer, next: Continuation },
    /// Writes `value` to cell `start + index`, then goes on with `next`.
    Update { start: Location, index: Integer, value: DValue, next: Continuation },
    /// Writes `integer` to integer cell `start + index`, then goes on with `next`.
    UpdateInteger { start: Location, index: Integer, integer: Integer, next: Continuation },
    /// Allocates one cell that holds `value` and passes the array of that
    /// one cell to `next`.
    MakeRef { value: DValue, next: Continuation },
    /// Allocates one integer cell that holds `integer` and passes the array of
    /// that one cell to `next`.
    MakeRefUnboxed { integer: Integer, next: Continuation },
    /// Passes the current exception handler to `next`.
    GetHandler { next: Continuation },
    /// Installs `handler` as the exception handler, then goes on with `next`.
    SetHandler { handler: DValue, next: Continuation },
    /// Arithmetic on its two parameters, both reals, whose result goes to
    /// `next`. The host carries it out.
    Real { operation: PrimitiveOp, next: Continuation },
}

/// A continuation as a value that can be passed around.
#[derive(Debug)]
pub struct Continuation {
    pub f: Rc<RawContinuation>,
}

/// A continuation together with its parameters. Applying an answer to a
/// store takes evaluation one step further.
#[derive(Debug)]
pub struct Answer {
    pub f: Rc<RawContinuation>,
    pub parameters: Parameters,
}

/// An [`Answer`] as a mathematical value.
pub ghost struct AnswerView {
    pub f: RawContinuation,
    pub parameters: Seq<DValue>,
}

impl View for Answer {
    type V = AnswerView;

    open spec fn view(&self) -> AnswerView {
        AnswerView { f: *self.f, parameters: self.parameters@ }
    }
}

impl Clone for Continuation {
    fn clone(&self) -> (r: Continuation)
        ensures
            r == *self,
    {
        Continuation { f: share(&self.f) }
    }
}

impl Continuation {
    /// The answer that hands `parameters` to this continuation.
    pub open spec fn applied(self, parameters: Seq<DValue>) -> AnswerView {
        AnswerView { f: *self.f, parameters }
    }

    /// Supplies the parameters of the continuation. What results is an
    /// answer, which waits for the store.
    pub fn call(&self, parameters: Parameters) -> (r: Answer)
        ensures
            r@ == self.applied(parameters@),
    {
        Answer { f: share(&self.f), parameters }
    }

    /// The continuation that stands for function `number` of the host.
    pub fn host(number: u64) -> (r: Continuation)
        ensures
            *r.f == RawContinuation::Host(number),
    {
        Continuation { f: Rc::new(RawContinuation::Host(number)) }
    }
}

} // verus!

//! What can go wrong: exceptions of the interpreted program, and faults of
//! the interpreter itself.

use crate::continuation::{Answer, AnswerView, RawContinuation};
use crate::denotable_value::{DValue, DenotableValue};
use std::rc::Rc;
use vstd::prelude::*;
use vstd::string::StringExecFns;

verus! {

/// An exception raised by the interpreted program. It is delivered to the
/// handler that the program has installed in the store.
#[derive(Copy, Clone, PartialEq, Eq, Structural, Hash, Debug)]
pub enum Exception {
    Overflow,
    DivideByZero,
    /// A field was asked of something that has no such field.
    InvalidAccess,
    Undefined,
    /// A subscript or a switch index outside its bounds.
    IndexOutOfBounds,
}

/// A fault of the interpreter: the program is malformed in a way that no
/// handler of the program can recover from. Evaluation stops.
#[derive(Copy, Clone, PartialEq, Eq, Structural, Hash, Debug)]
pub enum InternalException {
    /// An unbound variable, operands of the wrong form, a comparison of two
    /// functions, or a location outside the store.
    Undefined,
    /// A list of names and a list of values of different lengths.
    WrongNumberOfParameters,
}

impl Exception {
    /// The answer that raises this exception: given a store, it hands the
    /// exception to the handler installed there.
    pub open spec fn raised(self) -> AnswerView {
        AnswerView { f: RawContinuation::Raise, parameters: seq![DValue::Exception(self)] }
    }

    /// The name of the exception, as it is shown to the user.
    pub open spec fn name_spec(self) -> Seq<char> {
        match self {
            Exception::Overflow => "Overflow"@,
            Exception::DivideByZero => "DivideByZero"@,
            Exception::InvalidAccess => "InvalidAccess"@,
            Exception::Undefined => "Undefined"@,
            Exception::IndexOutOfBounds => "IndexOutOfBounds"@,
        }
    }

    pub fn as_denotable_value(self) -> (r: DenotableValue)
        ensures
            r == DValue::Exception(self),
    {
        DValue::Exception(self)
    }

    pub fn as_answer(&self) -> (r: Answer)
        ensures
            r@ == self.raised(),
    {
        let mut parameters = Vec::new();
        parameters.push(self.as_denotable_value());
        let r = Answer { f: Rc::new(RawContinuation::Raise), parameters };
        assert(r@.parameters =~= self.raised().parameters);
        r
    }

    pub fn name(self) -> (r: String)
        ensures
            r@ == self.name_spec(),
    {
        match self {
            Exception::Overflow => "Overflow".to_owned(),
            Exception::DivideByZero => "DivideByZero".to_owned(),
            Exception::InvalidAccess => "InvalidAccess".to_owned(),
            Exception::Undefined => "Undefined".to_owned(),
            Exception::IndexOutOfBounds => "IndexOutOfBounds".to_owned(),
        }
    }
}

impl InternalException {
    /// The name of the fault, as it is shown to the user.
    pub open spec fn name_spec(self) -> Seq<char> {
        match self {
            InternalException::Undefined => "Undefined"@,
            InternalException::WrongNumberOfParameters => "WrongNumberOfParameters"@,
        }
    }

    pub fn name(self) -> (r: String)
        ensures
            r@ == self.name_spec(),
    {
        match self {
            InternalException::Undefined => "Undefined".to_owned(),
            InternalException::WrongNumberOfParameters => "WrongNumberOfParameters".to_owned(),
        }
    }
}

/// The diagnostic for a fault of the interpreter.
pub open spec fn diagnostic(exception: InternalException) -> Seq<char> {
    "Internal exception raised:: "@ + exception.name_spec()
}

/// The diagnostic for a fault of the interpreter.
pub fn raise_exception(exception: InternalException) -> (r: String)
    ensures
        r@ == diagnostic(exception),
{
    let mut text = "Internal exception raised:: ".to_owned();
    text.append(exception.name().as_str());
    text
}

/// The diagnostic for a fault of the interpreter, with a message.
pub fn raise_exception_msg(exception: InternalException, msg: &str) -> (r: String)
    ensures
        r@ == diagnostic(exception) + ": "@ + msg@,
{
    let mut text = raise_exception(exception);
    text.append(": ");
    text.append(msg);
    text
}

} // verus!

//! Atomic values: the literals and names that occur inside program terms.
//!
//! A [`Value`] is what a term can mention directly. Names stand for whatever
//! the environment binds them to; literals stand for themselves.

use crate::reals::Real;
use crate::{Integer, Variable};
use vstd::prelude::*;

verus! {

pub type ValueList = Vec<Value>;

#[derive(Debug, Hash)]
pub enum Value {
    /// A name, bound by the environment.
    Variable(Variable),
    /// A name of a function; looked up exactly as a variable is.
    Label(Variable),
    Integer(Integer),
    Real(Real),
    String(String),
}

impl Value {
    /// Whether two atomic values are written alike: the same form, with the
    /// same name, number or text. Two reals are alike when they are
    /// numerically equal or both NaN.
    pub open spec fn alike(self, other: Value) -> bool {
        match (self, other) {
            (Value::Variable(a), Value::Variable(b)) => a@ == b@,
            (Value::Label(a), Value::Label(b)) => a@ == b@,
            (Value::Integer(a), Value::Integer(b)) => a == b,
            (Value::Real(a), Value::Real(b)) => a.equals(b) || (a.nan() && b.nan()),
            (Value::String(a), Value::String(b)) => a@ == b@,
            _ => false,
        }
    }
}

impl Clone for Value {
    fn clone(&self) -> (r: Value)
        ensures
            r == *self,
    {
        match self {
            Value::Variable(v) => Value::Variable(v.clone()),
            Value::Label(v) => Value::Label(v.clone()),
            Value::Integer(i) => Value::Integer(*i),
            Value::Real(x) => Value::Real(*x),
            Value::String(s) => Value::String(s.clone()),
        }
    }
}

impl PartialEq for Value {
    fn eq(&self, other: &Self) -> (r: bool) {
        match (self, other) {
            (Value::Variable(a), Value::Variable(b)) => a.name.eq(&b.name),
            (Value::Label(a), Value::Label(b)) => a.name.eq(&b.name),
            (Value::Integer(a), Value::Integer(b)) => *a == *b,
            (Value::Real(a), Value::Real(b)) => a.is_equal(*b) || (a.is_nan() && b.is_nan()),
            (Value::String(a), Value::String(b)) => a.eq(b),
            _ => false,
        }
    }
}

impl Eq for Value {

}

impl vstd::std_specs::cmp::PartialEqSpecImpl for Value {
    open spec fn obeys_eq_spec() -> bool {
        true
    }

    open spec fn eq_spec(&self, other: &Self) -> bool {
        self.alike(*other)
    }
}

} // verus!

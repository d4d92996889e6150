//! Environments: the bindings of variables to denotable values.

use crate::denotable_value::{DValue, DValueList};
use crate::sharing::share;
use crate::value::{Value, ValueList};
use crate::{Variable, VariableList};
use std::rc::Rc;
use vstd::prelude::*;

verus! {

/// An immutable list of bindings, newest first. A newer binding of a name
/// hides the older ones. Environments made from one another share their
/// common tail.
#[derive(Debug)]
pub enum Bindings {
    Empty,
    Bound(Rc<Binding>),
}

#[derive(Debug)]
pub struct Binding {
    pub variable: Variable,
    pub value: DValue,
    pub rest: Bindings,
}

#[derive(Debug)]
pub struct Environment {
    pub bindings: Bindings,
}

impl Clone for Bindings {
    fn clone(&self) -> (r: Bindings)
        ensures
            r == *self,
    {
        match self {
            Bindings::Empty => Bindings::Empty,
            Bindings::Bound(binding) => Bindings::Bound(share(binding)),
        }
    }
}

impl Clone for Environment {
    fn clone(&self) -> (r: Environment)
        ensures
            r == *self,
    {
        Environment { bindings: self.bindings.clone() }
    }
}

impl Bindings {
    /// The value of the newest binding of `name`, if there is one.
    pub open spec fn lookup(self, name: Seq<char>) -> Option<DValue>
        decreases self,
    {
        match self {
            Bindings::Empty => None,
            Bindings::Bound(binding) => if binding.variable@ == name {
                Some(binding.value)
            } else {
                binding.rest.lookup(name)
            },
        }
    }

    /// The bindings without those of `name`, in the same order.
    pub open spec fn without(self, name: Seq<char>) -> Bindings
        decreases self,
    {
        match self {
            Bindings::Empty => Bindings::Empty,
            Bindings::Bound(binding) => if binding.variable@ == name {
                binding.rest.without(name)
            } else {
                Bindings::Bound(
                    Rc::new(
                        Binding {
                            variable: binding.variable,
                            value: binding.value,
                            rest: binding.rest.without(name),
                        },
                    ),
                )
            },
        }
    }

    /// Removing the bindings of `name` leaves `name` unbound and every other
    /// name bound as before.
    pub proof fn lemma_without_lookup(&self, name: Seq<char>, other: Seq<char>)
        ensures
            self.without(name).lookup(name) is None,
            other != name ==> self.without(name).lookup(other) == self.lookup(other),
        decreases *self,
    {
        match self {
            Bindings::Empty => {},
            Bindings::Bound(binding) => {
                binding.rest.lemma_without_lookup(name, other);
            },
        }
    }

    fn find<'a>(&'a self, variable: &Variable) -> (r: Option<&'a DValue>)
        ensures
            match r {
                Some(found) => self.lookup(variable@) == Some(*found),
                None => self.lookup(variable@) is None,
            },
        decreases self,
    {
        match self {
            Bindings::Empty => None,
            Bindings::Bound(binding) => {
                if binding.variable.name.eq(&variable.name) {
                    Some(&binding.value)
                } else {
                    binding.rest.find(variable)
                }
            },
        }
    }

    fn remove(&self, variable: &Variable) -> (r: Bindings)
        ensures
            r == self.without(variable@),
        decreases self,
    {
        match self {
            Bindings::Empty => Bindings::Empty,
            Bindings::Bound(binding) => {
                let rest = binding.rest.remove(variable);
                if binding.variable.name.eq(&variable.name) {
                    rest
                } else {
                    Bindings::Bound(
                        Rc::new(
                            Binding {
                                variable: binding.variable.clone(),
                                value: binding.value.clone(),
                                rest,
                            },
                        ),
                    )
                }
            },
        }
    }
}

impl Environment {
    /// The value that `name` is bound to, if it is bound.
    pub open spec fn lookup(self, name: Seq<char>) -> Option<DValue> {
        self.bindings.lookup(name)
    }

    /// This environment with one more binding in front.
    pub open spec fn extended(self, variable: Variable, value: DValue) -> Environment {
        Environment {
            bindings: Bindings::Bound(Rc::new(Binding { variable, value, rest: self.bindings })),
        }
    }

    /// The environment in which `variable` is bound to `value` and every
    /// other name is bound as in this one. Where `variable` is already
    /// bound to an identical value, that is this environment itself.
    pub open spec fn bound(self, variable: Variable, value: DValue) -> Environment {
        match self.lookup(variable@) {
            Some(found) if found.identical(value) => self,
            _ => self.extended(variable, value),
        }
    }

    /// This environment extended by binding each of `variables` to the value
    /// at the same place in `values`, the first one first, so that of two
    /// bindings of one name the later one counts. It is meant for two lists
    /// of the same length.
    pub open spec fn bound_all(self, variables: Seq<Variable>, values: Seq<DValue>) -> Environment
        decreases variables.len(),
    {
        if variables.len() == 0 || values.len() == 0 {
            self
        } else {
            self.bound_all(variables.drop_last(), values.drop_last()).extended(
                variables.last(),
                values.last(),
            )
        }
    }

    /// The environment in which `name` is unbound and every other name is
    /// bound as in this one.
    pub open spec fn without(self, name: Seq<char>) -> Environment {
        Environment { bindings: self.bindings.without(name) }
    }

    /// What an atomic value denotes: a name denotes what it is bound to, if
    /// it is bound; a literal denotes itself.
    pub open spec fn denote(self, value: Value) -> Option<DValue> {
        match value {
            Value::Variable(v) => self.lookup(v@),
            Value::Label(v) => self.lookup(v@),
            Value::Integer(i) => Some(DValue::Integer(i)),
            Value::Real(x) => Some(DValue::Real(x)),
            Value::String(s) => Some(DValue::String(Rc::new(s))),
        }
    }

    /// What a list of atomic values denotes, if each of them denotes
    /// something.
    pub open spec fn denote_all(self, values: Seq<Value>) -> Option<Seq<DValue>> {
        if forall|i: int| 0 <= i < values.len() ==> (#[trigger] self.denote(values[i])) is Some {
            Some(Seq::new(values.len(), |i: int| self.denote(values[i]).unwrap()))
        } else {
            None
        }
    }

    pub fn new() -> (r: Environment)
        ensures
            r.bindings == Bindings::Empty,
            forall|name: Seq<char>| r.lookup(name) is None,
    {
        Environment { bindings: Bindings::Empty }
    }

    pub fn with_bindings(bindings: Bindings) -> (r: Environment)
        ensures
            r.bindings == bindings,
    {
        Environment { bindings }
    }

    /// Creates an environment in which `variable` is bound to `value`.
    pub fn bind(&self, variable: Variable, value: DValue) -> (r: Environment)
        ensures
            r == self.bound(variable, value),
            r.lookup(variable@) == Some(value),
            forall|name: Seq<char>| name != variable@ ==> r.lookup(name) == self.lookup(name),
    {
        // Avoid making a new environment if `variable` is already bound to `value`.
        if let Some(found) = self.get(&variable) {
            if found.is_identical(&value) {
                return self.clone();
            }
        }
        Environment {
            bindings: Bindings::Bound(
                Rc::new(Binding { variable, value, rest: self.bindings.clone() }),
            ),
        }
    }

    /// Creates a copy of the environment in which the given variables are
    /// bound to the given values. Unlike `bind`, it always adds bindings.
    pub fn bindn(&self, variables: &VariableList, values: &DValueList) -> (r: Environment)
        requires
            variables.len() == values.len(),
        ensures
            r == self.bound_all(variables@, values@),
    {
        let mut new_environment = self.deep_copy();
        new_environment.extend(variables, values);
        new_environment
    }

    pub fn deep_copy(&self) -> (r: Environment)
        ensures
            r == *self,
    {
        self.clone()
    }

    /// Creates an environment in which `variable` is free.
    pub fn unbind(&self, variable: &Variable) -> (r: Environment)
        ensures
            r == self.without(variable@),
            r.lookup(variable@) is None,
            forall|name: Seq<char>| name != variable@ ==> r.lookup(name) == self.lookup(name),
    {
        let r = Environment { bindings: self.bindings.remove(variable) };
        proof {
            self.bindings.lemma_without_lookup(variable@, variable@);
            assert forall|name: Seq<char>| name != variable@ implies r.lookup(name) == self.lookup(
                name,
            ) by {
                self.bindings.lemma_without_lookup(variable@, name);
            }
        }
        r
    }

    pub fn get(&self, variable: &Variable) -> (r: Option<&DValue>)
        ensures
            match r {
                Some(found) => self.lookup(variable@) == Some(*found),
                None => self.lookup(variable@) is None,
            },
    {
        self.bindings.find(variable)
    }

    /// The value that `variable` is bound to.
    pub fn index(&self, variable: &Variable) -> (r: &DValue)
        requires
            self.lookup(variable@) is Some,
        ensures
            self.lookup(variable@) == Some(*r),
    {
        match self.bindings.find(variable) {
            Some(found) => found,
            None => vstd::pervasive::unreached(),
        }
    }

    /// What `value` denotes in this environment, or `None` if it is a name
    /// that is not bound.
    pub fn value_of(&self, value: &Value) -> (r: Option<DValue>)
        ensures
            r == self.denote(*value),
    {
        match value {
            Value::Variable(v) => match self.get(v) {
                Some(found) => Some(found.clone()),
                None => None,
            },
            Value::Label(v) => match self.get(v) {
                Some(found) => Some(found.clone()),
                None => None,
            },
            Value::Integer(i) => Some(DValue::Integer(*i)),
            Value::Real(x) => Some(DValue::Real(*x)),
            Value::String(s) => Some(DValue::String(Rc::new(s.clone()))),
        }
    }

    /// What each of `values` denotes in this environment, or `None` if one
    /// of them is a name that is not bound.
    pub fn values_of(&self, values: &ValueList) -> (r: Option<DValueList>)
        ensures
            match r {
                Some(found) => self.denote_all(values@) == Some(found@),
                None => self.denote_all(values@) is None,
            },
    {
        let mut found: DValueList = Vec::new();
        let mut i: usize = 0;
        while i < values.len()
            invariant
                i <= values.len(),
                found.len() == i,
                forall|j: int| 0 <= j < i ==> self.denote(#[trigger] values[j]) == Some(found[j]),
            decreases values.len() - i,
        {
            match self.value_of(&values[i]) {
                Some(d) => {
                    found.push(d);
                },
                None => {
                    return None;
                },
            }
            i = i + 1;
        }
        proof {
            assert(found@ =~= Seq::new(values@.len(), |i: int| self.denote(values@[i]).unwrap()));
        }
        Some(found)
    }

    /// This method is trivial for numbers and strings. Names must be looked
    /// up in the environment.
    pub fn value_to_denotable_value(&self, value: &Value) -> (r: DValue)
        requires
            self.denote(*value) is Some,
        ensures
            self.denote(*value) == Some(r),
    {
        match value {
            Value::Variable(v) => self.index(v).clone(),
            Value::Label(v) => self.index(v).clone(),
            Value::Integer(i) => DValue::Integer(*i),
            Value::Real(x) => DValue::Real(*x),
            Value::String(s) => DValue::String(Rc::new(s.clone())),
        }
    }

    /// Adds a binding of each of `variables` to the value at the same place
    /// in `values`, the first one first.
    pub fn extend(&mut self, variables: &VariableList, values: &DValueList)
        requires
            variables.len() == values.len(),
        ensures
            *final(self) == old(self).bound_all(variables@, values@),
    {
        let mut i: usize = 0;
        while i < variables.len()
            invariant
                i <= variables.len(),
                variables.len() == values.len(),
                *self == old(self).bound_all(variables@.take(i as int), values@.take(i as int)),
            decreases variables.len() - i,
        {
            proof {
                assert(variables@.take(i + 1).drop_last() =~= variables@.take(i as int));
                assert(values@.take(i + 1).drop_last() =~= values@.take(i as int));
            }
            let rest = self.bindings.clone();
            self.bindings = Bindings::Bound(
                Rc::new(Binding { variable: variables[i].clone(), value: values[i].clone(), rest }),
            );
            i = i + 1;
        }
        proof {
            assert(variables@.take(i as int) =~= variables@);
            assert(values@.take(i as int) =~= values@);
        }
    }
}

/// Binding and lookup: a name is bound to the value it was last bound to,
/// and binding one name leaves every other name as it was.
pub proof fn lemma_bind_then_lookup(
    environment: Environment,
    variable: Variable,
    first: DValue,
    second: DValue,
    other: Seq<char>,
)
    ensures
        environment.bound(variable, first).lookup(variable@) == Some(first),
        environment.bound(variable, first).bound(variable, second).lookup(variable@) == Some(
            second,
        ),
        other != variable@ ==> environment.bound(variable, first).lookup(other)
            == environment.lookup(other),
{
}

} // verus!

//! Program terms and their evaluation.

use crate::continuation::{
    Answer, AnswerView, Continuation, ContinuationList, RawContinuation,
};
use crate::denotable_value::{
    resolve, resolve_field, AccessPath, DValue, DValueList, Fields,
};
use crate::environment::{Binding, Bindings, Environment};
use crate::exception::{Exception, InternalException};
use crate::primitive_op::{agrees, PrimitiveOp};
use crate::sharing::share;
use crate::value::{Value, ValueList};
use crate::{Location, Variable, VariableList};
use std::rc::Rc;
use vstd::prelude::*;

verus! {

pub type CExp = Rc<ContinuationExpression>;

pub type RcFunctionDefinition = Rc<FunctionDefinition>;

pub type RcFunctionDefinitionList = Rc<Vec<RcFunctionDefinition>>;

/// One function of a `Fix`: its name, its formal parameters and its body.
#[derive(Debug)]
pub struct FunctionDefinition {
    pub name: Variable,
    pub formal_parameters: VariableList,
    pub body: ContinuationExpression,
}

#[derive(Debug)]
pub enum ContinuationExpression {
    /// In `Record(vl, w, e)` the scope of `w` is just `e`.
    Record { values: Vec<(Value, Rc<AccessPath>)>, variable: Variable, expression: CExp },
    /// In `Select(i, v, w, e)` the scope of `w` is just `e`.
    Select { location: Location, value: Value, variable: Variable, expression: CExp },
    /// In `Offset(i, v, w, e)` the scope of `w` is just `e`.
    Offset { location: Location, value: Value, variable: Variable, expression: CExp },
    /// `Apply` binds no variable. `function` is a name bound to a function.
    Apply { function: Value, arguments: ValueList },
    /// `Fix` defines functions that may call one another. The scope of each
    /// function's name is every body and `expression`; the scope of a formal
    /// parameter is the body of its function.
    Fix { function_defs: RcFunctionDefinitionList, expression: CExp },
    /// `Switch` binds no variable.
    Switch { value: Value, arms: Vec<CExp> },
    /// In `PrimitiveOp(p, vl, wl, el)` the scope of the variables `wl` is
    /// each of the expressions `el`.
    PrimitiveOp {
        operation: PrimitiveOp,
        values: ValueList,
        variables: Rc<VariableList>,
        expressions: Vec<CExp>,
    },
}

/// What became of the fields of a record under construction.
pub ghost enum Resolution {
    /// Every field was found.
    Fields(Seq<DValue>),
    /// A walk into a record failed: the program raises this exception.
    Raise(Exception),
    /// A name is not bound.
    Fault(InternalException),
}

/// The fields of a record: each of `pairs` is an atomic value and a walk
/// from what it denotes. The first pair that fails decides how the whole
/// fails.
pub open spec fn resolve_all(
    pairs: Seq<(Value, Rc<AccessPath>)>,
    environment: Environment,
) -> Resolution
    decreases pairs.len(),
{
    if pairs.len() == 0 {
        Resolution::Fields(Seq::empty())
    } else {
        match resolve_all(pairs.drop_last(), environment) {
            Resolution::Fields(fields) => match environment.denote(pairs.last().0) {
                None => Resolution::Fault(InternalException::Undefined),
                Some(d) => match resolve(d, *pairs.last().1) {
                    Ok(field) => Resolution::Fields(fields.push(field)),
                    Err(x) => Resolution::Raise(x),
                },
            },
            failed => failed,
        }
    }
}

/// Once a pair has failed, the pairs after it change nothing.
pub proof fn lemma_resolution_fails(
    pairs: Seq<(Value, Rc<AccessPath>)>,
    environment: Environment,
    k: int,
)
    requires
        0 <= k <= pairs.len(),
        !(resolve_all(pairs.take(k), environment) is Fields),
    ensures
        resolve_all(pairs, environment) == resolve_all(pairs.take(k), environment),
    decreases pairs.len() - k,
{
    if k == pairs.len() {
        assert(pairs.take(k) =~= pairs);
    } else {
        assert(pairs.drop_last().take(k) =~= pairs.take(k));
        lemma_resolution_fails(pairs.drop_last(), environment, k);
    }
}

/// Function `i` of `definitions` as a value: it remembers the environment
/// of the `Fix` and all the functions defined with it.
pub open spec fn closure(
    environment: Environment,
    definitions: RcFunctionDefinitionList,
    i: int,
) -> DValue {
    DValue::Function(
        Continuation {
            f: Rc::new(
                RawContinuation::Defined { environment, definition: definitions@[i], definitions },
            ),
        },
    )
}

/// `environment` with the first `n` of `definitions` bound to their closures.
pub open spec fn fixed_upto(
    environment: Environment,
    definitions: RcFunctionDefinitionList,
    n: nat,
) -> Environment
    decreases n,
{
    if n == 0 {
        environment
    } else {
        fixed_upto(environment, definitions, (n - 1) as nat).extended(
            definitions@[n - 1].name,
            closure(environment, definitions, n - 1),
        )
    }
}

/// `environment` with each function of `definitions` bound to its closure.
/// Every closure remembers `environment` itself and binds all the functions
/// anew when it is called, so each body sees all of them.
pub open spec fn fixed(environment: Environment, definitions: RcFunctionDefinitionList) -> Environment {
    fixed_upto(environment, definitions, definitions@.len())
}

/// The continuations of a primitive operation: one for each of
/// `expressions`, which binds `variables` to the results in `environment`
/// and goes on with that expression.
pub open spec fn arms_of(
    environment: Environment,
    variables: Rc<VariableList>,
    expressions: Seq<CExp>,
) -> Seq<Continuation> {
    Seq::new(
        expressions.len(),
        |i: int|
            Continuation {
                f: Rc::new(
                    RawContinuation::Arm { environment, variables, body: expressions[i] },
                ),
            },
    )
}

/// Binds each function of `definitions` to its closure.
pub fn fix(environment: &Environment, definitions: &RcFunctionDefinitionList) -> (r: Environment)
    ensures
        r == fixed(*environment, *definitions),
{
    let mut bindings = environment.bindings.clone();
    let mut i: usize = 0;
    while i < definitions.len()
        invariant
            i <= definitions.len(),
            bindings == fixed_upto(*environment, *definitions, i as nat).bindings,
        decreases definitions.len() - i,
    {
        let raw = RawContinuation::Defined {
            environment: environment.clone(),
            definition: share(&definitions[i]),
            definitions: share(definitions),
        };
        let value = DValue::Function(Continuation { f: Rc::new(raw) });
        bindings = Bindings::Bound(
            Rc::new(Binding { variable: definitions[i].name.clone(), value, rest: bindings }),
        );
        i = i + 1;
    }
    Environment { bindings }
}

impl ContinuationExpression {
    /// What the expression denotes in `environment`: the answer it gives,
    /// or the fault of a name that is not bound or of a primitive operation
    /// applied to what it is not defined on. `same` answers the one
    /// question the environment cannot: whether two operands of `ieql` or
    /// `ineq` were found in one allocation.
    pub open spec fn denotation(self, environment: Environment, same: bool) -> Result<
        AnswerView,
        InternalException,
    >
        decreases self,
    {
        match self {
            ContinuationExpression::Record { values, variable, expression } => {
                match resolve_all(values@, environment) {
                    Resolution::Fields(fields) => expression.denotation(
                        environment.bound(
                            variable,
                            DValue::Record { values: Fields::of(fields), idx: 0 },
                        ),
                        same,
                    ),
                    Resolution::Raise(x) => Ok(x.raised()),
                    Resolution::Fault(e) => Err(e),
                }
            },
            ContinuationExpression::Select { location, value, variable, expression } => {
                match environment.denote(value) {
                    None => Err(InternalException::Undefined),
                    Some(DValue::Record { values, idx }) => match values.at(idx + location) {
                        Some(field) if idx + location <= usize::MAX => expression.denotation(
                            environment.bound(variable, field),
                            same,
                        ),
                        _ => Ok(Exception::InvalidAccess.raised()),
                    },
                    Some(_) => Ok(Exception::InvalidAccess.raised()),
                }
            },
            ContinuationExpression::Offset { location, value, variable, expression } => {
                match environment.denote(value) {
                    None => Err(InternalException::Undefined),
                    Some(DValue::Record { values, idx }) => if idx + location <= usize::MAX {
                        expression.denotation(
                            environment.bound(
                                variable,
                                DValue::Record { values, idx: (idx + location) as usize },
                            ),
                            same,
                        )
                    } else {
                        Ok(Exception::InvalidAccess.raised())
                    },
                    Some(_) => Ok(Exception::InvalidAccess.raised()),
                }
            },
            ContinuationExpression::Apply { function, arguments } => {
                match environment.denote(function) {
                    None => Err(InternalException::Undefined),
                    Some(DValue::Function(k)) => match environment.denote_all(arguments@) {
                        None => Err(InternalException::Undefined),
                        Some(parameters) => Ok(k.applied(parameters)),
                    },
                    Some(_) => Ok(Exception::Undefined.raised()),
                }
            },
            ContinuationExpression::Fix { function_defs, expression } => expression.denotation(
                fixed(environment, function_defs),
                same,
            ),
            ContinuationExpression::Switch { value, arms } => {
                match environment.denote(value) {
                    None => Err(InternalException::Undefined),
                    Some(DValue::Integer(i)) => if 0 <= i < arms.len() {
                        arms[i as int].denotation(environment, same)
                    } else {
                        Ok(Exception::IndexOutOfBounds.raised())
                    },
                    Some(_) => Ok(Exception::IndexOutOfBounds.raised()),
                }
            },
            ContinuationExpression::PrimitiveOp { operation, values, variables, expressions } => {
                match environment.denote_all(values@) {
                    None => Err(InternalException::Undefined),
                    Some(operands) => operation.denotation(
                        operands,
                        arms_of(environment, variables, expressions@),
                        same,
                    ),
                }
            },
        }
    }

    /// Whether evaluation in `environment` ends in a comparison of two
    /// strings or two records, whose outcome depends on their allocations.
    pub open spec fn asks(self, environment: Environment) -> bool
        decreases self,
    {
        match self {
            ContinuationExpression::Record { values, variable, expression } => {
                match resolve_all(values@, environment) {
                    Resolution::Fields(fields) => expression.asks(
                        environment.bound(
                            variable,
                            DValue::Record { values: Fields::of(fields), idx: 0 },
                        ),
                    ),
                    _ => false,
                }
            },
            ContinuationExpression::Select { location, value, variable, expression } => {
                match environment.denote(value) {
                    Some(DValue::Record { values, idx }) => match values.at(idx + location) {
                        Some(field) if idx + location <= usize::MAX => expression.asks(
                            environment.bound(variable, field),
                        ),
                        _ => false,
                    },
                    _ => false,
                }
            },
            ContinuationExpression::Offset { location, value, variable, expression } => {
                match environment.denote(value) {
                    Some(DValue::Record { values, idx }) => idx + location <= usize::MAX
                        && expression.asks(
                        environment.bound(
                            variable,
                            DValue::Record { values, idx: (idx + location) as usize },
                        ),
                    ),
                    _ => false,
                }
            },
            ContinuationExpression::Apply { function, arguments } => false,
            ContinuationExpression::Fix { function_defs, expression } => expression.asks(
                fixed(environment, function_defs),
            ),
            ContinuationExpression::Switch { value, arms } => {
                match environment.denote(value) {
                    Some(DValue::Integer(i)) => 0 <= i < arms.len() && arms[i as int].asks(
                        environment,
                    ),
                    _ => false,
                }
            },
            ContinuationExpression::PrimitiveOp { operation, values, variables, expressions } => {
                match environment.denote_all(values@) {
                    Some(operands) => operation.compares_allocations(operands),
                    None => false,
                }
            },
        }
    }

    /// Evaluation is determined by the expression and the environment,
    /// unless it ends in a comparison of two strings or two records.
    pub proof fn lemma_settled(&self, environment: &Environment)
        requires
            !self.asks(*environment),
        ensures
            self.denotation(*environment, true) == self.denotation(*environment, false),
        decreases *self,
    {
        match self {
            ContinuationExpression::Record { values, variable, expression } => {
                if let Resolution::Fields(fields) = resolve_all(values@, *environment) {
                    let record = DValue::Record { values: Fields::of(fields), idx: 0 };
                    let new_environment = environment.bound(*variable, record);
                    expression.lemma_settled(&new_environment);
                }
            },
            ContinuationExpression::Select { location, value, variable, expression } => {
                if let Some(DValue::Record { values, idx }) = environment.denote(*value) {
                    if let Some(field) = values.at(idx + *location) {
                        if idx + *location <= usize::MAX {
                            let new_environment = environment.bound(*variable, field);
                            expression.lemma_settled(&new_environment);
                        }
                    }
                }
            },
            ContinuationExpression::Offset { location, value, variable, expression } => {
                if let Some(DValue::Record { values, idx }) = environment.denote(*value) {
                    if idx + *location <= usize::MAX {
                        let shifted = DValue::Record { values, idx: (idx + *location) as usize };
                        let new_environment = environment.bound(*variable, shifted);
                        expression.lemma_settled(&new_environment);
                    }
                }
            },
            ContinuationExpression::Apply { function, arguments } => {},
            ContinuationExpression::Fix { function_defs, expression } => {
                let new_environment = fixed(*environment, *function_defs);
                expression.lemma_settled(&new_environment);
            },
            ContinuationExpression::Switch { value, arms } => {
                if let Some(DValue::Integer(i)) = environment.denote(*value) {
                    if 0 <= i < arms.len() {
                        arms[i as int].lemma_settled(environment);
                    }
                }
            },
            ContinuationExpression::PrimitiveOp { operation, values, variables, expressions } => {
                if let Some(operands) = environment.denote_all(values@) {
                    crate::primitive_op::lemma_latitude(
                        *operation,
                        operands,
                        arms_of(*environment, *variables, expressions@),
                        true,
                        false,
                    );
                }
            },
        }
    }

    /// Evaluates the expression in `environment`.
    ///
    /// The result is what [`ContinuationExpression::denotation`] gives for
    /// one of the two answers to the question of the allocation; where the
    /// two agree, it is what both give.
    pub fn evaluate(&self, environment: Environment) -> (r: Result<Answer, InternalException>)
        ensures
            exists|same: bool| agrees(r, #[trigger] self.denotation(environment, same)),
            self.denotation(environment, true) == self.denotation(environment, false) ==> agrees(
                r,
                self.denotation(environment, false),
            ),
        decreases self,
    {
        match self {
            ContinuationExpression::Record { values, variable, expression } => {
                // Convert each `Value` to a `DValue`, and resolve any access
                // paths to the value it ultimately points to.
                let mut d_values: DValueList = Vec::new();
                let mut i: usize = 0;
                while i < values.len()
                    invariant
                        i <= values.len(),
                        *self == (ContinuationExpression::Record {
                            values: *values,
                            variable: *variable,
                            expression: *expression,
                        }),
                        resolve_all(values@.take(i as int), environment) == Resolution::Fields(
                            d_values@,
                        ),
                    decreases values.len() - i,
                {
                    proof {
                        assert(values@.take(i + 1).drop_last() =~= values@.take(i as int));
                    }
                    let resolved = match environment.value_of(&values[i].0) {
                        None => Err(InternalException::Undefined),
                        Some(d_value) => Ok(resolve_field(d_value, share(&values[i].1))),
                    };
                    match resolved {
                        Ok(Ok(field)) => {
                            d_values.push(field);
                        },
                        Ok(Err(x)) => {
                            let r = Ok(x.as_answer());
                            proof {
                                lemma_resolution_fails(values@, environment, i + 1);
                                assert(agrees(r, self.denotation(environment, false)));
                            }
                            return r;
                        },
                        Err(e) => {
                            proof {
                                lemma_resolution_fails(values@, environment, i + 1);
                                assert(agrees(Err(e), self.denotation(environment, false)));
                            }
                            return Err(e);
                        },
                    }
                    i = i + 1;
                }
                proof {
                    assert(values@.take(i as int) =~= values@);
                }
                let record = DValue::Record { values: Fields::from_vec(&d_values), idx: 0 };
                let new_environment = environment.bind(variable.clone(), record);
                let r = expression.evaluate(new_environment);
                proof {
                    let same = choose|same: bool|
                        agrees(r, #[trigger] expression.denotation(new_environment, same));
                    assert(agrees(r, self.denotation(environment, same)));
                }
                r
            },
            ContinuationExpression::Select { location, value, variable, expression } => {
                match environment.value_of(value) {
                    None => {
                        assert(agrees(
                            Err(InternalException::Undefined),
                            self.denotation(environment, false),
                        ));
                        Err(InternalException::Undefined)
                    },
                    Some(DValue::Record { values, idx }) => {
                        let field = match idx.checked_add(*location) {
                            Some(place) => values.get(place),
                            None => None,
                        };
                        match field {
                            Some(field) => {
                                let new_environment = environment.bind(variable.clone(), field);
                                let r = expression.evaluate(new_environment);
                                proof {
                                    let same = choose|same: bool|
                                        agrees(
                                            r,
                                            #[trigger] expression.denotation(new_environment, same),
                                        );
                                    assert(agrees(r, self.denotation(environment, same)));
                                }
                                r
                            },
                            None => {
                                let r = Ok(Exception::InvalidAccess.as_answer());
                                assert(agrees(r, self.denotation(environment, false)));
                                r
                            },
                        }
                    },
                    Some(_) => {
                        let r = Ok(Exception::InvalidAccess.as_answer());
                        assert(agrees(r, self.denotation(environment, false)));
                        r
                    },
                }
            },
            ContinuationExpression::Offset { location, value, variable, expression } => {
                match environment.value_of(value) {
                    None => {
                        assert(agrees(
                            Err(InternalException::Undefined),
                            self.denotation(environment, false),
                        ));
                        Err(InternalException::Undefined)
                    },
                    Some(DValue::Record { values, idx }) => {
                        match idx.checked_add(*location) {
                            Some(shifted) => {
                                let bind_value = DValue::Record { values, idx: shifted };
                                let new_environment = environment.bind(
                                    variable.clone(),
                                    bind_value,
                                );
                                let r = expression.evaluate(new_environment);
                                proof {
                                    let same = choose|same: bool|
                                        agrees(
                                            r,
                                            #[trigger] expression.denotation(new_environment, same),
                                        );
                                    assert(agrees(r, self.denotation(environment, same)));
                                }
                                r
                            },
                            None => {
                                let r = Ok(Exception::InvalidAccess.as_answer());
                                assert(agrees(r, self.denotation(environment, false)));
                                r
                            },
                        }
                    },
                    Some(_) => {
                        let r = Ok(Exception::InvalidAccess.as_answer());
                        assert(agrees(r, self.denotation(environment, false)));
                        r
                    },
                }
            },
            ContinuationExpression::Apply { function, arguments } => {
                let r = match environment.value_of(function) {
                    None => Err(InternalException::Undefined),
                    Some(DValue::Function(denotable_function)) => {
                        match environment.values_of(arguments) {
                            None => Err(InternalException::Undefined),
                            Some(parameters) => Ok(denotable_function.call(parameters)),
                        }
                    },
                    Some(_) => Ok(Exception::Undefined.as_answer()),
                };
                assert(agrees(r, self.denotation(environment, false)));
                r
            },
            ContinuationExpression::Fix { function_defs, expression } => {
                let new_environment = fix(&environment, function_defs);
                let r = expression.evaluate(new_environment);
                proof {
                    let same = choose|same: bool|
                        agrees(r, #[trigger] expression.denotation(new_environment, same));
                    assert(agrees(r, self.denotation(environment, same)));
                }
                r
            },
            ContinuationExpression::Switch { value, arms } => {
                match environment.value_of(value) {
                    None => {
                        assert(agrees(
                            Err(InternalException::Undefined),
                            self.denotation(environment, false),
                        ));
                        Err(InternalException::Undefined)
                    },
                    Some(DValue::Integer(i)) => {
                        if 0 <= i && (i as u64) < arms.len() as u64 {
                            let arm = &arms[i as usize];
                            let r = arm.evaluate(environment);
                            proof {
                                let same = choose|same: bool|
                                    agrees(r, #[trigger] arm.denotation(environment, same));
                                assert(agrees(r, self.denotation(environment, same)));
                            }
                            r
                        } else {
                            let r = Ok(Exception::IndexOutOfBounds.as_answer());
                            assert(agrees(r, self.denotation(environment, false)));
                            r
                        }
                    },
                    Some(_) => {
                        let r = Ok(Exception::IndexOutOfBounds.as_answer());
                        assert(agrees(r, self.denotation(environment, false)));
                        r
                    },
                }
            },
            ContinuationExpression::PrimitiveOp { operation, values, variables, expressions } => {
                match environment.values_of(values) {
                    None => {
                        assert(agrees(
                            Err(InternalException::Undefined),
                            self.denotation(environment, false),
                        ));
                        Err(InternalException::Undefined)
                    },
                    Some(d_values) => {
                        let mut continuations: ContinuationList = Vec::new();
                        let mut i: usize = 0;
                        while i < expressions.len()
                            invariant
                                i <= expressions.len(),
                                continuations@ == arms_of(
                                    environment,
                                    *variables,
                                    expressions@.take(i as int),
                                ),
                            decreases expressions.len() - i,
                        {
                            let raw = RawContinuation::Arm {
                                environment: environment.clone(),
                                variables: share(variables),
                                body: share(&expressions[i]),
                            };
                            continuations.push(Continuation { f: Rc::new(raw) });
                            assert(continuations@ =~= arms_of(
                                environment,
                                *variables,
                                expressions@.take(i + 1),
                            ));
                            i = i + 1;
                        }
                        proof {
                            assert(expressions@.take(i as int) =~= expressions@);
                        }
                        let ghost operands = d_values@;
                        let r = operation.evaluate(d_values, continuations);
                        proof {
                            let same = choose|same: bool|
                                agrees(
                                    r,
                                    #[trigger] operation.denotation(
                                        operands,
                                        arms_of(environment, *variables, expressions@),
                                        same,
                                    ),
                                );
                            assert(agrees(r, self.denotation(environment, same)));
                        }
                        r
                    },
                }
            },
        }
    }
}

} // verus!

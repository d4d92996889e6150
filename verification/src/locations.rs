//! Locations in values: no value points beyond the store.
//!
//! A run of cells inside a value is only ever made by handing out fresh
//! locations, so it ends at or before the first unused location. This
//! module says so of every place where a value can be, and shows that
//! evaluation and the steps of the machine keep it that way.

use crate::continuation::{AnswerView, Continuation, RawContinuation};
use crate::continuation_expression::{
    arms_of, closure, fixed, fixed_upto, resolve_all, ContinuationExpression,
    RcFunctionDefinitionList, Resolution,
};
use crate::denotable_value::{resolve, AccessPath, DValue, Fields};
use crate::environment::{Bindings, Environment};
use crate::machine::{after, OutcomeView};
use crate::primitive_op::PrimitiveOp;
use crate::store::StoreView;
use crate::value::Value;
use crate::Variable;
use std::rc::Rc;
use vstd::prelude::*;

verus! {

/// Every run of cells in `value` ends at or before `bound`.
pub open spec fn value_within(value: DValue, bound: int) -> bool
    decreases value,
{
    match value {
        DValue::Record { values, idx } => fields_within(values, bound),
        DValue::ByteArray(range) => range.end <= bound,
        DValue::Array(range) => range.end <= bound,
        DValue::UnboxedArray(range) => range.end <= bound,
        DValue::Function(c) => raw_within(*c.f, bound),
        _ => true,
    }
}

/// Every run of cells in `fields` ends at or before `bound`.
pub open spec fn fields_within(fields: Fields, bound: int) -> bool
    decreases fields,
{
    match fields {
        Fields::End => true,
        Fields::Field(cell) => value_within(cell.head, bound) && fields_within(cell.tail, bound),
    }
}

/// Every run of cells in a value that `bindings` binds ends at or before `bound`.
pub open spec fn bindings_within(bindings: Bindings, bound: int) -> bool
    decreases bindings,
{
    match bindings {
        Bindings::Empty => true,
        Bindings::Bound(binding) => value_within(binding.value, bound) && bindings_within(
            binding.rest,
            bound,
        ),
    }
}

/// Every run of cells in what `raw` has captured ends at or before `bound`.
pub open spec fn raw_within(raw: RawContinuation, bound: int) -> bool
    decreases raw,
{
    match raw {
        RawContinuation::Defined { environment, definition, definitions } => bindings_within(
            environment.bindings,
            bound,
        ),
        RawContinuation::Arm { environment, variables, body } => bindings_within(
            environment.bindings,
            bound,
        ),
        RawContinuation::Host(_) => true,
        RawContinuation::Raise => true,
        RawContinuation::Subscript { start, index, next } => raw_within(*next.f, bound),
        RawContinuation::SubscriptUnboxed { start, index, next } => raw_within(*next.f, bound),
        RawContinuation::Update { start, index, value, next } => value_within(value, bound)
            && raw_within(*next.f, bound),
        RawContinuation::UpdateInteger { start, index, integer, next } => raw_within(
            *next.f,
            bound,
        ),
        RawContinuation::MakeRef { value, next } => value_within(value, bound) && raw_within(
            *next.f,
            bound,
        ),
        RawContinuation::MakeRefUnboxed { integer, next } => raw_within(*next.f, bound),
        RawContinuation::GetHandler { next } => raw_within(*next.f, bound),
        RawContinuation::SetHandler { handler, next } => value_within(handler, bound)
            && raw_within(*next.f, bound),
        RawContinuation::Real { operation, next } => raw_within(*next.f, bound),
    }
}

/// Every run of cells in one of `values` ends at or before `bound`.
pub open spec fn all_within(values: Seq<DValue>, bound: int) -> bool {
    forall|i: int| 0 <= i < values.len() ==> value_within(#[trigger] values[i], bound)
}

/// Every run of cells in what one of `conts` has captured ends at or before `bound`.
pub open spec fn conts_within(conts: Seq<Continuation>, bound: int) -> bool {
    forall|i: int| 0 <= i < conts.len() ==> raw_within(*(#[trigger] conts[i]).f, bound)
}

/// Every run of cells in `answer` ends at or before `bound`.
pub open spec fn answer_within(answer: AnswerView, bound: int) -> bool {
    raw_within(answer.f, bound) && all_within(answer.parameters, bound)
}

/// Every run of cells in a cell of `store` ends at or before the first
/// unused location of `store`.
pub open spec fn store_within(store: StoreView) -> bool {
    all_within(store.values, store.next_unused_address as int)
}

/// A bound can only grow.
pub proof fn lemma_value_grows(value: &DValue, bound: int, later: int)
    requires
        value_within(*value, bound),
        bound <= later,
    ensures
        value_within(*value, later),
    decreases *value,
{
    match value {
        DValue::Record { values, idx } => lemma_fields_grow(values, bound, later),
        DValue::Function(c) => lemma_raw_grows(&*c.f, bound, later),
        _ => {},
    }
}

/// A bound can only grow.
pub proof fn lemma_fields_grow(fields: &Fields, bound: int, later: int)
    requires
        fields_within(*fields, bound),
        bound <= later,
    ensures
        fields_within(*fields, later),
    decreases *fields,
{
    match fields {
        Fields::End => {},
        Fields::Field(cell) => {
            lemma_value_grows(&cell.head, bound, later);
            lemma_fields_grow(&cell.tail, bound, later);
        },
    }
}

/// A bound can only grow.
pub proof fn lemma_bindings_grow(bindings: &Bindings, bound: int, later: int)
    requires
        bindings_within(*bindings, bound),
        bound <= later,
    ensures
        bindings_within(*bindings, later),
    decreases *bindings,
{
    match bindings {
        Bindings::Empty => {},
        Bindings::Bound(binding) => {
            lemma_value_grows(&binding.value, bound, later);
            lemma_bindings_grow(&binding.rest, bound, later);
        },
    }
}

/// A bound can only grow.
pub proof fn lemma_raw_grows(raw: &RawContinuation, bound: int, later: int)
    requires
        raw_within(*raw, bound),
        bound <= later,
    ensures
        raw_within(*raw, later),
    decreases *raw,
{
    match raw {
        RawContinuation::Defined { environment, definition, definitions } => {
            lemma_bindings_grow(&environment.bindings, bound, later);
        },
        RawContinuation::Arm { environment, variables, body } => {
            lemma_bindings_grow(&environment.bindings, bound, later);
        },
        RawContinuation::Host(_) => {},
        RawContinuation::Raise => {},
        RawContinuation::Subscript { start, index, next } => {
            lemma_raw_grows(&*next.f, bound, later);
        },
        RawContinuation::SubscriptUnboxed { start, index, next } => {
            lemma_raw_grows(&*next.f, bound, later);
        },
        RawContinuation::Update { start, index, value, next } => {
            lemma_value_grows(value, bound, later);
            lemma_raw_grows(&*next.f, bound, later);
        },
        RawContinuation::UpdateInteger { start, index, integer, next } => {
            lemma_raw_grows(&*next.f, bound, later);
        },
        RawContinuation::MakeRef { value, next } => {
            lemma_value_grows(value, bound, later);
            lemma_raw_grows(&*next.f, bound, later);
        },
        RawContinuation::MakeRefUnboxed { integer, next } => {
            lemma_raw_grows(&*next.f, bound, later);
        },
        RawContinuation::GetHandler { next } => {
            lemma_raw_grows(&*next.f, bound, later);
        },
        RawContinuation::SetHandler { handler, next } => {
            lemma_value_grows(handler, bound, later);
            lemma_raw_grows(&*next.f, bound, later);
        },
        RawContinuation::Real { operation, next } => {
            lemma_raw_grows(&*next.f, bound, later);
        },
    }
}

/// What a name is bound to lies within the bound of the bindings.
pub proof fn lemma_lookup_within(bindings: &Bindings, name: Seq<char>, bound: int)
    requires
        bindings_within(*bindings, bound),
    ensures
        match bindings.lookup(name) {
            Some(found) => value_within(found, bound),
            None => true,
        },
    decreases *bindings,
{
    match bindings {
        Bindings::Empty => {},
        Bindings::Bound(binding) => {
            lemma_lookup_within(&binding.rest, name, bound);
        },
    }
}

/// The fields of a record lie within the bound of the record.
pub proof fn lemma_field_within(fields: &Fields, index: int, bound: int)
    requires
        fields_within(*fields, bound),
    ensures
        match fields.at(index) {
            Some(field) => value_within(field, bound),
            None => true,
        },
    decreases *fields,
{
    match fields {
        Fields::End => {},
        Fields::Field(cell) => {
            lemma_field_within(&cell.tail, index - 1, bound);
            assert(fields@ == seq![cell.head] + cell.tail@);
            if index == 0 {
                assert(fields@[0] == cell.head);
            } else if 0 < index < fields@.len() {
                assert(fields@[index] == cell.tail@[index - 1]);
            }
        },
    }
}

/// A record made of values within a bound lies within that bound.
pub proof fn lemma_record_within(values: Seq<DValue>, bound: int)
    requires
        all_within(values, bound),
    ensures
        fields_within(Fields::of(values), bound),
    decreases values.len(),
{
    if values.len() > 0 {
        assert(value_within(values[0], bound));
        assert forall|i: int| 0 <= i < values.skip(1).len() implies value_within(
            #[trigger] values.skip(1)[i],
            bound,
        ) by {
            assert(values.skip(1)[i] == values[i + 1]);
        }
        lemma_record_within(values.skip(1), bound);
    }
}

/// Binding values within a bound keeps an environment within that bound.
pub proof fn lemma_bound_all_within(
    environment: &Environment,
    variables: Seq<Variable>,
    values: Seq<DValue>,
    bound: int,
)
    requires
        bindings_within(environment.bindings, bound),
        all_within(values, bound),
    ensures
        bindings_within(environment.bound_all(variables, values).bindings, bound),
    decreases variables.len(),
{
    if variables.len() > 0 && values.len() > 0 {
        assert forall|i: int| 0 <= i < values.drop_last().len() implies value_within(
            #[trigger] values.drop_last()[i],
            bound,
        ) by {
            assert(values.drop_last()[i] == values[i]);
        }
        lemma_bound_all_within(environment, variables.drop_last(), values.drop_last(), bound);
        assert(value_within(values[values.len() - 1], bound));
    }
}

/// Binding the functions of a `Fix` keeps an environment within its bound.
pub proof fn lemma_fixed_within(
    environment: &Environment,
    definitions: &RcFunctionDefinitionList,
    n: nat,
    bound: int,
)
    requires
        bindings_within(environment.bindings, bound),
    ensures
        bindings_within(fixed_upto(*environment, *definitions, n).bindings, bound),
    decreases n,
{
    if n > 0 {
        lemma_fixed_within(environment, definitions, (n - 1) as nat, bound);
        let value = closure(*environment, *definitions, n - 1);
        assert(value matches DValue::Function(c) && raw_within(*c.f, bound));
        assert(value_within(value, bound));
    }
}

/// Binding a value within a bound keeps an environment within that bound.
pub proof fn lemma_bound_within(
    environment: &Environment,
    variable: Variable,
    value: DValue,
    bound: int,
)
    requires
        bindings_within(environment.bindings, bound),
        value_within(value, bound),
    ensures
        bindings_within(environment.bound(variable, value).bindings, bound),
{
    assert(bindings_within(environment.extended(variable, value).bindings, bound));
}

/// What an atomic value denotes lies within the bound of the environment.
pub proof fn lemma_denote_within(environment: &Environment, value: &Value, bound: int)
    requires
        bindings_within(environment.bindings, bound),
    ensures
        match environment.denote(*value) {
            Some(found) => value_within(found, bound),
            None => true,
        },
{
    match value {
        Value::Variable(v) => lemma_lookup_within(&environment.bindings, v@, bound),
        Value::Label(v) => lemma_lookup_within(&environment.bindings, v@, bound),
        _ => {},
    }
}

/// What atomic values denote lies within the bound of the environment.
pub proof fn lemma_denote_all_within(environment: &Environment, values: Seq<Value>, bound: int)
    requires
        bindings_within(environment.bindings, bound),
    ensures
        match environment.denote_all(values) {
            Some(found) => all_within(found, bound),
            None => true,
        },
{
    if let Some(found) = environment.denote_all(values) {
        assert forall|i: int| 0 <= i < found.len() implies value_within(
            #[trigger] found[i],
            bound,
        ) by {
            let value = values[i];
            lemma_denote_within(environment, &value, bound);
        }
    }
}

/// A walk from a value within a bound ends at a value within that bound.
pub proof fn lemma_resolve_within(value: &DValue, path: &AccessPath, bound: int)
    requires
        value_within(*value, bound),
    ensures
        match resolve(*value, *path) {
            Ok(found) => value_within(found, bound),
            Err(_) => true,
        },
    decreases *path,
{
    match path {
        AccessPath::Offset(_) => {},
        AccessPath::Select { offset, access_path } => {
            if let DValue::Record { values, idx } = value {
                lemma_field_within(values, *idx + *offset, bound);
                if let Some(field) = values.at(*idx + *offset) {
                    lemma_resolve_within(&field, &**access_path, bound);
                }
            }
        },
    }
}

/// The fields of a record under construction lie within the bound of the
/// environment.
pub proof fn lemma_resolve_all_within(
    pairs: Seq<(Value, Rc<AccessPath>)>,
    environment: &Environment,
    bound: int,
)
    requires
        bindings_within(environment.bindings, bound),
    ensures
        match resolve_all(pairs, *environment) {
            Resolution::Fields(fields) => all_within(fields, bound),
            _ => true,
        },
    decreases pairs.len(),
{
    if pairs.len() > 0 {
        lemma_resolve_all_within(pairs.drop_last(), environment, bound);
        let value = pairs.last().0;
        lemma_denote_within(environment, &value, bound);
        if let Some(d) = environment.denote(value) {
            let path = *pairs.last().1;
            lemma_resolve_within(&d, &path, bound);
        }
    }
}

/// An operation on operands and continuations within a bound gives an
/// answer within that bound.
pub proof fn lemma_primitive_within(
    operation: PrimitiveOp,
    p: Seq<DValue>,
    c: Seq<Continuation>,
    same: bool,
    bound: int,
)
    requires
        all_within(p, bound),
        conts_within(c, bound),
    ensures
        match operation.denotation(p, c, same) {
            Ok(answer) => answer_within(answer, bound),
            Err(_) => true,
        },
{
    if p.len() > 0 {
        if let DValue::Record { values, idx } = p[0] {
            if operation == PrimitiveOp::Bang {
                lemma_field_within(&values, idx + 0, bound);
            }
            if p.len() > 1 {
                if let DValue::Integer(n) = p[1] {
                    lemma_field_within(&values, idx + n, bound);
                }
            }
        }
    }
}

/// An expression evaluated in an environment within a bound gives an
/// answer within that bound.
pub proof fn lemma_denotation_within(
    expression: &ContinuationExpression,
    environment: &Environment,
    same: bool,
    bound: int,
)
    requires
        bindings_within(environment.bindings, bound),
    ensures
        match expression.denotation(*environment, same) {
            Ok(answer) => answer_within(answer, bound),
            Err(_) => true,
        },
    decreases *expression,
{
    match expression {
        ContinuationExpression::Record { values, variable, expression: rest } => {
            lemma_resolve_all_within(values@, environment, bound);
            if let Resolution::Fields(fields) = resolve_all(values@, *environment) {
                lemma_record_within(fields, bound);
                let record = DValue::Record { values: Fields::of(fields), idx: 0 };
                let new_environment = environment.bound(*variable, record);
                assert(value_within(record, bound));
                lemma_bound_within(environment, *variable, record, bound);
                lemma_denotation_within(&**rest, &new_environment, same, bound);
            }
        },
        ContinuationExpression::Select { location, value, variable, expression: rest } => {
            lemma_denote_within(environment, value, bound);
            if let Some(DValue::Record { values, idx }) = environment.denote(*value) {
                lemma_field_within(&values, idx + *location, bound);
                if let Some(field) = values.at(idx + *location) {
                    let new_environment = environment.bound(*variable, field);
                    lemma_bound_within(environment, *variable, field, bound);
                    lemma_denotation_within(&**rest, &new_environment, same, bound);
                }
            }
        },
        ContinuationExpression::Offset { location, value, variable, expression: rest } => {
            lemma_denote_within(environment, value, bound);
            if let Some(DValue::Record { values, idx }) = environment.denote(*value) {
                if idx + *location <= usize::MAX {
                    let shifted = DValue::Record { values, idx: (idx + *location) as usize };
                    let new_environment = environment.bound(*variable, shifted);
                    assert(value_within(DValue::Record { values, idx }, bound));
                    assert(value_within(shifted, bound));
                    lemma_bound_within(environment, *variable, shifted, bound);
                    lemma_denotation_within(&**rest, &new_environment, same, bound);
                }
            }
        },
        ContinuationExpression::Apply { function, arguments } => {
            lemma_denote_within(environment, function, bound);
            lemma_denote_all_within(environment, arguments@, bound);
        },
        ContinuationExpression::Fix { function_defs, expression: rest } => {
            lemma_fixed_within(environment, function_defs, function_defs@.len(), bound);
            let new_environment = fixed(*environment, *function_defs);
            lemma_denotation_within(&**rest, &new_environment, same, bound);
        },
        ContinuationExpression::Switch { value, arms } => {
            if let Some(DValue::Integer(i)) = environment.denote(*value) {
                if 0 <= i < arms.len() {
                    lemma_denotation_within(&*arms[i as int], environment, same, bound);
                }
            }
        },
        ContinuationExpression::PrimitiveOp { operation, values, variables, expressions } => {
            lemma_denote_all_within(environment, values@, bound);
            if let Some(operands) = environment.denote_all(values@) {
                lemma_primitive_within(
                    *operation,
                    operands,
                    arms_of(*environment, *variables, expressions@),
                    same,
                    bound,
                );
            }
        },
    }
}

/// Evaluation begins within the store: an expression evaluated with names
/// bound to values within a bound gives an answer within that bound.
pub proof fn lemma_start_within(
    variables: Seq<Variable>,
    values: Seq<DValue>,
    expression: &ContinuationExpression,
    same: bool,
    bound: int,
)
    requires
        all_within(values, bound),
    ensures
        match expression.denotation(crate::initial(variables, values), same) {
            Ok(answer) => answer_within(answer, bound),
            Err(_) => true,
        },
{
    let empty = Environment { bindings: Bindings::Empty };
    lemma_bound_all_within(&empty, variables, values, bound);
    let environment = empty.bound_all(variables, values);
    lemma_denotation_within(expression, &environment, same, bound);
}

/// Every run of cells in `outcome`, be it in what the outcome hands over
/// or in a cell of its store, ends at or before the first unused location
/// of its store.
pub open spec fn outcome_within(outcome: OutcomeView) -> bool {
    match outcome {
        OutcomeView::Continue { answer, store } => answer_within(
            answer,
            store.next_unused_address as int,
        ) && store_within(store),
        OutcomeView::Host { function, parameters, store } => all_within(
            parameters,
            store.next_unused_address as int,
        ) && store_within(store),
        OutcomeView::Real { operation, left, right, next, store } => raw_within(
            *next.f,
            store.next_unused_address as int,
        ) && store_within(store),
        OutcomeView::Abort(_) => true,
    }
}

/// A step of the machine keeps every value within the store: if no value
/// in the answer or in a cell of the store points beyond the first unused
/// location, then none does after the step.
pub proof fn lemma_step_within(answer: AnswerView, store: StoreView, same: bool)
    requires
        answer_within(answer, store.next_unused_address as int),
        store_within(store),
    ensures
        outcome_within(answer.step(store, same)),
{
    let bound = store.next_unused_address as int;
    match answer.f {
        RawContinuation::Defined { environment, definition, definitions } => {
            lemma_fixed_within(&environment, &definitions, definitions@.len(), bound);
            let outer = fixed(environment, definitions);
            lemma_bound_all_within(
                &outer,
                definition.formal_parameters@,
                answer.parameters,
                bound,
            );
            let inner = outer.bound_all(definition.formal_parameters@, answer.parameters);
            lemma_denotation_within(&definition.body, &inner, same, bound);
        },
        RawContinuation::Arm { environment, variables, body } => {
            lemma_bound_all_within(&environment, variables@, answer.parameters, bound);
            let inner = environment.bound_all(variables@, answer.parameters);
            lemma_denotation_within(&*body, &inner, same, bound);
        },
        RawContinuation::Raise => {
            if store.exception_handler < store.values.len() {
                assert(value_within(store.values[store.exception_handler as int], bound));
            }
        },
        RawContinuation::GetHandler { next } => {
            if store.exception_handler < store.values.len() {
                assert(value_within(store.values[store.exception_handler as int], bound));
            }
        },
        RawContinuation::Subscript { start, index, next } => {
            if 0 <= start + index < store.values.len() {
                assert(value_within(store.values[start + index], bound));
            }
        },
        RawContinuation::MakeRef { value, next } => {
            if bound + 1 <= usize::MAX {
                lemma_value_grows(&value, bound, bound + 1);
                lemma_raw_grows(&*next.f, bound, bound + 1);
                let later = store.allocated(1).updated(bound, value);
                assert forall|i: int| 0 <= i < later.values.len() implies value_within(
                    #[trigger] later.values[i],
                    bound + 1,
                ) by {
                    if i < store.values.len() && i != bound {
                        let old = store.values[i];
                        assert(value_within(old, bound));
                        lemma_value_grows(&old, bound, bound + 1);
                    }
                }
            }
        },
        RawContinuation::MakeRefUnboxed { integer, next } => {
            if bound + 1 <= usize::MAX {
                lemma_raw_grows(&*next.f, bound, bound + 1);
                let later = store.allocated(1).updated_integer(bound, integer);
                assert forall|i: int| 0 <= i < later.values.len() implies value_within(
                    #[trigger] later.values[i],
                    bound + 1,
                ) by {
                    if i < store.values.len() {
                        let old = store.values[i];
                        assert(value_within(old, bound));
                        lemma_value_grows(&old, bound, bound + 1);
                    }
                }
            }
        },
        _ => {},
    }
}

/// However long the machine runs, no value comes to point beyond the
/// store: what holds of the first answer and store holds of every state
/// that the machine reaches from them.
pub proof fn lemma_run_within(start: OutcomeView, oracle: Seq<bool>, n: nat)
    requires
        outcome_within(start),
    ensures
        outcome_within(after(start, oracle, n)),
    decreases n,
{
    if n > 0 {
        lemma_run_within(start, oracle, (n - 1) as nat);
        if let OutcomeView::Continue { answer, store } = after(start, oracle, (n - 1) as nat) {
            lemma_step_within(answer, store, oracle[n - 1]);
        }
    }
}

} // verus!

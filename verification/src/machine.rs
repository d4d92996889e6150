//! The machine: what an answer does once it is given a store.
//!
//! Applying an [`Answer`] to a [`Store`] takes evaluation one step further
//! and yields an [`Outcome`]: the next answer and store, or a reason to stop.
//! The host drives the machine by applying answers until it stops. Two of
//! the outcomes ask the host for something: a function of the host was
//! called, or arithmetic on reals is due.

use crate::continuation::{Answer, AnswerView, Continuation, RawContinuation};
use crate::continuation_expression::{fix, fixed};
use crate::denotable_value::{DValue, DValueList};
use crate::exception::InternalException;
use crate::primitive_op::{next_location, PrimitiveOp};
use crate::reals::Real;
use crate::store::{Store, StoreView};
use crate::{Integer, Location};
use std::ops::Range;
use vstd::prelude::*;

verus! {

/// What one step of the machine leads to.
#[derive(Debug)]
pub enum Outcome {
    /// Evaluation goes on with this answer and this store.
    Continue { answer: Answer, store: Store },
    /// The program called function `function` of the host with `parameters`.
    Host { function: u64, parameters: DValueList, store: Store },
    /// The program asks for `operation` on the reals `left` and `right`.
    /// The result is to be passed to `next`.
    Real { operation: PrimitiveOp, left: Real, right: Real, next: Continuation, store: Store },
    /// The interpreter cannot go on.
    Abort(InternalException),
}

/// An [`Outcome`] as a mathematical value.
pub ghost enum OutcomeView {
    Continue { answer: AnswerView, store: StoreView },
    Host { function: u64, parameters: Seq<DValue>, store: StoreView },
    Real { operation: PrimitiveOp, left: Real, right: Real, next: Continuation, store: StoreView },
    Abort(InternalException),
}

impl View for Outcome {
    type V = OutcomeView;

    open spec fn view(&self) -> OutcomeView {
        match *self {
            Outcome::Continue { answer, store } => OutcomeView::Continue {
                answer: answer@,
                store: store@,
            },
            Outcome::Host { function, parameters, store } => OutcomeView::Host {
                function,
                parameters: parameters@,
                store: store@,
            },
            Outcome::Real { operation, left, right, next, store } => OutcomeView::Real {
                operation,
                left,
                right,
                next,
                store: store@,
            },
            Outcome::Abort(e) => OutcomeView::Abort(e),
        }
    }
}

impl OutcomeView {
    /// The store that the outcome carries, if it carries one.
    pub open spec fn store(self) -> Option<StoreView> {
        match self {
            OutcomeView::Continue { store, .. } => Some(store),
            OutcomeView::Host { store, .. } => Some(store),
            OutcomeView::Real { store, .. } => Some(store),
            OutcomeView::Abort(_) => None,
        }
    }
}

/// Evaluation goes on with what an expression denotes, or stops with its fault.
pub open spec fn proceed(
    denoted: Result<AnswerView, InternalException>,
    store: StoreView,
) -> OutcomeView {
    match denoted {
        Ok(answer) => OutcomeView::Continue { answer, store },
        Err(e) => OutcomeView::Abort(e),
    }
}

/// The array of the one location `at`.
pub open spec fn cell(at: Location) -> DValue {
    DValue::Array(Range { start: at, end: (at + 1) as usize })
}

impl AnswerView {
    /// One step of the machine: what this answer leads to in `store`.
    /// `same` answers the question whether two operands of `ieql` or
    /// `ineq` were found in one allocation, should the step ask it.
    ///
    /// A function defined by the program binds its parameters and evaluates
    /// its body. An operation on the store reads or writes its location and
    /// goes on with its continuation. A raised exception goes to the
    /// handler. A function of the host, and arithmetic on reals, stop the
    /// machine and ask the host. The machine aborts on a list of parameters
    /// of the wrong length, a location that the store does not have, a
    /// handler cell without a function, and a fault of the body.
    pub open spec fn step(self, store: StoreView, same: bool) -> OutcomeView {
        let fault = OutcomeView::Abort(InternalException::Undefined);
        let arity = OutcomeView::Abort(InternalException::WrongNumberOfParameters);
        match self.f {
            RawContinuation::Defined { environment, definition, definitions } => {
                if definition.formal_parameters@.len() != self.parameters.len() {
                    arity
                } else {
                    proceed(
                        definition.body.denotation(
                            fixed(environment, definitions).bound_all(
                                definition.formal_parameters@,
                                self.parameters,
                            ),
                            same,
                        ),
                        store,
                    )
                }
            },
            RawContinuation::Arm { environment, variables, body } => {
                if variables@.len() != self.parameters.len() {
                    arity
                } else {
                    proceed(
                        body.denotation(environment.bound_all(variables@, self.parameters), same),
                        store,
                    )
                }
            },
            RawContinuation::Host(function) => OutcomeView::Host {
                function,
                parameters: self.parameters,
                store,
            },
            RawContinuation::Raise => {
                if self.parameters.len() == 1 {
                    match (self.parameters[0], store.handler()) {
                        (DValue::Exception(_), Some(handler)) => OutcomeView::Continue {
                            answer: handler.applied(self.parameters),
                            store,
                        },
                        _ => fault,
                    }
                } else {
                    fault
                }
            },
            RawContinuation::Subscript { start, index, next } => {
                if 0 <= start + index < store.values.len() {
                    OutcomeView::Continue {
                        answer: next.applied(seq![store.values[start + index]]),
                        store,
                    }
                } else {
                    fault
                }
            },
            RawContinuation::SubscriptUnboxed { start, index, next } => {
                if 0 <= start + index < store.integer_values.len() {
                    OutcomeView::Continue {
                        answer: next.applied(
                            seq![DValue::Integer(store.integer_values[start + index])],
                        ),
                        store,
                    }
                } else {
                    fault
                }
            },
            RawContinuation::Update { start, index, value, next } => {
                if store.accepts(start + index, value) {
                    OutcomeView::Continue {
                        answer: next.applied(Seq::empty()),
                        store: store.updated(start + index, value),
                    }
                } else {
                    fault
                }
            },
            RawContinuation::UpdateInteger { start, index, integer, next } => {
                if 0 <= start + index < store.integer_values.len() {
                    OutcomeView::Continue {
                        answer: next.applied(Seq::empty()),
                        store: store.updated_integer(start + index, integer),
                    }
                } else {
                    fault
                }
            },
            RawContinuation::MakeRef { value, next } => {
                if store.next_unused_address + 1 <= usize::MAX {
                    OutcomeView::Continue {
                        answer: next.applied(seq![cell(store.next_unused_address)]),
                        store: store.allocated(1).updated(store.next_unused_address as int, value),
                    }
                } else {
                    fault
                }
            },
            RawContinuation::MakeRefUnboxed { integer, next } => {
                if store.next_unused_address + 1 <= usize::MAX {
                    OutcomeView::Continue {
                        answer: next.applied(seq![cell(store.next_unused_address)]),
                        store: store.allocated(1).updated_integer(
                            store.next_unused_address as int,
                            integer,
                        ),
                    }
                } else {
                    fault
                }
            },
            RawContinuation::GetHandler { next } => {
                match store.handler() {
                    Some(handler) => OutcomeView::Continue {
                        answer: next.applied(seq![DValue::Function(handler)]),
                        store,
                    },
                    None => fault,
                }
            },
            RawContinuation::SetHandler { handler, next } => {
                if store.accepts(store.exception_handler as int, handler) {
                    OutcomeView::Continue {
                        answer: next.applied(Seq::empty()),
                        store: store.updated(store.exception_handler as int, handler),
                    }
                } else {
                    fault
                }
            },
            RawContinuation::Real { operation, next } => {
                if self.parameters.len() == 2 {
                    match (self.parameters[0], self.parameters[1]) {
                        (DValue::Real(left), DValue::Real(right)) => OutcomeView::Real {
                            operation,
                            left,
                            right,
                            next,
                            store,
                        },
                        _ => fault,
                    }
                } else {
                    fault
                }
            },
        }
    }

    /// Whether the step that this answer takes ends in a comparison of two
    /// strings or two records, whose outcome depends on their allocations.
    pub open spec fn asks(self) -> bool {
        match self.f {
            RawContinuation::Defined { environment, definition, definitions } => {
                definition.formal_parameters@.len() == self.parameters.len()
                    && definition.body.asks(
                    fixed(environment, definitions).bound_all(
                        definition.formal_parameters@,
                        self.parameters,
                    ),
                )
            },
            RawContinuation::Arm { environment, variables, body } => {
                variables@.len() == self.parameters.len() && body.asks(
                    environment.bound_all(variables@, self.parameters),
                )
            },
            _ => false,
        }
    }

    /// Whether this answer, given `store`, writes something other than a
    /// function to the cell of the exception handler.
    pub open spec fn spoils_handler(self, store: StoreView) -> bool {
        match self.f {
            RawContinuation::Update { start, index, value, next } => start + index
                == store.exception_handler && !(value is Function),
            RawContinuation::MakeRef { value, next } => store.next_unused_address
                == store.exception_handler && !(value is Function),
            RawContinuation::SetHandler { handler, next } => !(handler is Function),
            _ => false,
        }
    }
}

/// Where the machine is after `n` steps from `start`, if the questions of
/// the allocation are answered by `oracle` in turn. Once the machine has
/// stopped, further steps change nothing.
pub open spec fn after(start: OutcomeView, oracle: Seq<bool>, n: nat) -> OutcomeView
    decreases n,
{
    if n == 0 {
        start
    } else {
        match after(start, oracle, (n - 1) as nat) {
            OutcomeView::Continue { answer, store } => answer.step(store, oracle[n - 1]),
            stopped => stopped,
        }
    }
}

/// The first `n` steps depend on the first `n` answers of the oracle only.
pub proof fn lemma_after_prefix(start: OutcomeView, oracle: Seq<bool>, more: bool, n: nat)
    requires
        n <= oracle.len(),
    ensures
        after(start, oracle.push(more), n) == after(start, oracle, n),
    decreases n,
{
    if n > 0 {
        lemma_after_prefix(start, oracle, more, (n - 1) as nat);
        assert(oracle.push(more)[n - 1] == oracle[n - 1]);
    }
}

/// However long the machine runs, its store stays in order: locations are
/// only ever handed out, and every location handed out has its two cells.
pub proof fn lemma_run_keeps_store(
    answer: AnswerView,
    store: StoreView,
    oracle: Seq<bool>,
    n: nat,
)
    requires
        store.ordered(),
    ensures
        match after(OutcomeView::Continue { answer, store }, oracle, n).store() {
            Some(later) => store.precedes(later) && later.ordered(),
            None => true,
        },
    decreases n,
{
    if n > 0 {
        lemma_run_keeps_store(answer, store, oracle, (n - 1) as nat);
    }
}

/// A step of the machine is determined by the answer and the store, unless
/// it ends in a comparison of two strings or two records.
pub proof fn lemma_step_settled(answer: AnswerView, store: StoreView)
    requires
        !answer.asks(),
    ensures
        answer.step(store, true) == answer.step(store, false),
{
    match answer.f {
        RawContinuation::Defined { environment, definition, definitions } => {
            if definition.formal_parameters@.len() == answer.parameters.len() {
                let inner = fixed(environment, definitions).bound_all(
                    definition.formal_parameters@,
                    answer.parameters,
                );
                definition.body.lemma_settled(&inner);
            }
        },
        RawContinuation::Arm { environment, variables, body } => {
            if variables@.len() == answer.parameters.len() {
                let inner = environment.bound_all(variables@, answer.parameters);
                body.lemma_settled(&inner);
            }
        },
        _ => {},
    }
}

/// A step of the machine keeps the store in order: locations are only ever
/// handed out, never taken back; every location handed out has its two
/// cells; and the handler cell holds a function for as long as the program
/// writes nothing else to that very cell.
pub proof fn lemma_step_keeps_store(answer: AnswerView, store: StoreView, same: bool)
    requires
        store.wf(),
    ensures
        match answer.step(store, same).store() {
            Some(later) => {
                &&& store.precedes(later)
                &&& later.ordered()
                &&& !answer.spoils_handler(store) ==> later.wf()
            },
            None => true,
        },
{
}

fn location(start: Location, index: Integer, limit: usize) -> (r: Option<Location>)
    ensures
        r == if 0 <= start + index < limit {
            Some((start + index) as usize)
        } else {
            None::<Location>
        },
{
    let place: i128 = start as i128 + index as i128;
    if 0 <= place && place < limit as i128 {
        Some(place as usize)
    } else {
        None
    }
}

fn single(value: DValue) -> (r: DValueList)
    ensures
        r@ == seq![value],
{
    let mut parameters = Vec::new();
    parameters.push(value);
    assert(parameters@ =~= seq![value]);
    parameters
}

/// Applies answers to stores until the machine stops, but for `fuel` steps
/// at most.
///
/// The outcome is where the machine is after some number of steps, and
/// the machine has stopped there unless the fuel is used up.
pub fn run(answer: Answer, store: Store, fuel: usize) -> (r: Outcome)
    ensures
        exists|oracle: Seq<bool>, n: nat|
            n <= fuel && r@ == #[trigger] after(
                OutcomeView::Continue { answer: answer@, store: store@ },
                oracle,
                n,
            ) && (r@ is Continue ==> n == fuel),
{
    let ghost start = OutcomeView::Continue { answer: answer@, store: store@ };
    let ghost mut oracle = Seq::<bool>::empty();
    let mut current = Outcome::Continue { answer, store };
    let mut i: usize = 0;
    while i < fuel
        invariant
            i <= fuel,
            oracle.len() == i,
            start == (OutcomeView::Continue { answer: answer@, store: store@ }),
            current@ == after(start, oracle, i as nat),
            current@ is Continue,
        decreases fuel - i,
    {
        match current {
            Outcome::Continue { answer: waiting, store: held } => {
                let ghost before = waiting@;
                let ghost cells = held@;
                let next = waiting.call(held);
                proof {
                    let same = choose|same: bool| next@ == #[trigger] before.step(cells, same);
                    lemma_after_prefix(start, oracle, same, i as nat);
                    oracle = oracle.push(same);
                    assert(next@ == after(start, oracle, (i + 1) as nat));
                }
                i = i + 1;
                if let Outcome::Continue { .. } = &next {
                    current = next;
                } else {
                    assert(next@ == after(start, oracle, i as nat) && !(next@ is Continue));
                    return next;
                }
            },
            stopped => {
                return stopped;
            },
        }
    }
    assert(current@ == after(start, oracle, fuel as nat));
    current
}

impl Answer {
    /// Applies the answer to a store: one step of the machine.
    ///
    /// The outcome is what [`AnswerView::step`] gives for one of the two
    /// answers to the question of the allocation; where the two agree, it
    /// is what both give.
    pub fn call(self, store: Store) -> (r: Outcome)
        ensures
            exists|same: bool| r@ == #[trigger] self@.step(store@, same),
            self@.step(store@, true) == self@.step(store@, false) ==> r@ == self@.step(
                store@,
                false,
            ),
    {
        let ghost before = self@;
        let ghost held = store@;
        let fault = Outcome::Abort(InternalException::Undefined);
        let r = match &*self.f {
            RawContinuation::Defined { environment, definition, definitions } => {
                if definition.formal_parameters.len() != self.parameters.len() {
                    Outcome::Abort(InternalException::WrongNumberOfParameters)
                } else {
                    let new_environment = fix(environment, definitions).bindn(
                        &definition.formal_parameters,
                        &self.parameters,
                    );
                    let denoted = definition.body.evaluate(new_environment);
                    proof {
                        let same = choose|same: bool|
                            crate::primitive_op::agrees(
                                denoted,
                                #[trigger] definition.body.denotation(new_environment, same),
                            );
                        assert(proceed(definition.body.denotation(new_environment, same), held)
                            == before.step(held, same));
                    }
                    match denoted {
                        Ok(answer) => Outcome::Continue { answer, store },
                        Err(e) => Outcome::Abort(e),
                    }
                }
            },
            RawContinuation::Arm { environment, variables, body } => {
                if variables.len() != self.parameters.len() {
                    Outcome::Abort(InternalException::WrongNumberOfParameters)
                } else {
                    let new_environment = environment.bindn(variables, &self.parameters);
                    let denoted = body.evaluate(new_environment);
                    proof {
                        let same = choose|same: bool|
                            crate::primitive_op::agrees(
                                denoted,
                                #[trigger] body.denotation(new_environment, same),
                            );
                        assert(proceed(body.denotation(new_environment, same), held)
                            == before.step(held, same));
                    }
                    match denoted {
                        Ok(answer) => Outcome::Continue { answer, store },
                        Err(e) => Outcome::Abort(e),
                    }
                }
            },
            RawContinuation::Host(function) => Outcome::Host {
                function: *function,
                parameters: self.parameters,
                store,
            },
            RawContinuation::Raise => {
                if self.parameters.len() == 1 {
                    match (&self.parameters[0], store.handler()) {
                        (DValue::Exception(_), Some(handler)) => Outcome::Continue {
                            answer: handler.call(self.parameters),
                            store,
                        },
                        _ => fault,
                    }
                } else {
                    fault
                }
            },
            RawContinuation::Subscript { start, index, next } => {
                match location(*start, *index, store.values.len()) {
                    Some(at) => {
                        let found = store.fetch(at).clone();
                        Outcome::Continue { answer: next.call(single(found)), store }
                    },
                    None => fault,
                }
            },
            RawContinuation::SubscriptUnboxed { start, index, next } => {
                match location(*start, *index, store.integer_values.len()) {
                    Some(at) => {
                        let found = store.fetch_integer(at);
                        Outcome::Continue { answer: next.call(single(found)), store }
                    },
                    None => fault,
                }
            },
            RawContinuation::Update { start, index, value, next } => {
                match location(*start, *index, store.values.len()) {
                    Some(at) => {
                        if store.accepts(at, value) {
                            let new_store = store.update(at, value.clone());
                            Outcome::Continue { answer: next.call(Vec::new()), store: new_store }
                        } else {
                            fault
                        }
                    },
                    None => fault,
                }
            },
            RawContinuation::UpdateInteger { start, index, integer, next } => {
                match location(*start, *index, store.integer_values.len()) {
                    Some(at) => {
                        let new_store = store.update_integer(at, *integer);
                        Outcome::Continue { answer: next.call(Vec::new()), store: new_store }
                    },
                    None => fault,
                }
            },
            RawContinuation::MakeRef { value, next } => {
                let last_address = store.next_unused_address;
                match (next_location(last_address), store.allocate(1)) {
                    (Some(next_address), Some((grown, _))) => {
                        let new_store = grown.update(last_address, value.clone());
                        Outcome::Continue {
                            answer: next.call(single(DValue::Array(last_address..next_address))),
                            store: new_store,
                        }
                    },
                    _ => fault,
                }
            },
            RawContinuation::MakeRefUnboxed { integer, next } => {
                let last_address = store.next_unused_address;
                match (next_location(last_address), store.allocate(1)) {
                    (Some(next_address), Some((grown, _))) => {
                        let new_store = grown.update_integer(last_address, *integer);
                        Outcome::Continue {
                            answer: next.call(single(DValue::Array(last_address..next_address))),
                            store: new_store,
                        }
                    },
                    _ => fault,
                }
            },
            RawContinuation::GetHandler { next } => {
                match store.handler() {
                    Some(handler) => Outcome::Continue {
                        answer: next.call(single(DValue::Function(handler))),
                        store,
                    },
                    None => fault,
                }
            },
            RawContinuation::SetHandler { handler, next } => {
                if store.accepts(store.exception_handler, handler) {
                    let new_store = store.update(store.exception_handler, handler.clone());
                    Outcome::Continue { answer: next.call(Vec::new()), store: new_store }
                } else {
                    fault
                }
            },
            RawContinuation::Real { operation, next } => {
                if self.parameters.len() == 2 {
                    match (&self.parameters[0], &self.parameters[1]) {
                        (DValue::Real(left), DValue::Real(right)) => Outcome::Real {
                            operation: *operation,
                            left: *left,
                            right: *right,
                            next: next.clone(),
                            store,
                        },
                        _ => fault,
                    }
                } else {
                    fault
                }
            },
        };
        proof {
            if !(before.f is Defined) && !(before.f is Arm) {
                assert(r@ == before.step(held, false));
            }
        }
        r
    }
}

} // verus!

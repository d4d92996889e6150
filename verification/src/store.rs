//! The store: the mutable cells of the interpreted program.
//!
//! A location names two cells, one that holds a denotable value of any kind
//! and one that holds a bare integer. Which of the two a reader looks at
//! depends on what it expects to find. One cell holds the exception handler.

use crate::continuation::{Answer, Continuation};
use crate::denotable_value::{DValue, DenotableValueList};
use crate::exception::Exception;
use crate::{Integer, IntegerList, Location};
use std::ops::Range;
use vstd::prelude::*;

verus! {

#[derive(Debug)]
pub struct Store {
    /// The first location that no array has been given yet.
    pub next_unused_address: Location,
    /// The location of the cell that holds the exception handler.
    pub exception_handler: Location,
    /// The cells that hold denotable values.
    pub values: DenotableValueList,
    /// The cells that hold integers.
    pub integer_values: IntegerList,
}

/// A [`Store`] as a mathematical value.
pub ghost struct StoreView {
    pub next_unused_address: Location,
    pub exception_handler: Location,
    pub values: Seq<DValue>,
    pub integer_values: Seq<Integer>,
}

impl View for Store {
    type V = StoreView;

    open spec fn view(&self) -> StoreView {
        StoreView {
            next_unused_address: self.next_unused_address,
            exception_handler: self.exception_handler,
            values: self.values@,
            integer_values: self.integer_values@,
        }
    }
}

impl StoreView {
    /// Every location has both of its cells, and the locations handed out
    /// so far exist.
    pub open spec fn ordered(self) -> bool {
        &&& self.values.len() == self.integer_values.len()
        &&& self.next_unused_address <= self.values.len()
    }

    /// The store is in order, and the handler cell holds a function.
    pub open spec fn wf(self) -> bool {
        &&& self.ordered()
        &&& self.handler() is Some
    }

    /// Whether `later` can come after this store: no location was given
    /// back, no cell went away, and the handler cell is where it was.
    pub open spec fn precedes(self, later: StoreView) -> bool {
        &&& self.next_unused_address <= later.next_unused_address
        &&& self.values.len() <= later.values.len()
        &&& self.integer_values.len() <= later.integer_values.len()
        &&& self.exception_handler == later.exception_handler
    }

    /// Whether `idx` is a location of this store.
    pub open spec fn has(self, idx: int) -> bool {
        0 <= idx < self.values.len() && idx < self.integer_values.len()
    }

    /// Whether `value` can be written to location `idx`: the cell for
    /// denotable values exists, and for an integer the integer cell too.
    pub open spec fn accepts(self, idx: int, value: DValue) -> bool {
        0 <= idx < self.values.len() && (value is Integer ==> idx < self.integer_values.len())
    }

    /// The exception handler, if the handler cell exists and holds a function.
    pub open spec fn handler(self) -> Option<Continuation> {
        if self.exception_handler < self.values.len() {
            match self.values[self.exception_handler as int] {
                DValue::Function(f) => Some(f),
                _ => None,
            }
        } else {
            None
        }
    }

    /// The store after `value` was written to location `idx`. The value goes
    /// to the cell for denotable values; an integer goes to the integer cell
    /// as well, so that it is found by either kind of read.
    pub open spec fn updated(self, idx: int, value: DValue) -> StoreView {
        StoreView {
            values: self.values.update(idx, value),
            integer_values: match value {
                DValue::Integer(i) => self.integer_values.update(idx, i),
                _ => self.integer_values,
            },
            ..self
        }
    }

    /// The store after `value` was written to the integer cell of location `idx`.
    pub open spec fn updated_integer(self, idx: int, value: Integer) -> StoreView {
        StoreView { integer_values: self.integer_values.update(idx, value), ..self }
    }

    /// The store after `n` fresh locations were handed out. Locations that
    /// did not exist before come into being with the integer zero in both
    /// cells.
    pub open spec fn allocated(self, n: int) -> StoreView {
        let next = self.next_unused_address + n;
        StoreView {
            next_unused_address: next as usize,
            values: if next > self.values.len() {
                self.values + Seq::new(
                    (next - self.values.len()) as nat,
                    |i: int| DValue::Integer(0),
                )
            } else {
                self.values
            },
            integer_values: if next > self.integer_values.len() {
                self.integer_values + Seq::new(
                    (next - self.integer_values.len()) as nat,
                    |i: int| 0i64,
                )
            } else {
                self.integer_values
            },
            ..self
        }
    }
}

impl Clone for Store {
    fn clone(&self) -> (r: Store)
        ensures
            r@ == self@,
    {
        let mut values: DenotableValueList = Vec::new();
        let mut i: usize = 0;
        while i < self.values.len()
            invariant
                i <= self.values.len(),
                values@ == self.values@.take(i as int),
            decreases self.values.len() - i,
        {
            values.push(self.values[i].clone());
            assert(values@ =~= self.values@.take(i + 1));
            i = i + 1;
        }
        let mut integer_values: IntegerList = Vec::new();
        let mut j: usize = 0;
        while j < self.integer_values.len()
            invariant
                j <= self.integer_values.len(),
                integer_values@ == self.integer_values@.take(j as int),
            decreases self.integer_values.len() - j,
        {
            integer_values.push(self.integer_values[j]);
            assert(integer_values@ =~= self.integer_values@.take(j + 1));
            j = j + 1;
        }
        assert(values@ =~= self.values@);
        assert(integer_values@ =~= self.integer_values@);
        Store {
            next_unused_address: self.next_unused_address,
            exception_handler: self.exception_handler,
            values,
            integer_values,
        }
    }
}

impl Store {
    /// A store of one location, which holds `handler` as the exception handler.
    pub fn new(handler: Continuation) -> (r: Store)
        ensures
            r@.wf(),
            r@.handler() == Some(handler),
            r@.exception_handler == 0,
            r@.next_unused_address == 1,
            r@.values == seq![DValue::Function(handler)],
            r@.integer_values == seq![0i64],
    {
        let mut values: DenotableValueList = Vec::new();
        values.push(DValue::Function(handler));
        let mut integer_values: IntegerList = Vec::new();
        integer_values.push(0);
        let r = Store { next_unused_address: 1, exception_handler: 0, values, integer_values };
        assert(r@.values =~= seq![DValue::Function(handler)]);
        assert(r@.integer_values =~= seq![0i64]);
        r
    }

    /// Whether `value` can be written to location `idx`.
    pub fn accepts(&self, idx: Location, value: &DValue) -> (r: bool)
        ensures
            r == self@.accepts(idx as int, *value),
    {
        idx < self.values.len() && match value {
            DValue::Integer(_) => idx < self.integer_values.len(),
            _ => true,
        }
    }

    /// Returns a reference to the `DValue` at `Location idx` in the `Store`.
    /// For a bare integer, use `fetch_integer`.
    pub fn fetch(&self, idx: Location) -> (r: &DValue)
        requires
            idx < self@.values.len(),
        ensures
            *r == self@.values[idx as int],
    {
        &self.values[idx]
    }

    pub fn fetch_integer(&self, idx: Location) -> (r: DValue)
        requires
            idx < self@.integer_values.len(),
        ensures
            r == DValue::Integer(self@.integer_values[idx as int]),
    {
        let n = self.integer_values[idx];
        DValue::Integer(n)
    }

    /// Produces a new `Store` which is identical to the current store except
    /// that `Location idx` holds `value`.
    pub fn update(&self, idx: Location, value: DValue) -> (r: Store)
        requires
            self@.accepts(idx as int, value),
        ensures
            r@ == self@.updated(idx as int, value),
            r@.values[idx as int] == value,
    {
        let mut updated_store: Store = self.clone();
        // An integer is written to both cells of the location.
        if let DValue::Integer(i) = value {
            updated_store.integer_values.set(idx, i);
        }
        updated_store.values.set(idx, value);
        updated_store
    }

    /// Produces a new `Store` which is identical to the current store except
    /// that the integer cell at `Location idx` holds `value`.
    pub fn update_integer(&self, idx: Location, value: Integer) -> (r: Store)
        requires
            idx < self@.integer_values.len(),
        ensures
            r@ == self@.updated_integer(idx as int, value),
            r@.integer_values[idx as int] == value,
    {
        let mut updated_store: Store = self.clone();
        updated_store.integer_values.set(idx, value);
        updated_store
    }

    /// Hands out `n` fresh locations: the run that begins at the first
    /// unused location. Returns `None`, and hands out nothing, if the run
    /// would end beyond the largest location.
    pub fn allocate(&self, n: usize) -> (r: Option<(Store, Range<Location>)>)
        ensures
            match r {
                Some((store, range)) => {
                    &&& self@.next_unused_address + n <= usize::MAX
                    &&& store@ == self@.allocated(n as int)
                    &&& range.start == self@.next_unused_address
                    &&& range.end == self@.next_unused_address + n
                },
                None => self@.next_unused_address + n > usize::MAX,
            },
    {
        match self.next_unused_address.checked_add(n) {
            None => None,
            Some(next) => {
                let mut store = self.clone();
                let start = store.next_unused_address;
                store.next_unused_address = next;
                while store.values.len() < next
                    invariant
                        store.next_unused_address == next,
                        store.exception_handler == self.exception_handler,
                        store.integer_values@ == self.integer_values@,
                        store.values@.len() >= self.values@.len(),
                        store.values@.len() <= next || store.values@.len() == self.values@.len(),
                        store.values@ == self.values@ + Seq::new(
                            (store.values@.len() - self.values@.len()) as nat,
                            |i: int| DValue::Integer(0),
                        ),
                    decreases next - store.values.len(),
                {
                    store.values.push(DValue::Integer(0));
                    assert(store.values@ =~= self.values@ + Seq::new(
                        (store.values@.len() - self.values@.len()) as nat,
                        |i: int| DValue::Integer(0),
                    ));
                }
                let ghost values = store.values@;
                while store.integer_values.len() < next
                    invariant
                        store.next_unused_address == next,
                        store.exception_handler == self.exception_handler,
                        store.values@ == values,
                        store.integer_values@.len() >= self.integer_values@.len(),
                        store.integer_values@.len() <= next || store.integer_values@.len()
                            == self.integer_values@.len(),
                        store.integer_values@ == self.integer_values@ + Seq::new(
                            (store.integer_values@.len() - self.integer_values@.len()) as nat,
                            |i: int| 0i64,
                        ),
                    decreases next - store.integer_values.len(),
                {
                    store.integer_values.push(0);
                    assert(store.integer_values@ =~= self.integer_values@ + Seq::new(
                        (store.integer_values@.len() - self.integer_values@.len()) as nat,
                        |i: int| 0i64,
                    ));
                }
                proof {
                    assert(store@.values =~= self@.allocated(n as int).values);
                    assert(store@.integer_values =~= self@.allocated(n as int).integer_values);
                }
                Some((store, start..next))
            },
        }
    }

    /// The exception handler, if the handler cell exists and holds a function.
    pub fn handler(&self) -> (r: Option<Continuation>)
        ensures
            r == self@.handler(),
    {
        if self.exception_handler < self.values.len() {
            match &self.values[self.exception_handler] {
                DValue::Function(f) => Some(f.clone()),
                _ => None,
            }
        } else {
            None
        }
    }

    /// Uses the `Store`'s exception handler to handle the given exception:
    /// the answer hands the exception to the handler.
    pub fn raise_exception(&self, exception: Exception) -> (r: Answer)
        requires
            self@.handler() is Some,
        ensures
            r@ == self@.handler().unwrap().applied(seq![DValue::Exception(exception)]),
    {
        let mut parameters = Vec::new();
        parameters.push(exception.as_denotable_value());
        assert(parameters@ =~= seq![DValue::Exception(exception)]);
        match self.handler() {
            Some(f) => f.call(parameters),
            None => vstd::pervasive::unreached(),
        }
    }
}

/// What was written to a location is what a read of that location finds,
/// for a denotable value and for an integer alike, and a write to one
/// location leaves every other location as it was.
pub proof fn lemma_update_then_fetch(
    store: StoreView,
    idx: int,
    other: int,
    value: DValue,
    integer: Integer,
)
    requires
        store.has(idx),
        store.has(other),
    ensures
        store.updated(idx, value).values[idx] == value,
        store.updated_integer(idx, integer).integer_values[idx] == integer,
        other != idx ==> store.updated(idx, value).values[other] == store.values[other],
        other != idx ==> store.updated(idx, value).integer_values[other]
            == store.integer_values[other],
        other != idx ==> store.updated_integer(idx, integer).integer_values[other]
            == store.integer_values[other],
        store.updated_integer(idx, integer).values == store.values,
{
}

} // verus!

//! Denotable values: what a name can be bound to, a cell can hold and a
//! function can be passed.

use crate::continuation::Continuation;
use crate::exception::{Exception, InternalException};
use crate::reals::Real;
use crate::sharing::{same_allocation, share};
use crate::{arbitrarily, arbitrarily_spec, Integer, Location};
use std::ops::Range;
use std::rc::Rc;
use vstd::prelude::*;

verus! {

pub type DenotableFunction = Continuation;

pub type DenotableValueList = Vec<DenotableValue>;

pub type DValue = DenotableValue;

pub type DValueList = DenotableValueList;

#[derive(Debug)]
pub enum DenotableValue {
    /// An immutable tuple, seen from field `idx` onwards. Views at different
    /// offsets share the fields.
    Record { values: Fields, idx: Location },
    Integer(Integer),
    Real(Real),
    /// `String`s are immutable.
    String(Rc<String>),
    /// A run of store cells that hold bytes. Unlike a `String` it is mutable.
    ByteArray(Range<Location>),
    /// A run of store cells that hold values of any kind.
    Array(Range<Location>),
    /// A run of store cells that hold integers.
    UnboxedArray(Range<Location>),
    Function(DenotableFunction),
    Exception(Exception),
}

/// The fields of a record: an immutable list whose cells are shared between
/// all the values that were made from it.
#[derive(Debug)]
pub enum Fields {
    End,
    Field(Rc<FieldCell>),
}

#[derive(Debug)]
pub struct FieldCell {
    pub head: DenotableValue,
    pub tail: Fields,
}

/// A walk into a record: either a shift of the point of view, or the choice
/// of a field followed by a further walk from there.
#[derive(Debug)]
pub enum AccessPath {
    Offset(Location),
    Select { offset: Location, access_path: Rc<AccessPath> },
}

impl View for Fields {
    type V = Seq<DenotableValue>;

    open spec fn view(&self) -> Seq<DenotableValue>
        decreases *self,
    {
        match *self {
            Fields::End => Seq::empty(),
            Fields::Field(cell) => seq![cell.head] + cell.tail@,
        }
    }
}

impl Fields {
    /// The field list that holds exactly the values of `s`, in order.
    pub open spec fn of(s: Seq<DenotableValue>) -> Fields
        decreases s.len(),
    {
        if s.len() == 0 {
            Fields::End
        } else {
            Fields::Field(Rc::new(FieldCell { head: s[0], tail: Fields::of(s.skip(1)) }))
        }
    }

    /// The field at `index`, if there is one.
    pub open spec fn at(self, index: int) -> Option<DenotableValue> {
        if 0 <= index < self@.len() {
            Some(self@[index])
        } else {
            None
        }
    }

    /// `Fields::of` lists what it was given.
    pub proof fn lemma_of_view(s: Seq<DenotableValue>)
        ensures
            Fields::of(s)@ == s,
        decreases s.len(),
    {
        if s.len() > 0 {
            Fields::lemma_of_view(s.skip(1));
            assert(seq![s[0]] + s.skip(1) =~= s);
        }
    }

    /// Builds the field list of a record from its values.
    pub fn from_vec(values: &Vec<DenotableValue>) -> (r: Fields)
        ensures
            r == Fields::of(values@),
            r@ == values@,
    {
        let mut fields = Fields::End;
        let mut i: usize = values.len();
        assert(values@.skip(i as int) =~= Seq::empty());
        while i > 0
            invariant
                i <= values.len(),
                fields == Fields::of(values@.skip(i as int)),
            decreases i,
        {
            i = i - 1;
            proof {
                assert(values@.skip(i as int).skip(1) =~= values@.skip(i + 1));
            }
            fields = Fields::Field(Rc::new(FieldCell { head: values[i].clone(), tail: fields }));
        }
        proof {
            assert(values@.skip(0) =~= values@);
            Fields::lemma_of_view(values@);
        }
        fields
    }

    /// The field at `index`, if there is one.
    pub fn get(&self, index: usize) -> (r: Option<DenotableValue>)
        ensures
            r == self.at(index as int),
        decreases index,
    {
        match self {
            Fields::End => None,
            Fields::Field(cell) => {
                if index == 0 {
                    Some(cell.head.clone())
                } else {
                    let found = cell.tail.get(index - 1);
                    proof {
                        if 0 <= index - 1 < cell.tail@.len() {
                            assert(self@[index as int] == cell.tail@[index - 1]);
                        }
                    }
                    found
                }
            },
        }
    }
}

impl Clone for Fields {
    fn clone(&self) -> (r: Fields)
        ensures
            r == *self,
    {
        match self {
            Fields::End => Fields::End,
            Fields::Field(cell) => Fields::Field(share(cell)),
        }
    }
}

impl Clone for DenotableValue {
    fn clone(&self) -> (r: DenotableValue)
        ensures
            r == *self,
    {
        match self {
            DValue::Record { values, idx } => DValue::Record { values: values.clone(), idx: *idx },
            DValue::Integer(i) => DValue::Integer(*i),
            DValue::Real(x) => DValue::Real(*x),
            DValue::String(s) => DValue::String(share(s)),
            DValue::ByteArray(range) => DValue::ByteArray(range.start..range.end),
            DValue::Array(range) => DValue::Array(range.start..range.end),
            DValue::UnboxedArray(range) => DValue::UnboxedArray(range.start..range.end),
            DValue::Function(c) => DValue::Function(c.clone()),
            DValue::Exception(e) => DValue::Exception(*e),
        }
    }
}

impl DenotableValue {
    /// Whether two values are immediate values of the same kind with the
    /// same representation: the same integer, the same bits of a real, the
    /// same run of cells, the same exception. Values that live in an
    /// allocation of their own are never identical in this sense.
    pub open spec fn identical(self, other: DenotableValue) -> bool {
        match (self, other) {
            (DValue::Integer(a), DValue::Integer(b)) => a == b,
            (DValue::Real(a), DValue::Real(b)) => a.bits == b.bits,
            (DValue::ByteArray(a), DValue::ByteArray(b)) => a == b,
            (DValue::Array(a), DValue::Array(b)) => a == b,
            (DValue::UnboxedArray(a), DValue::UnboxedArray(b)) => a == b,
            (DValue::Exception(a), DValue::Exception(b)) => a == b,
            _ => false,
        }
    }

    /// Decides [`DenotableValue::identical`].
    pub fn is_identical(&self, other: &DenotableValue) -> (r: bool)
        ensures
            r == self.identical(*other),
            r ==> *self == *other,
    {
        match (self, other) {
            (DValue::Integer(a), DValue::Integer(b)) => *a == *b,
            (DValue::Real(a), DValue::Real(b)) => a.bits == b.bits,
            (DValue::ByteArray(a), DValue::ByteArray(b)) => a.start == b.start && a.end == b.end,
            (DValue::Array(a), DValue::Array(b)) => a.start == b.start && a.end == b.end,
            (DValue::UnboxedArray(a), DValue::UnboxedArray(b)) => a.start == b.start && a.end
                == b.end,
            (DValue::Exception(a), DValue::Exception(b)) => *a == *b,
            _ => false,
        }
    }

    /// Whether the two values are of a kind that lives in an allocation of
    /// its own, so that their equality is a question of which allocation
    /// each one is: two strings, or two records.
    pub open spec fn allocated_alike(self, other: DenotableValue) -> bool {
        match (self, other) {
            (DValue::Record { .. }, DValue::Record { .. }) => true,
            (DValue::String(_), DValue::String(_)) => true,
            _ => false,
        }
    }

    /// Whether the two values each have an allocation that can be told from
    /// the other's: two strings, or two records that both have fields.
    pub open spec fn has_allocation_like(self, other: DenotableValue) -> bool {
        match (self, other) {
            (
                DValue::Record { values: Fields::Field(_), idx: _ },
                DValue::Record { values: Fields::Field(_), idx: _ },
            ) => true,
            (DValue::String(_), DValue::String(_)) => true,
            _ => false,
        }
    }

    /// What two values in one allocation have in common: two strings are the
    /// same string, two records have the same fields.
    pub open spec fn shares_with(self, other: DenotableValue) -> bool {
        match (self, other) {
            (DValue::Record { values: a, idx: _ }, DValue::Record { values: b, idx: _ }) => a == b,
            (DValue::String(a), DValue::String(b)) => a == b,
            _ => false,
        }
    }

    /// Equality as the interpreted program sees it, given whether the two
    /// values were found in the same allocation (`same`).
    ///
    /// Integers and reals are compared as numbers, runs of cells by their
    /// bounds. Strings and records are equal only within one allocation, and
    /// records only at the same offset. Comparing two functions is a fault.
    /// Values of different kinds, and exceptions, are never equal.
    pub open spec fn eq_spec(self, other: DenotableValue, same: bool) -> Result<
        bool,
        InternalException,
    > {
        match (self, other) {
            (DValue::Record { values: _, idx: i }, DValue::Record { values: _, idx: j }) => Ok(
                arbitrarily_spec(same && i == j, false),
            ),
            (DValue::Integer(a), DValue::Integer(b)) => Ok(a == b),
            (DValue::Real(a), DValue::Real(b)) => Ok(a.equals(b)),
            (DValue::String(_), DValue::String(_)) => Ok(arbitrarily_spec(same, false)),
            (DValue::ByteArray(a), DValue::ByteArray(b)) => Ok(a == b),
            (DValue::Array(a), DValue::Array(b)) => Ok(a == b),
            (DValue::UnboxedArray(a), DValue::UnboxedArray(b)) => Ok(a == b),
            (DValue::Function(_), DValue::Function(_)) => Err(InternalException::Undefined),
            _ => Ok(false),
        }
    }

    /// Computes [`DenotableValue::eq_spec`] once the question of the
    /// allocation is settled.
    pub fn eq_given(&self, other: &DenotableValue, same: bool) -> (r: Result<
        bool,
        InternalException,
    >)
        ensures
            r == self.eq_spec(*other, same),
    {
        match (self, other) {
            (DValue::Record { values: _, idx: i }, DValue::Record { values: _, idx: j }) => Ok(
                arbitrarily(same && *i == *j, false),
            ),
            (DValue::Integer(a), DValue::Integer(b)) => Ok(*a == *b),
            (DValue::Real(a), DValue::Real(b)) => Ok(a.is_equal(*b)),
            (DValue::String(_), DValue::String(_)) => Ok(arbitrarily(same, false)),
            (DValue::ByteArray(a), DValue::ByteArray(b)) => Ok(
                a.start == b.start && a.end == b.end,
            ),
            (DValue::Array(a), DValue::Array(b)) => Ok(a.start == b.start && a.end == b.end),
            (DValue::UnboxedArray(a), DValue::UnboxedArray(b)) => Ok(
                a.start == b.start && a.end == b.end,
            ),
            (DValue::Function(_), DValue::Function(_)) => Err(InternalException::Undefined),
            _ => Ok(false),
        }
    }

    /// Whether two strings, or two records, were found in one allocation.
    ///
    /// The fields of a record are its allocation, so a record without fields
    /// has none: the answer is `false` unless both values are strings or
    /// both are records with fields. For those, the handles decide. Whenever
    /// the answer is `true`, the two are the same string or have the same
    /// fields.
    pub fn in_same_allocation(&self, other: &DenotableValue) -> (r: bool)
        ensures
            r ==> self.shares_with(*other),
            !self.has_allocation_like(*other) ==> !r,
    {
        match (self, other) {
            (DValue::Record { values: a, idx: _ }, DValue::Record { values: b, idx: _ }) => {
                match (a, b) {
                    (Fields::Field(x), Fields::Field(y)) => same_allocation(x, y),
                    _ => false,
                }
            },
            (DValue::String(a), DValue::String(b)) => same_allocation(a, b),
            _ => false,
        }
    }

    /// Equality as the interpreted program sees it. This models equality of
    /// pointers: strings and records are equal only if they were found in
    /// one allocation, whatever they hold.
    pub fn eq(&self, other: &DenotableValue) -> (r: Result<bool, InternalException>)
        ensures
            exists|same: bool|
                (same ==> self.shares_with(*other)) && r == #[trigger] self.eq_spec(*other, same),
            !self.allocated_alike(*other) ==> r == self.eq_spec(*other, false),
    {
        let same = self.in_same_allocation(other);
        let r = self.eq_given(other, same);
        assert((same ==> self.shares_with(*other)) && r == self.eq_spec(*other, same));
        r
    }
}

impl From<Exception> for DenotableValue {
    fn from(exception: Exception) -> (r: Self) {
        DValue::Exception(exception)
    }
}

impl vstd::std_specs::convert::FromSpecImpl<Exception> for DenotableValue {
    open spec fn obeys_from_spec() -> bool {
        true
    }

    open spec fn from_spec(exception: Exception) -> Self {
        DValue::Exception(exception)
    }
}

impl From<Integer> for DenotableValue {
    fn from(i: Integer) -> (r: Self) {
        DValue::Integer(i)
    }
}

impl vstd::std_specs::convert::FromSpecImpl<Integer> for DenotableValue {
    open spec fn obeys_from_spec() -> bool {
        true
    }

    open spec fn from_spec(i: Integer) -> Self {
        DValue::Integer(i)
    }
}

impl From<Real> for DenotableValue {
    fn from(r: Real) -> (d: Self) {
        DValue::Real(r)
    }
}

impl vstd::std_specs::convert::FromSpecImpl<Real> for DenotableValue {
    open spec fn obeys_from_spec() -> bool {
        true
    }

    open spec fn from_spec(r: Real) -> Self {
        DValue::Real(r)
    }
}

impl From<String> for DenotableValue {
    fn from(value: String) -> (r: Self) {
        DValue::String(Rc::new(value))
    }
}

impl vstd::std_specs::convert::FromSpecImpl<String> for DenotableValue {
    open spec fn obeys_from_spec() -> bool {
        true
    }

    open spec fn from_spec(value: String) -> Self {
        DValue::String(Rc::new(value))
    }
}

impl Clone for AccessPath {
    fn clone(&self) -> (r: AccessPath)
        ensures
            r == *self,
    {
        match self {
            AccessPath::Offset(k) => AccessPath::Offset(*k),
            AccessPath::Select { offset, access_path } => AccessPath::Select {
                offset: *offset,
                access_path: share(access_path),
            },
        }
    }
}

/// Where a walk along `path` from `value` ends.
///
/// A walk of no shift at all ends where it began, whatever `value` is. A
/// shift moves the point of view on a record; a choice picks the field at
/// the given distance from the point of view and walks on from there. Every
/// other walk fails with `InvalidAccess`: a shift or choice on something
/// other than a record, a choice beyond the last field, a shift or choice
/// too large for a location.
pub open spec fn resolve(value: DenotableValue, path: AccessPath) -> Result<
    DenotableValue,
    Exception,
>
    decreases path,
{
    match path {
        AccessPath::Offset(j) => {
            if j == 0 {
                Ok(value)
            } else {
                match value {
                    DValue::Record { values, idx } => {
                        if idx + j <= usize::MAX {
                            Ok(DValue::Record { values, idx: (idx + j) as usize })
                        } else {
                            Err(Exception::InvalidAccess)
                        }
                    },
                    _ => Err(Exception::InvalidAccess),
                }
            }
        },
        AccessPath::Select { offset, access_path } => {
            match value {
                DValue::Record { values, idx } => {
                    match values.at(idx + offset) {
                        Some(field) if idx + offset <= usize::MAX => resolve(field, *access_path),
                        _ => Err(Exception::InvalidAccess),
                    }
                },
                _ => Err(Exception::InvalidAccess),
            }
        },
    }
}

/// Accesses the value of the field pointed to by an `AccessPath`.
pub fn resolve_field(value: DenotableValue, access_path: Rc<AccessPath>) -> (r: Result<
    DenotableValue,
    Exception,
>)
    ensures
        r == resolve(value, *access_path),
    decreases access_path,
{
    match &*access_path {
        AccessPath::Offset(j) => {
            if *j == 0 {
                Ok(value)
            } else {
                match value {
                    DValue::Record { values, idx } => {
                        match idx.checked_add(*j) {
                            Some(shifted) => Ok(DValue::Record { values, idx: shifted }),
                            None => Err(Exception::InvalidAccess),
                        }
                    },
                    _ => Err(Exception::InvalidAccess),
                }
            }
        },
        AccessPath::Select { offset, access_path: rest } => {
            match value {
                DValue::Record { values, idx } => {
                    match idx.checked_add(*offset) {
                        Some(place) => match values.get(place) {
                            Some(field) => resolve_field(field, share(rest)),
                            None => Err(Exception::InvalidAccess),
                        },
                        None => Err(Exception::InvalidAccess),
                    }
                },
                _ => Err(Exception::InvalidAccess),
            }
        },
    }
}

/// A walk of no shift ends where it began: `Offset(0)` resolves every value
/// to itself.
pub proof fn lemma_resolve_offset_zero(value: DenotableValue)
    ensures
        resolve(value, AccessPath::Offset(0)) == Ok::<DenotableValue, Exception>(value),
{
}

} // verus!

//! Shared ownership of immutable data.
//!
//! Runtime values, environments and program terms are handed around behind
//! reference-counted handles. The two functions here are the only places
//! where the handles themselves, rather than what they point at, matter.

use std::rc::Rc;
use vstd::prelude::*;

verus! {

/// `Rc::clone`: a second handle to the allocation behind `handle`.
///
/// Taken on trust: the new handle points at the same allocation, so it
/// stands for the same value.
#[verifier::external_body]
pub(crate) fn share<T>(handle: &Rc<T>) -> (res: Rc<T>)
    ensures
        res == *handle,
{
    Rc::clone(handle)
}

/// `Rc::ptr_eq`: whether two handles point at the same allocation.
///
/// Taken on trust: two handles to one allocation stand for the same value.
/// Nothing is claimed when the answer is `false`; equal values may well live
/// in distinct allocations.
#[verifier::external_body]
pub(crate) fn same_allocation<T>(a: &Rc<T>, b: &Rc<T>) -> (res: bool)
    ensures
        res ==> *a == *b,
{
    Rc::ptr_eq(a, b)
}

} // verus!

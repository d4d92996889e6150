//! The primitive operations of the language.

use crate::continuation::{
    Answer, AnswerView, Continuation, ContinuationList, Parameters, RawContinuation,
};
use crate::denotable_value::DValue;
use crate::exception::{Exception, InternalException};
use crate::reals::Real;
use crate::{Integer, Location};
use std::ops::Range;
use std::rc::Rc;
use vstd::prelude::*;

verus! {

#[derive(Copy, Clone, PartialEq, Eq, Structural, Hash, Debug)]
pub enum PrimitiveOp {
    /// `*`
    Multiply,
    /// `+`
    Add,
    /// `-`
    Subtract,
    /// `div`
    Divide,
    /// `~`, unary negation
    Tilde,
    /// `ieql`
    IEqual,
    /// `ineq`
    INEqual,
    /// `<`
    Less,
    /// `<=`
    LessEqual,
    /// `>`
    Greater,
    /// `>=`
    GreaterEqual,
    /// `rangechk i j`: unsigned less-than. With two's complement numbers and
    /// a nonnegative `j` it decides `0 <= i < j` in one comparison.
    RangeCheck,
    /// `a!`: the first element of `a`.
    Bang,
    /// `subscript a i`: the element of `a` at index `i`.
    Subscript,
    /// `ordof s i`: the byte of `s` at index `i`, as an integer.
    OrdinalOf,
    /// `a := v`: stores `v` as the first element of `a`.
    ColonEqual,
    /// `unboxedassign`: `:=` for a value known to be an integer.
    UnboxedAssign,
    /// `update a i v`
    Update,
    /// `unboxedupdate`: `update` for a value known to be an integer.
    UnboxedUpdate,
    /// `store b i v`: stores the byte `v` into a byte array.
    Store,
    /// `makeref`
    MakeRef,
    /// `makerefunboxed`
    MakeRefUnboxed,
    /// `alength`
    ArrayLength,
    /// `slength`
    StringLength,
    /// `gethdlr`
    GetHandler,
    /// `sethdlr`
    SetHandler,
    /// `boxed`
    Boxed,
    /// `fadd`
    FAdd,
    /// `fsub`
    FSubtract,
    /// `fmul`
    FMultiply,
    /// `fdiv`
    FDivide,
    /// `feql`
    FEqual,
    /// `fneq`
    FNEqual,
    /// `fge`
    FGreaterEqual,
    /// `fgt`
    FGreater,
    /// `fle`
    FLessEqual,
    /// `flt`
    FLess,
}

/// The location after `last_address`, if there is one.
pub fn next_location(last_address: Location) -> (r: Option<Location>)
    ensures
        r == if last_address < usize::MAX {
            Some((last_address + 1) as usize)
        } else {
            None::<Location>
        },
{
    last_address.checked_add(1)
}

/// The outcome of an operation on operands it is not defined on: a fault.
pub open spec fn fault() -> Result<AnswerView, InternalException> {
    Err(InternalException::Undefined)
}

/// Whether an executable result is the one that `model` describes.
pub open spec fn agrees(
    result: Result<Answer, InternalException>,
    model: Result<AnswerView, InternalException>,
) -> bool {
    match (result, model) {
        (Ok(answer), Ok(view)) => answer@ == view,
        (Err(e), Err(f)) => e == f,
        _ => false,
    }
}

/// The answer that waits for a store to carry out `raw`.
pub open spec fn suspended(raw: RawContinuation) -> AnswerView {
    AnswerView { f: raw, parameters: Seq::empty() }
}

/// The answer that goes on with the first of two continuations if `holds`,
/// and with the second if not.
pub open spec fn branch(conts: Seq<Continuation>, holds: bool) -> AnswerView {
    if holds {
        conts[0].applied(Seq::empty())
    } else {
        conts[1].applied(Seq::empty())
    }
}

/// Whether `k` is an integer of the interpreted program.
pub open spec fn in_range(k: int) -> bool {
    i64::MIN <= k <= i64::MAX
}

/// The answer to integer arithmetic with the exact result `k`: `k` goes to
/// the continuation if it is an integer of the program, and `Overflow` is
/// raised if it is not.
pub open spec fn arithmetic_answer(k: int, c: Continuation) -> AnswerView {
    if in_range(k) {
        c.applied(seq![DValue::Integer(k as i64)])
    } else {
        Exception::Overflow.raised()
    }
}

/// The quotient of `i` by a nonzero `j`, rounded towards zero.
pub open spec fn quotient(i: int, j: int) -> int {
    let magnitude = (if i < 0 { -i } else { i }) / (if j < 0 { -j } else { j });
    if (i < 0) == (j < 0) {
        magnitude
    } else {
        -magnitude
    }
}

/// An integer of the program read as an unsigned number of the same width.
pub open spec fn unsigned(i: int) -> int {
    if i < 0 {
        i + 0x1_0000_0000_0000_0000
    } else {
        i
    }
}

/// The number of locations in a run of cells.
pub open spec fn span(range: Range<Location>) -> int {
    if range.end >= range.start {
        range.end - range.start
    } else {
        0
    }
}

/// The bytes of a string.
pub open spec fn bytes_of(s: Rc<String>) -> Seq<u8> {
    vstd::utf8::encode_utf8(s@)
}

/// The answer that passes the length `n` to `c`, or raises `Overflow` if
/// the length is no integer of the program.
pub open spec fn length_answer(n: int, c: Continuation) -> AnswerView {
    arithmetic_answer(n, c)
}

/// The answer to `subscript a n`: an array is read once there is a store, a
/// record is read on the spot.
pub open spec fn subscript(a: DValue, n: Integer, c: Continuation) -> Result<
    AnswerView,
    InternalException,
> {
    match a {
        DValue::Array(range) => Ok(
            suspended(RawContinuation::Subscript { start: range.start, index: n, next: c }),
        ),
        DValue::UnboxedArray(range) => Ok(
            suspended(RawContinuation::SubscriptUnboxed { start: range.start, index: n, next: c }),
        ),
        DValue::Record { values, idx } => match values.at(idx + n) {
            Some(field) if idx + n <= usize::MAX => Ok(c.applied(seq![field])),
            _ => Ok(Exception::IndexOutOfBounds.raised()),
        },
        _ => fault(),
    }
}

/// The answer to `update a n v`.
pub open spec fn update(a: DValue, n: DValue, v: DValue, c: Continuation) -> Result<
    AnswerView,
    InternalException,
> {
    match (a, n, v) {
        (DValue::Array(range), DValue::Integer(index), _) => Ok(
            suspended(RawContinuation::Update { start: range.start, index, value: v, next: c }),
        ),
        (DValue::UnboxedArray(range), DValue::Integer(index), DValue::Integer(integer)) => Ok(
            suspended(
                RawContinuation::UpdateInteger { start: range.start, index, integer, next: c },
            ),
        ),
        _ => fault(),
    }
}

/// The answer to `unboxedupdate a n v`.
pub open spec fn unboxed_update(a: DValue, n: DValue, v: DValue, c: Continuation) -> Result<
    AnswerView,
    InternalException,
> {
    match (a, n, v) {
        (DValue::Array(range), DValue::Integer(index), DValue::Integer(_)) => Ok(
            suspended(RawContinuation::Update { start: range.start, index, value: v, next: c }),
        ),
        (DValue::UnboxedArray(range), DValue::Integer(index), DValue::Integer(integer)) => Ok(
            suspended(
                RawContinuation::UpdateInteger { start: range.start, index, integer, next: c },
            ),
        ),
        _ => fault(),
    }
}

fn pass(c: &Continuation, value: DValue) -> (r: Answer)
    ensures
        r@ == c.applied(seq![value]),
{
    let mut parameters = Vec::new();
    parameters.push(value);
    assert(parameters@ =~= seq![value]);
    c.call(parameters)
}

fn suspend(raw: RawContinuation) -> (r: Answer)
    ensures
        r@ == suspended(raw),
{
    Answer { f: Rc::new(raw), parameters: Vec::new() }
}

fn take_branch(conts: &ContinuationList, holds: bool) -> (r: Answer)
    requires
        conts.len() == 2,
    ensures
        r@ == branch(conts@, holds),
{
    if holds {
        conts[0].call(Vec::new())
    } else {
        conts[1].call(Vec::new())
    }
}

fn pass_integer(k: Option<Integer>, c: &Continuation) -> (r: Answer)
    ensures
        match k {
            Some(i) => r@ == c.applied(seq![DValue::Integer(i)]),
            None => r@ == Exception::Overflow.raised(),
        },
{
    match k {
        Some(i) => pass(c, DValue::Integer(i)),
        None => Exception::Overflow.as_answer(),
    }
}

fn pass_length(n: usize, c: &Continuation) -> (r: Answer)
    ensures
        r@ == length_answer(n as int, *c),
{
    let wide: u64 = n as u64;
    if wide <= 0x7fff_ffff_ffff_ffff {
        pass(c, DValue::Integer(wide as i64))
    } else {
        Exception::Overflow.as_answer()
    }
}

fn length_of(range: &Range<Location>) -> (r: usize)
    ensures
        r == span(*range),
{
    if range.end >= range.start {
        range.end - range.start
    } else {
        0
    }
}

/// Division of machine integers rounds towards zero.
proof fn lemma_quotient(i: int, j: int)
    requires
        j != 0,
    ensures
        quotient(i, j) == if i == 0 {
            0
        } else if i > 0 && j > 0 {
            i / j
        } else if i < 0 && j < 0 {
            (i * -1) / (j * -1)
        } else if i < 0 {
            ((i * -1) / j) * -1
        } else {
            (i / (j * -1)) * -1
        },
{
    if i == 0 {
        assert(0int / (if j < 0 { -j } else { j }) == 0) by (nonlinear_arith)
            requires
                j != 0,
        ;
    }
}

fn evaluate_subscript(a: &DValue, n: Integer, c: &Continuation) -> (r: Result<
    Answer,
    InternalException,
>)
    ensures
        agrees(r, subscript(*a, n, *c)),
{
    match a {
        DValue::Array(range) => Ok(
            suspend(
                RawContinuation::Subscript { start: range.start, index: n, next: c.clone() },
            ),
        ),
        DValue::UnboxedArray(range) => Ok(
            suspend(
                RawContinuation::SubscriptUnboxed { start: range.start, index: n, next: c.clone() },
            ),
        ),
        DValue::Record { values, idx } => {
            let place: i128 = *idx as i128 + n as i128;
            if 0 <= place && place <= usize::MAX as i128 {
                match values.get(place as usize) {
                    Some(field) => Ok(pass(c, field)),
                    None => Ok(Exception::IndexOutOfBounds.as_answer()),
                }
            } else {
                Ok(Exception::IndexOutOfBounds.as_answer())
            }
        },
        _ => Err(InternalException::Undefined),
    }
}

fn evaluate_update(a: &DValue, n: &DValue, v: &DValue, c: &Continuation) -> (r: Result<
    Answer,
    InternalException,
>)
    ensures
        agrees(r, update(*a, *n, *v, *c)),
{
    match (a, n, v) {
        (DValue::Array(range), DValue::Integer(index), _) => Ok(
            suspend(
                RawContinuation::Update {
                    start: range.start,
                    index: *index,
                    value: v.clone(),
                    next: c.clone(),
                },
            ),
        ),
        (DValue::UnboxedArray(range), DValue::Integer(index), DValue::Integer(integer)) => Ok(
            suspend(
                RawContinuation::UpdateInteger {
                    start: range.start,
                    index: *index,
                    integer: *integer,
                    next: c.clone(),
                },
            ),
        ),
        _ => Err(InternalException::Undefined),
    }
}

fn evaluate_unboxed_update(a: &DValue, n: &DValue, v: &DValue, c: &Continuation) -> (r: Result<
    Answer,
    InternalException,
>)
    ensures
        agrees(r, unboxed_update(*a, *n, *v, *c)),
{
    match (a, n, v) {
        (DValue::Array(range), DValue::Integer(index), DValue::Integer(_)) => Ok(
            suspend(
                RawContinuation::Update {
                    start: range.start,
                    index: *index,
                    value: v.clone(),
                    next: c.clone(),
                },
            ),
        ),
        (DValue::UnboxedArray(range), DValue::Integer(index), DValue::Integer(integer)) => Ok(
            suspend(
                RawContinuation::UpdateInteger {
                    start: range.start,
                    index: *index,
                    integer: *integer,
                    next: c.clone(),
                },
            ),
        ),
        _ => Err(InternalException::Undefined),
    }
}

impl PrimitiveOp {
    /// The exact result of a binary operation of integer arithmetic.
    pub open spec fn integer_result(self, i: int, j: int) -> int {
        match self {
            PrimitiveOp::Multiply => i * j,
            PrimitiveOp::Add => i + j,
            PrimitiveOp::Subtract => i - j,
            PrimitiveOp::Divide => quotient(i, j),
            _ => 0,
        }
    }

    /// Whether a comparison of two integers holds.
    pub open spec fn holds(self, i: int, j: int) -> bool {
        match self {
            PrimitiveOp::Less => i < j,
            PrimitiveOp::LessEqual => i <= j,
            PrimitiveOp::Greater => i > j,
            PrimitiveOp::GreaterEqual => i >= j,
            PrimitiveOp::RangeCheck => unsigned(i) < unsigned(j),
            _ => false,
        }
    }

    /// Whether a comparison of two reals holds.
    pub open spec fn holds_real(self, a: Real, b: Real) -> bool {
        match self {
            PrimitiveOp::FEqual => a.equals(b),
            PrimitiveOp::FNEqual => !a.equals(b),
            PrimitiveOp::FGreaterEqual => b.less_equal(a),
            PrimitiveOp::FGreater => b.less(a),
            PrimitiveOp::FLessEqual => a.less_equal(b),
            PrimitiveOp::FLess => a.less(b),
            _ => false,
        }
    }

    /// `*`, `+`, `-`, `div` on two integers and `~` on one, with one
    /// continuation. Division by zero raises `DivideByZero`.
    pub open spec fn arithmetic(self, p: Seq<DValue>, c: Seq<Continuation>) -> Result<
        AnswerView,
        InternalException,
    > {
        if c.len() != 1 {
            fault()
        } else if self == PrimitiveOp::Tilde {
            if p.len() == 1 {
                match p[0] {
                    DValue::Integer(i) => Ok(arithmetic_answer(-i, c[0])),
                    _ => fault(),
                }
            } else {
                fault()
            }
        } else if p.len() == 2 {
            match (p[0], p[1]) {
                (DValue::Integer(i), DValue::Integer(j)) => {
                    if self == PrimitiveOp::Divide && j == 0 {
                        Ok(Exception::DivideByZero.raised())
                    } else {
                        Ok(arithmetic_answer(self.integer_result(i as int, j as int), c[0]))
                    }
                },
                _ => fault(),
            }
        } else {
            fault()
        }
    }

    /// `ieql` and `ineq` on any two values, with two continuations.
    pub open spec fn equality(self, p: Seq<DValue>, c: Seq<Continuation>, same: bool) -> Result<
        AnswerView,
        InternalException,
    > {
        if p.len() == 2 && c.len() == 2 {
            match p[0].eq_spec(p[1], same) {
                Ok(equal) => Ok(branch(c, equal == (self == PrimitiveOp::IEqual))),
                Err(e) => Err(e),
            }
        } else {
            fault()
        }
    }

    /// `<`, `<=`, `>`, `>=` and `rangechk` on two integers, with two
    /// continuations.
    pub open spec fn comparison(self, p: Seq<DValue>, c: Seq<Continuation>) -> Result<
        AnswerView,
        InternalException,
    > {
        if p.len() == 2 && c.len() == 2 {
            match (p[0], p[1]) {
                (DValue::Integer(i), DValue::Integer(j)) => Ok(
                    branch(c, self.holds(i as int, j as int)),
                ),
                _ => fault(),
            }
        } else {
            fault()
        }
    }

    /// `!`, `subscript`, `ordof`, `alength` and `slength`, with one
    /// continuation.
    pub open spec fn reading(self, p: Seq<DValue>, c: Seq<Continuation>) -> Result<
        AnswerView,
        InternalException,
    > {
        if c.len() != 1 {
            fault()
        } else if self == PrimitiveOp::Bang && p.len() == 1 {
            subscript(p[0], 0, c[0])
        } else if self == PrimitiveOp::Subscript && p.len() == 2 {
            match p[1] {
                DValue::Integer(n) => subscript(p[0], n, c[0]),
                _ => fault(),
            }
        } else if self == PrimitiveOp::OrdinalOf && p.len() == 2 {
            match (p[0], p[1]) {
                (DValue::String(s), DValue::Integer(i)) => {
                    if 0 <= i < bytes_of(s).len() {
                        Ok(c[0].applied(seq![DValue::Integer(bytes_of(s)[i as int] as i64)]))
                    } else {
                        Ok(Exception::IndexOutOfBounds.raised())
                    }
                },
                _ => fault(),
            }
        } else if self == PrimitiveOp::ArrayLength && p.len() == 1 {
            match p[0] {
                DValue::Array(range) => Ok(length_answer(span(range), c[0])),
                DValue::UnboxedArray(range) => Ok(length_answer(span(range), c[0])),
                _ => fault(),
            }
        } else if self == PrimitiveOp::StringLength && p.len() == 1 {
            match p[0] {
                DValue::ByteArray(range) => Ok(length_answer(span(range), c[0])),
                DValue::String(s) => Ok(length_answer(bytes_of(s).len() as usize as int, c[0])),
                _ => fault(),
            }
        } else {
            fault()
        }
    }

    /// `:=`, `unboxedassign`, `update`, `unboxedupdate`, `store`, `makeref`
    /// and `makerefunboxed`, with one continuation.
    pub open spec fn writing(self, p: Seq<DValue>, c: Seq<Continuation>) -> Result<
        AnswerView,
        InternalException,
    > {
        if c.len() != 1 {
            fault()
        } else if self == PrimitiveOp::ColonEqual && p.len() == 2 {
            match p[0] {
                DValue::Array(_) => update(p[0], DValue::Integer(0), p[1], c[0]),
                _ => fault(),
            }
        } else if self == PrimitiveOp::UnboxedAssign && p.len() == 2 {
            unboxed_update(p[0], DValue::Integer(0), p[1], c[0])
        } else if self == PrimitiveOp::Update && p.len() == 3 {
            update(p[0], p[1], p[2], c[0])
        } else if self == PrimitiveOp::UnboxedUpdate && p.len() == 3 {
            unboxed_update(p[0], p[1], p[2], c[0])
        } else if self == PrimitiveOp::Store && p.len() == 3 {
            match (p[0], p[1], p[2]) {
                (DValue::ByteArray(range), DValue::Integer(index), DValue::Integer(byte)) => {
                    if 0 <= byte < 256 {
                        Ok(
                            suspended(
                                RawContinuation::UpdateInteger {
                                    start: range.start,
                                    index,
                                    integer: byte,
                                    next: c[0],
                                },
                            ),
                        )
                    } else {
                        Ok(Exception::Overflow.raised())
                    }
                },
                _ => fault(),
            }
        } else if self == PrimitiveOp::MakeRef && p.len() == 1 {
            Ok(suspended(RawContinuation::MakeRef { value: p[0], next: c[0] }))
        } else if self == PrimitiveOp::MakeRefUnboxed && p.len() == 1 {
            match p[0] {
                DValue::Integer(integer) => Ok(
                    suspended(RawContinuation::MakeRefUnboxed { integer, next: c[0] }),
                ),
                _ => fault(),
            }
        } else {
            fault()
        }
    }

    /// `gethdlr` on nothing and `sethdlr` on a function, with one
    /// continuation.
    pub open spec fn handling(self, p: Seq<DValue>, c: Seq<Continuation>) -> Result<
        AnswerView,
        InternalException,
    > {
        if c.len() != 1 {
            fault()
        } else if self == PrimitiveOp::GetHandler && p.len() == 0 {
            Ok(suspended(RawContinuation::GetHandler { next: c[0] }))
        } else if self == PrimitiveOp::SetHandler && p.len() == 1 {
            match p[0] {
                DValue::Function(_) => Ok(
                    suspended(RawContinuation::SetHandler { handler: p[0], next: c[0] }),
                ),
                _ => fault(),
            }
        } else {
            fault()
        }
    }

    /// `boxed` on any value, with two continuations: integers and reals are
    /// not boxed, everything else is.
    pub open spec fn boxing(self, p: Seq<DValue>, c: Seq<Continuation>) -> Result<
        AnswerView,
        InternalException,
    > {
        if p.len() == 1 && c.len() == 2 {
            match p[0] {
                DValue::Integer(_) => Ok(branch(c, false)),
                DValue::Real(_) => Ok(branch(c, false)),
                _ => Ok(branch(c, true)),
            }
        } else {
            fault()
        }
    }

    /// `fadd`, `fsub`, `fmul` and `fdiv` on two reals, with one
    /// continuation. Division by a zero raises `DivideByZero`; everything
    /// else is left to the host, which gets the two operands.
    pub open spec fn real_arithmetic(self, p: Seq<DValue>, c: Seq<Continuation>) -> Result<
        AnswerView,
        InternalException,
    > {
        if p.len() == 2 && c.len() == 1 {
            match (p[0], p[1]) {
                (DValue::Real(a), DValue::Real(b)) => {
                    if self == PrimitiveOp::FDivide && b.zero() {
                        Ok(Exception::DivideByZero.raised())
                    } else {
                        Ok(
                            AnswerView {
                                f: RawContinuation::Real { operation: self, next: c[0] },
                                parameters: seq![p[0], p[1]],
                            },
                        )
                    }
                },
                _ => fault(),
            }
        } else {
            fault()
        }
    }

    /// `feql`, `fneq`, `fge`, `fgt`, `fle` and `flt` on two reals, with two
    /// continuations.
    pub open spec fn real_comparison(self, p: Seq<DValue>, c: Seq<Continuation>) -> Result<
        AnswerView,
        InternalException,
    > {
        if p.len() == 2 && c.len() == 2 {
            match (p[0], p[1]) {
                (DValue::Real(a), DValue::Real(b)) => Ok(branch(c, self.holds_real(a, b))),
                _ => fault(),
            }
        } else {
            fault()
        }
    }

    /// What the operation does with the operands `p` and the continuations
    /// `c`: the answer it gives, or the fault of operands or continuations
    /// that it is not defined on. `same` says whether two operands that are
    /// compared by their allocation were found in one allocation; only
    /// `ieql` and `ineq` depend on it.
    pub open spec fn denotation(self, p: Seq<DValue>, c: Seq<Continuation>, same: bool) -> Result<
        AnswerView,
        InternalException,
    > {
        match self {
            PrimitiveOp::Multiply
            | PrimitiveOp::Add
            | PrimitiveOp::Subtract
            | PrimitiveOp::Divide
            | PrimitiveOp::Tilde => self.arithmetic(p, c),
            PrimitiveOp::IEqual | PrimitiveOp::INEqual => self.equality(p, c, same),
            PrimitiveOp::Less
            | PrimitiveOp::LessEqual
            | PrimitiveOp::Greater
            | PrimitiveOp::GreaterEqual
            | PrimitiveOp::RangeCheck => self.comparison(p, c),
            PrimitiveOp::Bang
            | PrimitiveOp::Subscript
            | PrimitiveOp::OrdinalOf
            | PrimitiveOp::ArrayLength
            | PrimitiveOp::StringLength => self.reading(p, c),
            PrimitiveOp::ColonEqual
            | PrimitiveOp::UnboxedAssign
            | PrimitiveOp::Update
            | PrimitiveOp::UnboxedUpdate
            | PrimitiveOp::Store
            | PrimitiveOp::MakeRef
            | PrimitiveOp::MakeRefUnboxed => self.writing(p, c),
            PrimitiveOp::GetHandler | PrimitiveOp::SetHandler => self.handling(p, c),
            PrimitiveOp::Boxed => self.boxing(p, c),
            PrimitiveOp::FAdd
            | PrimitiveOp::FSubtract
            | PrimitiveOp::FMultiply
            | PrimitiveOp::FDivide => self.real_arithmetic(p, c),
            PrimitiveOp::FEqual
            | PrimitiveOp::FNEqual
            | PrimitiveOp::FGreaterEqual
            | PrimitiveOp::FGreater
            | PrimitiveOp::FLessEqual
            | PrimitiveOp::FLess => self.real_comparison(p, c),
        }
    }

    fn evaluate_arithmetic(self, p: &Parameters, c: &ContinuationList) -> (r: Result<
        Answer,
        InternalException,
    >)
        requires
            self == PrimitiveOp::Multiply || self == PrimitiveOp::Add || self
                == PrimitiveOp::Subtract || self == PrimitiveOp::Divide || self
                == PrimitiveOp::Tilde,
        ensures
            agrees(r, self.arithmetic(p@, c@)),
    {
        if c.len() != 1 {
            return Err(InternalException::Undefined);
        }
        if self == PrimitiveOp::Tilde {
            if p.len() != 1 {
                return Err(InternalException::Undefined);
            }
            return match &p[0] {
                DValue::Integer(i) => Ok(pass_integer(0i64.checked_sub(*i), &c[0])),
                _ => Err(InternalException::Undefined),
            };
        }
        if p.len() != 2 {
            return Err(InternalException::Undefined);
        }
        match (&p[0], &p[1]) {
            (DValue::Integer(i), DValue::Integer(j)) => {
                match self {
                    PrimitiveOp::Multiply => Ok(pass_integer(i.checked_mul(*j), &c[0])),
                    PrimitiveOp::Add => Ok(pass_integer(i.checked_add(*j), &c[0])),
                    PrimitiveOp::Subtract => Ok(pass_integer(i.checked_sub(*j), &c[0])),
                    PrimitiveOp::Divide => {
                        if *j == 0 {
                            Ok(Exception::DivideByZero.as_answer())
                        } else {
                            proof {
                                lemma_quotient(*i as int, *j as int);
                            }
                            Ok(pass_integer(i.checked_div(*j), &c[0]))
                        }
                    },
                    _ => Err(InternalException::Undefined),
                }
            },
            _ => Err(InternalException::Undefined),
        }
    }

    fn evaluate_equality(self, p: &Parameters, c: &ContinuationList, same: bool) -> (r: Result<
        Answer,
        InternalException,
    >)
        ensures
            agrees(r, self.equality(p@, c@, same)),
    {
        if p.len() != 2 || c.len() != 2 {
            return Err(InternalException::Undefined);
        }
        match p[0].eq_given(&p[1], same) {
            Ok(equal) => Ok(take_branch(c, equal == (self == PrimitiveOp::IEqual))),
            Err(e) => Err(e),
        }
    }

    fn evaluate_comparison(self, p: &Parameters, c: &ContinuationList) -> (r: Result<
        Answer,
        InternalException,
    >)
        ensures
            agrees(r, self.comparison(p@, c@)),
    {
        if p.len() != 2 || c.len() != 2 {
            return Err(InternalException::Undefined);
        }
        match (&p[0], &p[1]) {
            (DValue::Integer(i), DValue::Integer(j)) => {
                let holds = match self {
                    PrimitiveOp::Less => *i < *j,
                    PrimitiveOp::LessEqual => *i <= *j,
                    PrimitiveOp::Greater => *i > *j,
                    PrimitiveOp::GreaterEqual => *i >= *j,
                    PrimitiveOp::RangeCheck => {
                        if *j < 0 {
                            if *i < 0 {
                                *i < *j
                            } else {
                                true
                            }
                        } else if *i < 0 {
                            false
                        } else {
                            *i < *j
                        }
                    },
                    _ => false,
                };
                Ok(take_branch(c, holds))
            },
            _ => Err(InternalException::Undefined),
        }
    }

    fn evaluate_reading(self, p: &Parameters, c: &ContinuationList) -> (r: Result<
        Answer,
        InternalException,
    >)
        ensures
            agrees(r, self.reading(p@, c@)),
    {
        if c.len() != 1 {
            return Err(InternalException::Undefined);
        }
        if self == PrimitiveOp::Bang && p.len() == 1 {
            evaluate_subscript(&p[0], 0, &c[0])
        } else if self == PrimitiveOp::Subscript && p.len() == 2 {
            match &p[1] {
                DValue::Integer(n) => evaluate_subscript(&p[0], *n, &c[0]),
                _ => Err(InternalException::Undefined),
            }
        } else if self == PrimitiveOp::OrdinalOf && p.len() == 2 {
            match (&p[0], &p[1]) {
                (DValue::String(s), DValue::Integer(i)) => {
                    let bytes = s.as_str().as_bytes();
                    if 0 <= *i && (*i as u64) < bytes.len() as u64 {
                        Ok(pass(&c[0], DValue::Integer(bytes[*i as usize] as i64)))
                    } else {
                        Ok(Exception::IndexOutOfBounds.as_answer())
                    }
                },
                _ => Err(InternalException::Undefined),
            }
        } else if self == PrimitiveOp::ArrayLength && p.len() == 1 {
            match &p[0] {
                DValue::Array(range) => Ok(pass_length(length_of(range), &c[0])),
                DValue::UnboxedArray(range) => Ok(pass_length(length_of(range), &c[0])),
                _ => Err(InternalException::Undefined),
            }
        } else if self == PrimitiveOp::StringLength && p.len() == 1 {
            match &p[0] {
                DValue::ByteArray(range) => Ok(pass_length(length_of(range), &c[0])),
                DValue::String(s) => Ok(pass_length(s.as_str().len(), &c[0])),
                _ => Err(InternalException::Undefined),
            }
        } else {
            Err(InternalException::Undefined)
        }
    }

    fn evaluate_writing(self, p: &Parameters, c: &ContinuationList) -> (r: Result<
        Answer,
        InternalException,
    >)
        ensures
            agrees(r, self.writing(p@, c@)),
    {
        if c.len() != 1 {
            return Err(InternalException::Undefined);
        }
        if self == PrimitiveOp::ColonEqual && p.len() == 2 {
            match &p[0] {
                DValue::Array(_) => evaluate_update(&p[0], &DValue::Integer(0), &p[1], &c[0]),
                _ => Err(InternalException::Undefined),
            }
        } else if self == PrimitiveOp::UnboxedAssign && p.len() == 2 {
            evaluate_unboxed_update(&p[0], &DValue::Integer(0), &p[1], &c[0])
        } else if self == PrimitiveOp::Update && p.len() == 3 {
            evaluate_update(&p[0], &p[1], &p[2], &c[0])
        } else if self == PrimitiveOp::UnboxedUpdate && p.len() == 3 {
            evaluate_unboxed_update(&p[0], &p[1], &p[2], &c[0])
        } else if self == PrimitiveOp::Store && p.len() == 3 {
            match (&p[0], &p[1], &p[2]) {
                (DValue::ByteArray(range), DValue::Integer(index), DValue::Integer(byte)) => {
                    if *byte < 0 || *byte >= 256 {
                        // The value must fit into a byte.
                        Ok(Exception::Overflow.as_answer())
                    } else {
                        Ok(
                            suspend(
                                RawContinuation::UpdateInteger {
                                    start: range.start,
                                    index: *index,
                                    integer: *byte,
                                    next: c[0].clone(),
                                },
                            ),
                        )
                    }
                },
                _ => Err(InternalException::Undefined),
            }
        } else if self == PrimitiveOp::MakeRef && p.len() == 1 {
            Ok(suspend(RawContinuation::MakeRef { value: p[0].clone(), next: c[0].clone() }))
        } else if self == PrimitiveOp::MakeRefUnboxed && p.len() == 1 {
            match &p[0] {
                DValue::Integer(integer) => Ok(
                    suspend(
                        RawContinuation::MakeRefUnboxed { integer: *integer, next: c[0].clone() },
                    ),
                ),
                _ => Err(InternalException::Undefined),
            }
        } else {
            Err(InternalException::Undefined)
        }
    }

    fn evaluate_handling(self, p: &Parameters, c: &ContinuationList) -> (r: Result<
        Answer,
        InternalException,
    >)
        ensures
            agrees(r, self.handling(p@, c@)),
    {
        if c.len() != 1 {
            return Err(InternalException::Undefined);
        }
        if self == PrimitiveOp::GetHandler && p.len() == 0 {
            Ok(suspend(RawContinuation::GetHandler { next: c[0].clone() }))
        } else if self == PrimitiveOp::SetHandler && p.len() == 1 {
            match &p[0] {
                DValue::Function(_) => Ok(
                    suspend(
                        RawContinuation::SetHandler { handler: p[0].clone(), next: c[0].clone() },
                    ),
                ),
                _ => Err(InternalException::Undefined),
            }
        } else {
            Err(InternalException::Undefined)
        }
    }

    fn evaluate_boxing(self, p: &Parameters, c: &ContinuationList) -> (r: Result<
        Answer,
        InternalException,
    >)
        ensures
            agrees(r, self.boxing(p@, c@)),
    {
        if p.len() != 1 || c.len() != 2 {
            return Err(InternalException::Undefined);
        }
        match &p[0] {
            DValue::Integer(_) => Ok(take_branch(c, false)),
            DValue::Real(_) => Ok(take_branch(c, false)),
            _ => Ok(take_branch(c, true)),
        }
    }

    fn evaluate_real_arithmetic(self, p: &Parameters, c: &ContinuationList) -> (r: Result<
        Answer,
        InternalException,
    >)
        ensures
            agrees(r, self.real_arithmetic(p@, c@)),
    {
        if p.len() != 2 || c.len() != 1 {
            return Err(InternalException::Undefined);
        }
        match (&p[0], &p[1]) {
            (DValue::Real(_), DValue::Real(b)) => {
                if self == PrimitiveOp::FDivide && b.is_zero() {
                    Ok(Exception::DivideByZero.as_answer())
                } else {
                    let mut parameters = Vec::new();
                    parameters.push(p[0].clone());
                    parameters.push(p[1].clone());
                    assert(parameters@ =~= seq![p@[0], p@[1]]);
                    let next = c[0].clone();
                    Ok(
                        Answer {
                            f: Rc::new(RawContinuation::Real { operation: self, next }),
                            parameters,
                        },
                    )
                }
            },
            _ => Err(InternalException::Undefined),
        }
    }

    fn evaluate_real_comparison(self, p: &Parameters, c: &ContinuationList) -> (r: Result<
        Answer,
        InternalException,
    >)
        ensures
            agrees(r, self.real_comparison(p@, c@)),
    {
        if p.len() != 2 || c.len() != 2 {
            return Err(InternalException::Undefined);
        }
        match (&p[0], &p[1]) {
            (DValue::Real(a), DValue::Real(b)) => {
                let holds = match self {
                    PrimitiveOp::FEqual => a.is_equal(*b),
                    PrimitiveOp::FNEqual => !a.is_equal(*b),
                    PrimitiveOp::FGreaterEqual => a.is_greater_equal(*b),
                    PrimitiveOp::FGreater => a.is_greater(*b),
                    PrimitiveOp::FLessEqual => a.is_less_equal(*b),
                    PrimitiveOp::FLess => a.is_less(*b),
                    _ => false,
                };
                Ok(take_branch(c, holds))
            },
            _ => Err(InternalException::Undefined),
        }
    }

    /// Carries out the operation, given whether two operands that are
    /// compared by their allocation were found in one allocation.
    pub fn evaluate_given(
        self,
        parameters: Parameters,
        continuation_list: ContinuationList,
        same: bool,
    ) -> (r: Result<Answer, InternalException>)
        ensures
            agrees(r, self.denotation(parameters@, continuation_list@, same)),
    {
        let p = &parameters;
        let c = &continuation_list;
        match self {
            PrimitiveOp::Multiply
            | PrimitiveOp::Add
            | PrimitiveOp::Subtract
            | PrimitiveOp::Divide
            | PrimitiveOp::Tilde => self.evaluate_arithmetic(p, c),
            PrimitiveOp::IEqual | PrimitiveOp::INEqual => self.evaluate_equality(p, c, same),
            PrimitiveOp::Less
            | PrimitiveOp::LessEqual
            | PrimitiveOp::Greater
            | PrimitiveOp::GreaterEqual
            | PrimitiveOp::RangeCheck => self.evaluate_comparison(p, c),
            PrimitiveOp::Bang
            | PrimitiveOp::Subscript
            | PrimitiveOp::OrdinalOf
            | PrimitiveOp::ArrayLength
            | PrimitiveOp::StringLength => self.evaluate_reading(p, c),
            PrimitiveOp::ColonEqual
            | PrimitiveOp::UnboxedAssign
            | PrimitiveOp::Update
            | PrimitiveOp::UnboxedUpdate
            | PrimitiveOp::Store
            | PrimitiveOp::MakeRef
            | PrimitiveOp::MakeRefUnboxed => self.evaluate_writing(p, c),
            PrimitiveOp::GetHandler | PrimitiveOp::SetHandler => self.evaluate_handling(p, c),
            PrimitiveOp::Boxed => self.evaluate_boxing(p, c),
            PrimitiveOp::FAdd
            | PrimitiveOp::FSubtract
            | PrimitiveOp::FMultiply
            | PrimitiveOp::FDivide => self.evaluate_real_arithmetic(p, c),
            PrimitiveOp::FEqual
            | PrimitiveOp::FNEqual
            | PrimitiveOp::FGreaterEqual
            | PrimitiveOp::FGreater
            | PrimitiveOp::FLessEqual
            | PrimitiveOp::FLess => self.evaluate_real_comparison(p, c),
        }
    }

    /// Carries out the operation on `parameters` and hands the result to
    /// one of the continuations.
    ///
    /// Whatever the allocations of the operands, the result is what
    /// [`PrimitiveOp::denotation`] gives for one of the two answers to the
    /// question whether they share one; and they are only ever found to
    /// share one if they are the same string or have the same fields.
    pub fn evaluate(self, parameters: Parameters, continuation_list: ContinuationList) -> (r:
        Result<Answer, InternalException>)
        ensures
            exists|same: bool|
                (same ==> parameters@.len() == 2 && parameters@[0].shares_with(parameters@[1]))
                    && agrees(r, #[trigger] self.denotation(parameters@, continuation_list@, same)),
            !self.compares_allocations(parameters@) ==> agrees(
                r,
                self.denotation(parameters@, continuation_list@, false),
            ),
    {
        let same = if parameters.len() == 2 {
            parameters[0].in_same_allocation(&parameters[1])
        } else {
            false
        };
        let ghost p = parameters@;
        let ghost c = continuation_list@;
        let r = self.evaluate_given(parameters, continuation_list, same);
        assert((same ==> p.len() == 2 && p[0].shares_with(p[1])) && agrees(
            r,
            self.denotation(p, c, same),
        ));
        r
    }

    /// Whether the operation compares its operands `p` by their allocation.
    pub open spec fn compares_allocations(self, p: Seq<DValue>) -> bool {
        &&& self == PrimitiveOp::IEqual || self == PrimitiveOp::INEqual
        &&& p.len() == 2
        &&& p[0].allocated_alike(p[1])
    }
}

/// Integer arithmetic is exact where the exact result is an integer of the
/// program, and raises `Overflow` where it is not. Division by zero raises
/// `DivideByZero`.
pub proof fn lemma_integer_arithmetic(
    operation: PrimitiveOp,
    i: Integer,
    j: Integer,
    c: Continuation,
    same: bool,
)
    requires
        operation == PrimitiveOp::Multiply || operation == PrimitiveOp::Add || operation
            == PrimitiveOp::Subtract || operation == PrimitiveOp::Divide,
    ensures
        operation == PrimitiveOp::Divide && j == 0 ==> operation.denotation(
            seq![DValue::Integer(i), DValue::Integer(j)],
            seq![c],
            same,
        ) == Ok::<AnswerView, InternalException>(Exception::DivideByZero.raised()),
        !(operation == PrimitiveOp::Divide && j == 0) ==> operation.denotation(
            seq![DValue::Integer(i), DValue::Integer(j)],
            seq![c],
            same,
        ) == Ok::<AnswerView, InternalException>(
            if i64::MIN <= operation.integer_result(i as int, j as int) <= i64::MAX {
                c.applied(seq![DValue::Integer(operation.integer_result(i as int, j as int) as i64)])
            } else {
                Exception::Overflow.raised()
            },
        ),
        PrimitiveOp::Tilde.denotation(seq![DValue::Integer(i)], seq![c], same) == Ok::<
            AnswerView,
            InternalException,
        >(
            if -i <= i64::MAX {
                c.applied(seq![DValue::Integer((-i) as i64)])
            } else {
                Exception::Overflow.raised()
            },
        ),
{
}

/// The quotient is the exact quotient rounded towards zero: what is left
/// over is smaller in magnitude than the divisor and has the sign of the
/// dividend.
pub proof fn lemma_quotient_rounds_towards_zero(i: int, j: int)
    requires
        j != 0,
    ensures
        i >= 0 ==> 0 <= i - quotient(i, j) * j < (if j < 0 { -j } else { j }),
        i <= 0 ==> 0 <= quotient(i, j) * j - i < (if j < 0 { -j } else { j }),
{
    let a = if i < 0 { -i } else { i };
    let b = if j < 0 { -j } else { j };
    vstd::arithmetic::div_mod::lemma_fundamental_div_mod(a, b);
    vstd::arithmetic::div_mod::lemma_mod_bound(a, b);
    let m = a / b;
    assert(m * b == b * m) by (nonlinear_arith);
    assert(m * (-b) == -(m * b)) by (nonlinear_arith);
    assert((-m) * b == -(m * b)) by (nonlinear_arith);
    assert((-m) * (-b) == m * b) by (nonlinear_arith);
}

/// `rangechk i j` goes on with its first continuation exactly if `i` lies
/// below `j` when both are read as unsigned numbers. For a `j` that is not
/// negative, that is the case exactly if `0 <= i < j`.
pub proof fn lemma_range_check(
    i: Integer,
    j: Integer,
    then: Continuation,
    otherwise: Continuation,
    same: bool,
)
    ensures
        PrimitiveOp::RangeCheck.denotation(
            seq![DValue::Integer(i), DValue::Integer(j)],
            seq![then, otherwise],
            same,
        ) == Ok::<AnswerView, InternalException>(
            if unsigned(i as int) < unsigned(j as int) {
                then.applied(Seq::empty())
            } else {
                otherwise.applied(Seq::empty())
            },
        ),
        j >= 0 ==> (unsigned(i as int) < unsigned(j as int) <==> 0 <= i < j),
{
}

/// What an operation does is settled by its operands and continuations,
/// except where it compares two strings or two records: there it depends on
/// whether the two were found in one allocation, and on nothing else.
pub proof fn lemma_latitude(
    operation: PrimitiveOp,
    p: Seq<DValue>,
    c: Seq<Continuation>,
    one: bool,
    other: bool,
)
    ensures
        !operation.compares_allocations(p) ==> operation.denotation(p, c, one)
            == operation.denotation(p, c, other),
        one == other ==> operation.denotation(p, c, one) == operation.denotation(p, c, other),
{
}

} // verus!

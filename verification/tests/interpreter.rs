use cps_interpreter::continuation::{Answer, Continuation, RawContinuation};
use cps_interpreter::continuation_expression::{ContinuationExpression, FunctionDefinition};
use cps_interpreter::denotable_value::{resolve_field, AccessPath, DValue, Fields};
use cps_interpreter::environment::Environment;
use cps_interpreter::exception::{
    raise_exception, raise_exception_msg, Exception, InternalException,
};
use cps_interpreter::machine::{run as run_machine, Outcome};
use cps_interpreter::primitive_op::{next_location, PrimitiveOp};
use cps_interpreter::reals::Real;
use cps_interpreter::store::Store;
use cps_interpreter::value::Value;
use cps_interpreter::{arbitrarily, evaluate, Variable};
use std::rc::Rc;

const HALT: u64 = 0;
const HANDLER: u64 = 1;
const OTHER_HANDLER: u64 = 2;

/// How a run of the machine ended.
#[derive(Debug)]
enum End {
    Host(u64, Vec<DValue>, Store),
    Abort(InternalException),
    OutOfFuel,
}

fn var(name: &str) -> Variable {
    Variable::new(name)
}

fn name(name: &str) -> Value {
    Value::Variable(var(name))
}

fn literal(i: i64) -> Value {
    Value::Integer(i)
}

fn real_of(x: f64) -> Real {
    Real::from_bits(x.to_bits())
}

fn number(x: Real) -> f64 {
    f64::from_bits(x.to_bits())
}

fn apply(function: &str, arguments: Vec<Value>) -> Rc<ContinuationExpression> {
    Rc::new(ContinuationExpression::Apply { function: name(function), arguments })
}

fn prim(
    operation: PrimitiveOp,
    values: Vec<Value>,
    variables: Vec<&str>,
    expressions: Vec<Rc<ContinuationExpression>>,
) -> Rc<ContinuationExpression> {
    Rc::new(ContinuationExpression::PrimitiveOp {
        operation,
        values,
        variables: Rc::new(variables.into_iter().map(var).collect()),
        expressions,
    })
}

fn halt_with(value: Value) -> Rc<ContinuationExpression> {
    apply("halt", vec![value])
}

fn host(number: u64) -> DValue {
    DValue::Function(Continuation::host(number))
}

fn arithmetic(operation: PrimitiveOp, left: Real, right: Real) -> Real {
    let (a, b) = (number(left), number(right));
    real_of(match operation {
        PrimitiveOp::FAdd => a + b,
        PrimitiveOp::FSubtract => a - b,
        PrimitiveOp::FMultiply => a * b,
        PrimitiveOp::FDivide => a / b,
        _ => panic!("not an operation on reals"),
    })
}

fn drive(mut answer: Answer, mut store: Store) -> End {
    for _ in 0..10_000 {
        match answer.call(store) {
            Outcome::Continue { answer: next, store: s } => {
                answer = next;
                store = s;
            }
            Outcome::Host { function, parameters, store } => {
                return End::Host(function, parameters, store)
            }
            Outcome::Real { operation, left, right, next, store: s } => {
                answer = next.call(vec![DValue::Real(arithmetic(operation, left, right))]);
                store = s;
            }
            Outcome::Abort(e) => return End::Abort(e),
        }
    }
    End::OutOfFuel
}

/// Runs `expression` with `halt`, `h` and `other` bound to functions of the
/// host, and `h` installed as the exception handler.
fn run_with(
    expression: Rc<ContinuationExpression>,
    extra: Vec<(&str, DValue)>,
) -> End {
    let mut variables = vec![var("halt"), var("h"), var("other")];
    let mut values = vec![host(HALT), host(HANDLER), host(OTHER_HANDLER)];
    for (n, d) in extra {
        variables.push(var(n));
        values.push(d);
    }
    let expression = Rc::try_unwrap(expression).expect("a term that nothing else holds");
    match evaluate(variables, values, expression) {
        Ok(answer) => drive(answer, Store::new(Continuation::host(HANDLER))),
        Err(e) => End::Abort(e),
    }
}

fn run(expression: Rc<ContinuationExpression>) -> End {
    run_with(expression, vec![])
}

fn halted_with_integer(end: &End) -> Option<i64> {
    match end {
        End::Host(HALT, parameters, _) => match parameters.as_slice() {
            [DValue::Integer(i)] => Some(*i),
            _ => None,
        },
        _ => None,
    }
}

fn handled(end: &End) -> Option<Exception> {
    match end {
        End::Host(HANDLER, parameters, _) => match parameters.as_slice() {
            [DValue::Exception(e)] => Some(*e),
            _ => None,
        },
        _ => None,
    }
}

fn binary(operation: PrimitiveOp, i: i64, j: i64) -> End {
    run(prim(operation, vec![literal(i), literal(j)], vec!["x"], vec![halt_with(name("x"))]))
}

/// 1 if the predicate takes its first continuation, 0 if its second.
fn decide(operation: PrimitiveOp, values: Vec<Value>) -> End {
    run(prim(operation, values, vec![], vec![halt_with(literal(1)), halt_with(literal(0))]))
}

fn record(fields: Vec<DValue>) -> DValue {
    DValue::Record { values: Fields::from_vec(&fields), idx: 0 }
}

#[test]
fn it_works() {
    assert_eq!(2 + 2, 4);
}

#[test]
fn arithmetic_adds() {
    assert_eq!(halted_with_integer(&binary(PrimitiveOp::Add, 40, 2)), Some(42));
}

#[test]
fn multiplication_overflow_reaches_the_handler() {
    assert_eq!(handled(&binary(PrimitiveOp::Multiply, i64::MAX, 2)), Some(Exception::Overflow));
}

#[test]
fn record_then_select() {
    let body = Rc::new(ContinuationExpression::Select {
        location: 1,
        value: name("r"),
        variable: var("y"),
        expression: halt_with(name("y")),
    });
    let term = Rc::new(ContinuationExpression::Record {
        values: vec![
            (literal(10), Rc::new(AccessPath::Offset(0))),
            (literal(20), Rc::new(AccessPath::Offset(0))),
        ],
        variable: var("r"),
        expression: body,
    });
    assert_eq!(halted_with_integer(&run(term)), Some(20));
}

fn parity(function: &str, other: &str, at_zero: i64) -> Rc<FunctionDefinition> {
    Rc::new(FunctionDefinition {
        name: var(function),
        formal_parameters: vec![var("n")],
        body: ContinuationExpression::PrimitiveOp {
            operation: PrimitiveOp::IEqual,
            values: vec![name("n"), literal(0)],
            variables: Rc::new(vec![]),
            expressions: vec![
                halt_with(literal(at_zero)),
                prim(
                    PrimitiveOp::Subtract,
                    vec![name("n"), literal(1)],
                    vec!["m"],
                    vec![apply(other, vec![name("m")])],
                ),
            ],
        },
    })
}

fn even_of(n: i64) -> End {
    run(Rc::new(ContinuationExpression::Fix {
        function_defs: Rc::new(vec![parity("even", "odd", 1), parity("odd", "even", 0)]),
        expression: apply("even", vec![literal(n)]),
    }))
}

#[test]
fn mutual_recursion() {
    assert_eq!(halted_with_integer(&even_of(6)), Some(1));
    assert_eq!(halted_with_integer(&even_of(7)), Some(0));
    assert_eq!(halted_with_integer(&even_of(0)), Some(1));
}

#[test]
fn reference_cell() {
    let read = prim(PrimitiveOp::Bang, vec![name("r")], vec!["x"], vec![halt_with(name("x"))]);
    let write = prim(PrimitiveOp::ColonEqual, vec![name("r"), literal(7)], vec![], vec![read]);
    let term = prim(PrimitiveOp::MakeRef, vec![literal(0)], vec!["r"], vec![write]);
    let end = run(term);
    assert_eq!(halted_with_integer(&end), Some(7));
    match end {
        End::Host(_, _, store) => {
            assert_eq!(store.next_unused_address, 2);
            assert!(matches!(store.fetch(1), DValue::Integer(7)));
            assert!(matches!(store.fetch_integer(1), DValue::Integer(7)));
        }
        _ => panic!("the program did not halt"),
    }
}

#[test]
fn installed_handler_gets_the_exception() {
    let divide = prim(
        PrimitiveOp::Divide,
        vec![literal(1), literal(0)],
        vec!["x"],
        vec![halt_with(name("x"))],
    );
    let term = prim(PrimitiveOp::SetHandler, vec![name("other")], vec![], vec![divide]);
    match run(term) {
        End::Host(function, parameters, _) => {
            assert_eq!(function, OTHER_HANDLER);
            assert!(matches!(
                parameters.as_slice(),
                [DValue::Exception(Exception::DivideByZero)]
            ));
        }
        end => panic!("unexpected end: {:?}", end),
    }
}

#[test]
fn get_handler_returns_the_installed_function() {
    let term = prim(PrimitiveOp::GetHandler, vec![], vec!["k"], vec![apply("k", vec![literal(5)])]);
    match run(term) {
        End::Host(function, parameters, _) => {
            assert_eq!(function, HANDLER);
            assert!(matches!(parameters.as_slice(), [DValue::Integer(5)]));
        }
        end => panic!("unexpected end: {:?}", end),
    }
}

#[test]
fn integer_arithmetic_is_exact_or_overflows() {
    assert_eq!(halted_with_integer(&binary(PrimitiveOp::Subtract, 5, 8)), Some(-3));
    assert_eq!(halted_with_integer(&binary(PrimitiveOp::Multiply, -6, 7)), Some(-42));
    assert_eq!(halted_with_integer(&binary(PrimitiveOp::Add, i64::MAX, 0)), Some(i64::MAX));
    assert_eq!(handled(&binary(PrimitiveOp::Add, i64::MAX, 1)), Some(Exception::Overflow));
    assert_eq!(handled(&binary(PrimitiveOp::Subtract, i64::MIN, 1)), Some(Exception::Overflow));
    assert_eq!(handled(&binary(PrimitiveOp::Multiply, i64::MIN, -1)), Some(Exception::Overflow));
}

#[test]
fn division_rounds_towards_zero() {
    assert_eq!(halted_with_integer(&binary(PrimitiveOp::Divide, 7, 2)), Some(3));
    assert_eq!(halted_with_integer(&binary(PrimitiveOp::Divide, -7, 2)), Some(-3));
    assert_eq!(halted_with_integer(&binary(PrimitiveOp::Divide, 7, -2)), Some(-3));
    assert_eq!(halted_with_integer(&binary(PrimitiveOp::Divide, -7, -2)), Some(3));
    assert_eq!(halted_with_integer(&binary(PrimitiveOp::Divide, 0, -2)), Some(0));
    assert_eq!(handled(&binary(PrimitiveOp::Divide, i64::MIN, -1)), Some(Exception::Overflow));
    assert_eq!(handled(&binary(PrimitiveOp::Divide, 0, 0)), Some(Exception::DivideByZero));
}

#[test]
fn negation() {
    let negate = |i: i64| {
        run(prim(PrimitiveOp::Tilde, vec![literal(i)], vec!["x"], vec![halt_with(name("x"))]))
    };
    assert_eq!(halted_with_integer(&negate(5)), Some(-5));
    assert_eq!(halted_with_integer(&negate(i64::MAX)), Some(i64::MIN + 1));
    assert_eq!(handled(&negate(i64::MIN)), Some(Exception::Overflow));
}

#[test]
fn integer_comparisons() {
    let holds = |op: PrimitiveOp, i: i64, j: i64| {
        halted_with_integer(&decide(op, vec![literal(i), literal(j)])) == Some(1)
    };
    assert!(holds(PrimitiveOp::Less, -1, 0));
    assert!(!holds(PrimitiveOp::Less, 0, 0));
    assert!(holds(PrimitiveOp::LessEqual, 0, 0));
    assert!(holds(PrimitiveOp::Greater, 1, 0));
    assert!(!holds(PrimitiveOp::Greater, 0, 0));
    assert!(holds(PrimitiveOp::GreaterEqual, 0, 0));
    assert!(!holds(PrimitiveOp::GreaterEqual, -1, 0));
}

#[test]
fn range_check_is_unsigned_less_than() {
    let cases: Vec<i64> = vec![i64::MIN, -2, -1, 0, 1, 2, 5, i64::MAX];
    for &i in &cases {
        for &j in &cases {
            let end = decide(PrimitiveOp::RangeCheck, vec![literal(i), literal(j)]);
            let expected = if (i as u64) < (j as u64) { 1 } else { 0 };
            assert_eq!(halted_with_integer(&end), Some(expected), "rangechk {} {}", i, j);
            if j >= 0 {
                assert_eq!(expected == 1, 0 <= i && i < j);
            }
        }
    }
    assert_eq!(halted_with_integer(&decide(PrimitiveOp::RangeCheck, vec![literal(3), literal(5)])), Some(1));
    assert_eq!(halted_with_integer(&decide(PrimitiveOp::RangeCheck, vec![literal(5), literal(5)])), Some(0));
    assert_eq!(halted_with_integer(&decide(PrimitiveOp::RangeCheck, vec![literal(-1), literal(5)])), Some(0));
}

#[test]
fn equality_of_integers() {
    assert_eq!(halted_with_integer(&decide(PrimitiveOp::IEqual, vec![literal(3), literal(3)])), Some(1));
    assert_eq!(halted_with_integer(&decide(PrimitiveOp::IEqual, vec![literal(3), literal(4)])), Some(0));
    assert_eq!(halted_with_integer(&decide(PrimitiveOp::INEqual, vec![literal(3), literal(4)])), Some(1));
    assert_eq!(halted_with_integer(&decide(PrimitiveOp::INEqual, vec![literal(3), literal(3)])), Some(0));
}

#[test]
fn equality_of_values() {
    let one = record(vec![DValue::Integer(1)]);
    let twin = record(vec![DValue::Integer(1)]);
    // One allocation, seen twice at the same offset.
    assert!(matches!(one.eq(&one.clone()), Ok(true)));
    // Equal contents in two allocations.
    assert!(matches!(one.eq(&twin), Ok(false)));
    // One allocation at two offsets.
    let shifted = resolve_field(one.clone(), Rc::new(AccessPath::Offset(1))).unwrap();
    assert!(matches!(one.eq(&shifted), Ok(false)));
    let text = DValue::String(Rc::new(String::from("abc")));
    assert!(matches!(text.eq(&text.clone()), Ok(true)));
    assert!(matches!(text.eq(&DValue::String(Rc::new(String::from("abc")))), Ok(false)));
    assert!(matches!(DValue::Array(1..3).eq(&DValue::Array(1..3)), Ok(true)));
    assert!(matches!(DValue::Array(1..3).eq(&DValue::Array(1..4)), Ok(false)));
    assert!(matches!(DValue::Array(1..3).eq(&DValue::UnboxedArray(1..3)), Ok(false)));
    assert!(matches!(DValue::ByteArray(0..2).eq(&DValue::ByteArray(0..2)), Ok(true)));
    assert!(matches!(DValue::Integer(1).eq(&DValue::Real(real_of(1.0))), Ok(false)));
    assert!(matches!(DValue::Real(real_of(0.0)).eq(&DValue::Real(real_of(-0.0))), Ok(true)));
    assert!(matches!(DValue::Real(real_of(f64::NAN)).eq(&DValue::Real(real_of(f64::NAN))), Ok(false)));
    assert!(matches!(
        DValue::Exception(Exception::Overflow).eq(&DValue::Exception(Exception::Overflow)),
        Ok(false)
    ));
    assert!(matches!(host(1).eq(&host(1)), Err(InternalException::Undefined)));
    assert!(matches!(one.eq_given(&twin, true), Ok(true)));
    assert!(matches!(one.eq_given(&twin, false), Ok(false)));
    assert!(one.in_same_allocation(&one.clone()));
    assert!(!one.in_same_allocation(&twin));
    assert!(!DValue::Integer(1).in_same_allocation(&DValue::Integer(1)));
    // A record without fields has no allocation, not even one of its own.
    let empty = record(vec![]);
    assert!(!empty.in_same_allocation(&empty.clone()));
    assert!(!empty.in_same_allocation(&one));
    assert!(!text.in_same_allocation(&one));
    assert!(text.in_same_allocation(&text.clone()));
    assert!(one.in_same_allocation(&shifted));
}

#[test]
fn equality_of_functions_is_a_fault() {
    let end = decide(PrimitiveOp::IEqual, vec![name("halt"), name("h")]);
    assert!(matches!(end, End::Abort(InternalException::Undefined)));
}

#[test]
fn equality_of_one_record_with_itself() {
    let term = Rc::new(ContinuationExpression::Record {
        values: vec![(literal(1), Rc::new(AccessPath::Offset(0)))],
        variable: var("r"),
        expression: prim(
            PrimitiveOp::IEqual,
            vec![name("r"), name("r")],
            vec![],
            vec![halt_with(literal(1)), halt_with(literal(0))],
        ),
    });
    assert_eq!(halted_with_integer(&run(term)), Some(1));
}

#[test]
fn arbitrarily_takes_the_first() {
    assert!(arbitrarily(true, false));
    assert!(!arbitrarily(false, true));
    assert!(arbitrarily(true, true));
    assert!(!arbitrarily(false, false));
}

#[test]
fn boxed_tells_immediate_values_apart() {
    let boxed = |d: DValue| {
        let term = prim(
            PrimitiveOp::Boxed,
            vec![name("v")],
            vec![],
            vec![halt_with(literal(1)), halt_with(literal(0))],
        );
        halted_with_integer(&run_with(term, vec![("v", d)]))
    };
    assert_eq!(boxed(DValue::Integer(3)), Some(0));
    assert_eq!(boxed(DValue::Real(real_of(3.0))), Some(0));
    assert_eq!(boxed(record(vec![])), Some(1));
    assert_eq!(boxed(DValue::String(Rc::new(String::new()))), Some(1));
    assert_eq!(boxed(DValue::Array(0..1)), Some(1));
    assert_eq!(boxed(DValue::UnboxedArray(0..1)), Some(1));
    assert_eq!(boxed(DValue::ByteArray(0..1)), Some(1));
    assert_eq!(boxed(host(9)), Some(1));
    assert_eq!(boxed(DValue::Exception(Exception::Undefined)), Some(1));
}

#[test]
fn strings_and_lengths() {
    let on = |op: PrimitiveOp, values: Vec<Value>, d: DValue| {
        run_with(prim(op, values, vec!["x"], vec![halt_with(name("x"))]), vec![("v", d)])
    };
    let text = || DValue::String(Rc::new(String::from("aé")));
    assert_eq!(
        halted_with_integer(&on(PrimitiveOp::OrdinalOf, vec![name("v"), literal(0)], text())),
        Some(97)
    );
    assert_eq!(
        halted_with_integer(&on(PrimitiveOp::OrdinalOf, vec![name("v"), literal(1)], text())),
        Some(0xc3)
    );
    assert_eq!(
        handled(&on(PrimitiveOp::OrdinalOf, vec![name("v"), literal(3)], text())),
        Some(Exception::IndexOutOfBounds)
    );
    assert_eq!(
        handled(&on(PrimitiveOp::OrdinalOf, vec![name("v"), literal(-1)], text())),
        Some(Exception::IndexOutOfBounds)
    );
    assert_eq!(
        halted_with_integer(&on(PrimitiveOp::StringLength, vec![name("v")], text())),
        Some(3)
    );
    assert_eq!(
        halted_with_integer(&on(
            PrimitiveOp::StringLength,
            vec![name("v")],
            DValue::ByteArray(2..7)
        )),
        Some(5)
    );
    assert_eq!(
        halted_with_integer(&on(PrimitiveOp::ArrayLength, vec![name("v")], DValue::Array(2..4))),
        Some(2)
    );
    assert_eq!(
        halted_with_integer(&on(
            PrimitiveOp::ArrayLength,
            vec![name("v")],
            DValue::UnboxedArray(4..4)
        )),
        Some(0)
    );
    assert!(matches!(
        on(PrimitiveOp::ArrayLength, vec![name("v")], DValue::Integer(1)),
        End::Abort(InternalException::Undefined)
    ));
}

#[test]
fn subscript_of_a_record() {
    let on = |index: i64| {
        run_with(
            prim(
                PrimitiveOp::Subscript,
                vec![name("v"), literal(index)],
                vec!["x"],
                vec![halt_with(name("x"))],
            ),
            vec![("v", record(vec![DValue::Integer(10), DValue::Integer(20)]))],
        )
    };
    assert_eq!(halted_with_integer(&on(0)), Some(10));
    assert_eq!(halted_with_integer(&on(1)), Some(20));
    assert_eq!(handled(&on(2)), Some(Exception::IndexOutOfBounds));
    assert_eq!(handled(&on(-1)), Some(Exception::IndexOutOfBounds));
}

#[test]
fn byte_store_checks_the_byte() {
    let store_byte = |byte: i64| {
        let read = prim(
            PrimitiveOp::Subscript,
            vec![name("u"), literal(0)],
            vec!["x"],
            vec![halt_with(name("x"))],
        );
        run_with(
            prim(PrimitiveOp::Store, vec![name("b"), literal(0), literal(byte)], vec![], vec![read]),
            vec![("b", DValue::ByteArray(0..1)), ("u", DValue::UnboxedArray(0..1))],
        )
    };
    assert_eq!(halted_with_integer(&store_byte(255)), Some(255));
    assert_eq!(halted_with_integer(&store_byte(0)), Some(0));
    assert_eq!(handled(&store_byte(256)), Some(Exception::Overflow));
    assert_eq!(handled(&store_byte(-1)), Some(Exception::Overflow));
}

#[test]
fn updates_of_arrays() {
    let read = |array: &str| {
        prim(
            PrimitiveOp::Subscript,
            vec![name(array), literal(0)],
            vec!["x"],
            vec![halt_with(name("x"))],
        )
    };
    let arrays = || vec![("a", DValue::Array(0..1)), ("u", DValue::UnboxedArray(0..1))];
    let term = prim(PrimitiveOp::Update, vec![name("u"), literal(0), literal(11)], vec![], vec![read("u")]);
    assert_eq!(halted_with_integer(&run_with(term, arrays())), Some(11));
    let term = prim(
        PrimitiveOp::UnboxedUpdate,
        vec![name("u"), literal(0), literal(12)],
        vec![],
        vec![read("u")],
    );
    assert_eq!(halted_with_integer(&run_with(term, arrays())), Some(12));
    let term = prim(
        PrimitiveOp::UnboxedUpdate,
        vec![name("a"), literal(0), literal(13)],
        vec![],
        vec![read("a")],
    );
    assert_eq!(halted_with_integer(&run_with(term, arrays())), Some(13));
    let term = prim(PrimitiveOp::UnboxedAssign, vec![name("a"), literal(14)], vec![], vec![read("u")]);
    assert_eq!(halted_with_integer(&run_with(term, arrays())), Some(14));
    let term = prim(PrimitiveOp::Update, vec![name("a"), literal(5), literal(1)], vec![], vec![read("a")]);
    assert!(matches!(run_with(term, arrays()), End::Abort(InternalException::Undefined)));
    let term = prim(PrimitiveOp::Update, vec![name("a"), literal(-1), literal(1)], vec![], vec![read("a")]);
    assert!(matches!(run_with(term, arrays()), End::Abort(InternalException::Undefined)));
    let term = prim(PrimitiveOp::ColonEqual, vec![name("u"), literal(1)], vec![], vec![read("a")]);
    assert!(matches!(run_with(term, arrays()), End::Abort(InternalException::Undefined)));
}

#[test]
fn unboxed_reference_cell() {
    let read = prim(
        PrimitiveOp::Subscript,
        vec![name("u"), literal(1)],
        vec!["x"],
        vec![halt_with(name("x"))],
    );
    let term = prim(PrimitiveOp::MakeRefUnboxed, vec![literal(9)], vec!["r"], vec![read]);
    let end = run_with(term, vec![("u", DValue::UnboxedArray(0..2))]);
    assert_eq!(halted_with_integer(&end), Some(9));
}

#[test]
fn real_comparisons_follow_the_numbers() {
    let samples: Vec<f64> = vec![
        f64::NEG_INFINITY,
        f64::MIN,
        -2.5,
        -1.0,
        -f64::MIN_POSITIVE,
        -5e-324,
        -0.0,
        0.0,
        5e-324,
        f64::MIN_POSITIVE,
        1.0,
        2.5,
        f64::MAX,
        f64::INFINITY,
        f64::NAN,
        -f64::NAN,
    ];
    for &a in &samples {
        assert_eq!(real_of(a).is_nan(), a.is_nan());
        assert_eq!(real_of(a).is_zero(), a == 0.0);
        for &b in &samples {
            assert_eq!(real_of(a).is_equal(real_of(b)), a == b, "{} == {}", a, b);
            assert_eq!(real_of(a).is_less(real_of(b)), a < b, "{} < {}", a, b);
            assert_eq!(real_of(a).is_less_equal(real_of(b)), a <= b, "{} <= {}", a, b);
            assert_eq!(real_of(a).is_greater(real_of(b)), a > b, "{} > {}", a, b);
            assert_eq!(real_of(a).is_greater_equal(real_of(b)), a >= b, "{} >= {}", a, b);
        }
    }
}

#[test]
fn real_predicates() {
    let holds = |op: PrimitiveOp, a: f64, b: f64| {
        halted_with_integer(&decide(op, vec![Value::Real(real_of(a)), Value::Real(real_of(b))]))
            == Some(1)
    };
    assert!(holds(PrimitiveOp::FEqual, 1.5, 1.5));
    assert!(!holds(PrimitiveOp::FEqual, f64::NAN, f64::NAN));
    assert!(holds(PrimitiveOp::FNEqual, f64::NAN, f64::NAN));
    assert!(holds(PrimitiveOp::FNEqual, 1.0, 2.0));
    assert!(holds(PrimitiveOp::FGreaterEqual, 2.0, 2.0));
    assert!(holds(PrimitiveOp::FGreater, 2.0, 1.0));
    assert!(!holds(PrimitiveOp::FGreater, 2.0, 2.0));
    assert!(holds(PrimitiveOp::FLessEqual, -0.0, 0.0));
    assert!(holds(PrimitiveOp::FLess, -1.0, 1.0));
    assert!(!holds(PrimitiveOp::FLess, 1.0, f64::NAN));
}

#[test]
fn real_arithmetic_is_asked_of_the_host() {
    let on = |op: PrimitiveOp, a: f64, b: f64| {
        run(prim(
            op,
            vec![Value::Real(real_of(a)), Value::Real(real_of(b))],
            vec!["x"],
            vec![halt_with(name("x"))],
        ))
    };
    let result = |end: End| match end {
        End::Host(HALT, parameters, _) => match parameters.as_slice() {
            [DValue::Real(x)] => Some(number(*x)),
            _ => None,
        },
        _ => None,
    };
    assert_eq!(result(on(PrimitiveOp::FAdd, 1.5, 2.25)), Some(3.75));
    assert_eq!(result(on(PrimitiveOp::FSubtract, 1.5, 2.25)), Some(-0.75));
    assert_eq!(result(on(PrimitiveOp::FMultiply, 1.5, 2.0)), Some(3.0));
    assert_eq!(result(on(PrimitiveOp::FDivide, 3.0, 2.0)), Some(1.5));
    assert_eq!(handled(&on(PrimitiveOp::FDivide, 3.0, 0.0)), Some(Exception::DivideByZero));
    assert_eq!(handled(&on(PrimitiveOp::FDivide, 3.0, -0.0)), Some(Exception::DivideByZero));
}

#[test]
fn switch_picks_an_arm() {
    let switch = |value: Value| {
        run(Rc::new(ContinuationExpression::Switch {
            value,
            arms: vec![halt_with(literal(100)), halt_with(literal(101))],
        }))
    };
    assert_eq!(halted_with_integer(&switch(literal(0))), Some(100));
    assert_eq!(halted_with_integer(&switch(literal(1))), Some(101));
    assert_eq!(handled(&switch(literal(2))), Some(Exception::IndexOutOfBounds));
    assert_eq!(handled(&switch(literal(-1))), Some(Exception::IndexOutOfBounds));
    assert_eq!(
        handled(&switch(Value::String(String::from("x")))),
        Some(Exception::IndexOutOfBounds)
    );
}

#[test]
fn apply_of_something_else_than_a_function() {
    let term = Rc::new(ContinuationExpression::Apply { function: literal(3), arguments: vec![] });
    assert_eq!(handled(&run(term)), Some(Exception::Undefined));
}

#[test]
fn select_and_offset_of_something_else_than_a_record() {
    let select = Rc::new(ContinuationExpression::Select {
        location: 0,
        value: literal(1),
        variable: var("w"),
        expression: halt_with(name("w")),
    });
    assert_eq!(handled(&run(select)), Some(Exception::InvalidAccess));
    let offset = Rc::new(ContinuationExpression::Offset {
        location: 0,
        value: literal(1),
        variable: var("w"),
        expression: halt_with(name("w")),
    });
    assert_eq!(handled(&run(offset)), Some(Exception::InvalidAccess));
}

#[test]
fn offset_then_select() {
    let select = Rc::new(ContinuationExpression::Select {
        location: 0,
        value: name("w"),
        variable: var("y"),
        expression: halt_with(name("y")),
    });
    let offset = Rc::new(ContinuationExpression::Offset {
        location: 2,
        value: name("r"),
        variable: var("w"),
        expression: select,
    });
    let fields = vec![DValue::Integer(1), DValue::Integer(2), DValue::Integer(3)];
    assert_eq!(halted_with_integer(&run_with(offset, vec![("r", record(fields))])), Some(3));
}

#[test]
fn select_beyond_the_fields() {
    let select = Rc::new(ContinuationExpression::Select {
        location: 1,
        value: name("r"),
        variable: var("y"),
        expression: halt_with(name("y")),
    });
    let end = run_with(select, vec![("r", record(vec![DValue::Integer(1)]))]);
    assert_eq!(handled(&end), Some(Exception::InvalidAccess));
}

#[test]
fn record_with_a_failing_walk() {
    let term = Rc::new(ContinuationExpression::Record {
        values: vec![
            (literal(10), Rc::new(AccessPath::Offset(0))),
            (literal(20), Rc::new(AccessPath::Offset(1))),
        ],
        variable: var("r"),
        expression: halt_with(literal(0)),
    });
    assert_eq!(handled(&run(term)), Some(Exception::InvalidAccess));
}

#[test]
fn unbound_variable_is_a_fault() {
    assert!(matches!(run(halt_with(name("nowhere"))), End::Abort(InternalException::Undefined)));
    assert!(matches!(
        run(apply("nowhere", vec![])),
        End::Abort(InternalException::Undefined)
    ));
}

#[test]
fn wrong_shape_of_a_primitive_is_a_fault() {
    let term = prim(PrimitiveOp::Add, vec![literal(1)], vec!["x"], vec![halt_with(name("x"))]);
    assert!(matches!(run(term), End::Abort(InternalException::Undefined)));
    let term = prim(PrimitiveOp::Add, vec![literal(1), literal(2)], vec!["x"], vec![]);
    assert!(matches!(run(term), End::Abort(InternalException::Undefined)));
    let term = prim(PrimitiveOp::SetHandler, vec![literal(1)], vec![], vec![halt_with(literal(0))]);
    assert!(matches!(run(term), End::Abort(InternalException::Undefined)));
}

#[test]
fn wrong_number_of_parameters() {
    let result = evaluate(vec![var("x")], vec![], ContinuationExpression::Apply {
        function: name("x"),
        arguments: vec![],
    });
    assert!(matches!(result, Err(InternalException::WrongNumberOfParameters)));
    // The continuation binds one result, and the function is given two.
    let end = run(Rc::new(ContinuationExpression::Fix {
        function_defs: Rc::new(vec![Rc::new(FunctionDefinition {
            name: var("f"),
            formal_parameters: vec![var("a")],
            body: ContinuationExpression::Apply {
                function: name("halt"),
                arguments: vec![name("a")],
            },
        })]),
        expression: apply("f", vec![literal(1), literal(2)]),
    }));
    assert!(matches!(end, End::Abort(InternalException::WrongNumberOfParameters)));
}

#[test]
fn environment_bind_and_lookup() {
    let empty = Environment::new();
    assert!(empty.get(&var("x")).is_none());
    let one = empty.bind(var("x"), DValue::Integer(1));
    assert!(matches!(one.get(&var("x")), Some(DValue::Integer(1))));
    assert!(matches!(one.index(&var("x")), DValue::Integer(1)));
    let two = one.bind(var("x"), DValue::Integer(2));
    assert!(matches!(two.get(&var("x")), Some(DValue::Integer(2))));
    // The older environment is what it was.
    assert!(matches!(one.get(&var("x")), Some(DValue::Integer(1))));
    let three = two.bind(var("y"), DValue::Integer(3));
    assert!(matches!(three.get(&var("x")), Some(DValue::Integer(2))));
    assert!(matches!(three.get(&var("y")), Some(DValue::Integer(3))));
    assert!(three.get(&var("z")).is_none());
    // Binding a name to the value it has changes nothing.
    let same = three.bind(var("x"), DValue::Integer(2));
    assert!(matches!(same.get(&var("x")), Some(DValue::Integer(2))));
    assert!(matches!(same.get(&var("y")), Some(DValue::Integer(3))));
}

#[test]
fn environment_bindn_and_unbind() {
    let base = Environment::new().bind(var("x"), DValue::Integer(1));
    let more = base.bindn(
        &vec![var("y"), var("x"), var("y")],
        &vec![DValue::Integer(2), DValue::Integer(3), DValue::Integer(4)],
    );
    assert!(matches!(more.get(&var("x")), Some(DValue::Integer(3))));
    assert!(matches!(more.get(&var("y")), Some(DValue::Integer(4))));
    let less = more.unbind(&var("x"));
    assert!(less.get(&var("x")).is_none());
    assert!(matches!(less.get(&var("y")), Some(DValue::Integer(4))));
    let untouched = more.unbind(&var("z"));
    assert!(matches!(untouched.get(&var("x")), Some(DValue::Integer(3))));
    let copy = more.deep_copy();
    assert!(matches!(copy.get(&var("y")), Some(DValue::Integer(4))));
    let mut extended = Environment::new();
    extended.extend(&vec![var("a")], &vec![DValue::Integer(7)]);
    assert!(matches!(extended.get(&var("a")), Some(DValue::Integer(7))));
    let given = Environment::with_bindings(more.bindings.clone());
    assert!(matches!(given.get(&var("x")), Some(DValue::Integer(3))));
}

#[test]
fn environment_denotes_values() {
    let env = Environment::new().bind(var("x"), DValue::Integer(1));
    assert!(matches!(env.value_to_denotable_value(&name("x")), DValue::Integer(1)));
    assert!(matches!(
        env.value_to_denotable_value(&Value::Label(var("x"))),
        DValue::Integer(1)
    ));
    assert!(matches!(env.value_to_denotable_value(&literal(5)), DValue::Integer(5)));
    match env.value_to_denotable_value(&Value::Real(real_of(2.5))) {
        DValue::Real(x) => assert_eq!(number(x), 2.5),
        _ => panic!("not a real"),
    }
    match env.value_to_denotable_value(&Value::String(String::from("text"))) {
        DValue::String(s) => assert_eq!(s.as_str(), "text"),
        _ => panic!("not a string"),
    }
    assert!(env.value_of(&name("y")).is_none());
    assert!(env.values_of(&vec![name("x"), name("y")]).is_none());
    match env.values_of(&vec![name("x"), literal(2)]) {
        Some(found) => {
            assert!(matches!(found.as_slice(), [DValue::Integer(1), DValue::Integer(2)]))
        }
        None => panic!("both are bound"),
    }
}

#[test]
fn resolve_offset_zero_is_the_identity() {
    let zero = || Rc::new(AccessPath::Offset(0));
    assert!(matches!(resolve_field(DValue::Integer(7), zero()), Ok(DValue::Integer(7))));
    assert!(matches!(resolve_field(host(3), zero()), Ok(DValue::Function(_))));
    assert!(matches!(
        resolve_field(record(vec![DValue::Integer(1)]), zero()),
        Ok(DValue::Record { idx: 0, .. })
    ));
}

#[test]
fn resolve_walks_into_records() {
    let inner = record(vec![DValue::Integer(1), DValue::Integer(2)]);
    let outer = record(vec![DValue::Integer(0), inner]);
    let path = Rc::new(AccessPath::Select {
        offset: 1,
        access_path: Rc::new(AccessPath::Select {
            offset: 1,
            access_path: Rc::new(AccessPath::Offset(0)),
        }),
    });
    assert!(matches!(resolve_field(outer.clone(), path), Ok(DValue::Integer(2))));
    let shift = Rc::new(AccessPath::Select {
        offset: 1,
        access_path: Rc::new(AccessPath::Offset(1)),
    });
    assert!(matches!(resolve_field(outer.clone(), shift), Ok(DValue::Record { idx: 1, .. })));
    let beyond = Rc::new(AccessPath::Select {
        offset: 2,
        access_path: Rc::new(AccessPath::Offset(0)),
    });
    assert!(matches!(resolve_field(outer.clone(), beyond), Err(Exception::InvalidAccess)));
    assert!(matches!(
        resolve_field(DValue::Integer(1), Rc::new(AccessPath::Offset(1))),
        Err(Exception::InvalidAccess)
    ));
    assert!(matches!(
        resolve_field(outer, Rc::new(AccessPath::Offset(usize::MAX))),
        Ok(DValue::Record { idx: usize::MAX, .. })
    ));
    let shifted = DValue::Record { values: Fields::End, idx: 1 };
    assert!(matches!(
        resolve_field(shifted, Rc::new(AccessPath::Offset(usize::MAX))),
        Err(Exception::InvalidAccess)
    ));
}

#[test]
fn fields_hold_what_they_were_given() {
    let fields = Fields::from_vec(&vec![DValue::Integer(1), DValue::Integer(2)]);
    assert!(matches!(fields.get(0), Some(DValue::Integer(1))));
    assert!(matches!(fields.get(1), Some(DValue::Integer(2))));
    assert!(fields.get(2).is_none());
    assert!(Fields::from_vec(&vec![]).get(0).is_none());
}

#[test]
fn store_update_then_fetch() {
    let store = Store::new(Continuation::host(HANDLER));
    let (store, range) = store.allocate(2).expect("room for two cells");
    assert_eq!(range, 1..3);
    assert_eq!(store.next_unused_address, 3);
    assert!(store.accepts(2, &DValue::Integer(0)));
    assert!(!store.accepts(3, &DValue::Integer(0)));
    assert!(!store.accepts(3, &DValue::Exception(Exception::Undefined)));
    let text = DValue::String(Rc::new(String::from("s")));
    let written = store.update(1, text);
    assert!(matches!(written.fetch(1), DValue::String(_)));
    // The store that was updated is what it was.
    assert!(matches!(store.fetch(1), DValue::Integer(0)));
    assert!(matches!(written.fetch(2), DValue::Integer(0)));
    let written = written.update_integer(2, 42);
    assert!(matches!(written.fetch_integer(2), DValue::Integer(42)));
    assert!(matches!(written.fetch_integer(1), DValue::Integer(0)));
    assert!(matches!(written.fetch(1), DValue::String(_)));
    let written = written.update(2, DValue::Integer(-5));
    assert!(matches!(written.fetch(2), DValue::Integer(-5)));
    assert!(matches!(written.fetch_integer(2), DValue::Integer(-5)));
    assert!(matches!(written.handler(), Some(_)));
    let copy = written.clone();
    assert!(matches!(copy.fetch_integer(2), DValue::Integer(-5)));
}

#[test]
fn store_raises_to_its_handler() {
    let store = Store::new(Continuation::host(HANDLER));
    let answer = store.raise_exception(Exception::Undefined);
    assert!(matches!(&*answer.f, RawContinuation::Host(HANDLER)));
    assert!(matches!(
        answer.parameters.as_slice(),
        [DValue::Exception(Exception::Undefined)]
    ));
    let broken = store.update(0, DValue::Integer(0));
    assert!(broken.handler().is_none());
    assert!(matches!(
        Exception::Overflow.as_answer().call(broken),
        Outcome::Abort(InternalException::Undefined)
    ));
}

#[test]
fn store_does_not_allocate_beyond_the_last_location() {
    let mut store = Store::new(Continuation::host(HANDLER));
    store.next_unused_address = usize::MAX;
    assert!(store.allocate(1).is_none());
}

#[test]
fn exception_as_value_and_answer() {
    assert!(matches!(
        Exception::Overflow.as_denotable_value(),
        DValue::Exception(Exception::Overflow)
    ));
    let answer = Exception::InvalidAccess.as_answer();
    assert!(matches!(&*answer.f, RawContinuation::Raise));
    assert!(matches!(
        answer.parameters.as_slice(),
        [DValue::Exception(Exception::InvalidAccess)]
    ));
}

#[test]
fn names_of_exceptions() {
    assert_eq!(Exception::Overflow.name(), "Overflow");
    assert_eq!(Exception::DivideByZero.name(), "DivideByZero");
    assert_eq!(Exception::InvalidAccess.name(), "InvalidAccess");
    assert_eq!(Exception::Undefined.name(), "Undefined");
    assert_eq!(Exception::IndexOutOfBounds.name(), "IndexOutOfBounds");
    assert_eq!(InternalException::Undefined.name(), "Undefined");
    assert_eq!(InternalException::WrongNumberOfParameters.name(), "WrongNumberOfParameters");
    assert_eq!(
        raise_exception(InternalException::WrongNumberOfParameters),
        "Internal exception raised:: WrongNumberOfParameters"
    );
    assert_eq!(
        raise_exception_msg(InternalException::Undefined, "no such name"),
        "Internal exception raised:: Undefined: no such name"
    );
}

#[test]
fn atomic_values_compare_as_written() {
    assert!(name("x") == name("x"));
    assert!(name("x") != name("y"));
    assert!(name("x") != Value::Label(var("x")));
    assert!(Value::Label(var("x")) == Value::Label(var("x")));
    assert!(literal(1) == literal(1));
    assert!(literal(1) != literal(2));
    assert!(Value::String(String::from("a")) == Value::String(String::from("a")));
    assert!(Value::Real(real_of(f64::NAN)) == Value::Real(real_of(f64::NAN)));
    assert!(Value::Real(real_of(0.0)) == Value::Real(real_of(-0.0)));
    assert!(Value::Real(real_of(1.0)) != Value::Real(real_of(2.0)));
    assert!(literal(1) != Value::Real(real_of(1.0)));
    assert!(var("x") == var("x"));
    assert!(var("x") != var("y"));
    assert!(name("x").clone() == name("x"));
}

#[test]
fn primitive_with_a_settled_question() {
    let conts = || vec![Continuation::host(10), Continuation::host(11)];
    let pair = || vec![record(vec![]), record(vec![])];
    let taken = |same: bool| match PrimitiveOp::IEqual.evaluate_given(pair(), conts(), same) {
        Ok(answer) => match &*answer.f {
            RawContinuation::Host(n) => Some(*n),
            _ => None,
        },
        Err(_) => None,
    };
    assert_eq!(taken(true), Some(10));
    assert_eq!(taken(false), Some(11));
    // Two empty records live in no allocation at all.
    match PrimitiveOp::INEqual.evaluate(pair(), conts()) {
        Ok(answer) => assert!(matches!(&*answer.f, RawContinuation::Host(10))),
        Err(e) => panic!("unexpected fault: {:?}", e),
    }
}

#[test]
fn continuation_call_curries() {
    let answer = Continuation::host(4).call(vec![DValue::Integer(1), DValue::Integer(2)]);
    assert!(matches!(&*answer.f, RawContinuation::Host(4)));
    assert_eq!(answer.parameters.len(), 2);
    match answer.call(Store::new(Continuation::host(HANDLER))) {
        Outcome::Host { function, parameters, store } => {
            assert_eq!(function, 4);
            assert!(matches!(parameters.as_slice(), [DValue::Integer(1), DValue::Integer(2)]));
            assert_eq!(store.next_unused_address, 1);
        }
        outcome => panic!("unexpected outcome: {:?}", outcome),
    }
}

fn looping() -> ContinuationExpression {
    ContinuationExpression::Fix {
        function_defs: Rc::new(vec![Rc::new(FunctionDefinition {
            name: var("f"),
            formal_parameters: vec![var("n")],
            body: ContinuationExpression::PrimitiveOp {
                operation: PrimitiveOp::MakeRef,
                values: vec![name("n")],
                variables: Rc::new(vec![var("r")]),
                expressions: vec![apply("f", vec![name("r")])],
            },
        })]),
        expression: apply("f", vec![literal(0)]),
    }
}

#[test]
fn run_stops_when_the_fuel_is_used_up() {
    let answer = evaluate(vec![], vec![], looping()).expect("a closed term");
    let store = Store::new(Continuation::host(HANDLER));
    match run_machine(answer, store, 0) {
        Outcome::Continue { store, .. } => assert_eq!(store.next_unused_address, 1),
        outcome => panic!("unexpected outcome: {:?}", outcome),
    }
    let answer = evaluate(vec![], vec![], looping()).expect("a closed term");
    let store = Store::new(Continuation::host(HANDLER));
    // Each turn of the loop takes three steps: the call, the allocation, and
    // the continuation of the allocation.
    match run_machine(answer, store, 30) {
        Outcome::Continue { store, .. } => {
            assert_eq!(store.next_unused_address, 11);
            assert_eq!(store.values.len(), 11);
            assert_eq!(store.integer_values.len(), 11);
            assert!(store.handler().is_some());
            assert!(matches!(store.fetch(10), DValue::Array(r) if *r == (9..10)));
            for cell in &store.values {
                if let DValue::Array(range) = cell {
                    assert!(range.end <= store.next_unused_address);
                }
            }
        }
        outcome => panic!("unexpected outcome: {:?}", outcome),
    }
}

#[test]
fn run_stops_at_the_host() {
    let term = ContinuationExpression::Apply {
        function: name("halt"),
        arguments: vec![literal(3)],
    };
    let answer = evaluate(vec![var("halt")], vec![host(HALT)], term).expect("a closed term");
    match run_machine(answer, Store::new(Continuation::host(HANDLER)), 100) {
        Outcome::Host { function, parameters, .. } => {
            assert_eq!(function, HALT);
            assert!(matches!(parameters.as_slice(), [DValue::Integer(3)]));
        }
        outcome => panic!("unexpected outcome: {:?}", outcome),
    }
}

#[test]
fn evaluation_is_repeatable() {
    for _ in 0..3 {
        assert_eq!(halted_with_integer(&even_of(9)), Some(0));
        assert_eq!(handled(&binary(PrimitiveOp::Add, i64::MAX, 1)), Some(Exception::Overflow));
        assert_eq!(
            halted_with_integer(&decide(
                PrimitiveOp::IEqual,
                vec![Value::String(String::from("a")), Value::String(String::from("a"))]
            )),
            Some(0)
        );
    }
}

#[test]
fn next_location_is_one_further() {
    assert_eq!(next_location(0), Some(1));
    assert_eq!(next_location(41), Some(42));
    assert_eq!(next_location(usize::MAX), None);
}

#[test]
fn denotable_values_from_plain_values() {
    assert!(matches!(DValue::from(Exception::Overflow), DValue::Exception(Exception::Overflow)));
    assert!(matches!(DValue::from(7i64), DValue::Integer(7)));
    match DValue::from(real_of(1.5)) {
        DValue::Real(x) => assert_eq!(number(x), 1.5),
        _ => panic!("not a real"),
    }
    match DValue::from(String::from("text")) {
        DValue::String(s) => assert_eq!(s.as_str(), "text"),
        _ => panic!("not a string"),
    }
}

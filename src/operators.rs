//! The semantics of the unary and binary operators on values.
use vstd::prelude::*;

use crate::arith::{
    checked_add, checked_div, checked_mul, checked_pow, checked_sub, fits_i64, power_model, remainder,
    trunc_div, trunc_rem,
};
use crate::ast::{BinaryOp, UnaryOp};
use crate::errors::{ErrorKind, Fault, RuntimeErrorKind, TypeErrorKind};
use crate::float::{float_le, float_lt, spec_float_le, spec_float_lt, FloatArith, SIGN_MASK};
use crate::text::{owned, binary_symbol, binary_symbol_text, str_lt, string_lt, unary_symbol, unary_symbol_text};
use crate::value::{type_of_model, val_eq, values_equal, zero_model, JmlValue, Val};

verus! {

pub open spec fn number_model(v: Val) -> bool {
    v is Int || v is Float
}

pub open spec fn ord_model(v: Val) -> bool {
    !(v is List || v is Object || v is Lambda)
}

/// The message of the error that the unimplemented concatenation operator
/// gives.
pub open spec fn concat_message() -> Seq<char> {
    seq![
        'c', 'o', 'n', 'c', 'a', 't', 'e', 'n', 'a', 't', 'i', 'o', 'n', ' ', '(', '+', '+', ')',
        ' ', 'i', 's', ' ', 'n', 'o', 't', ' ', 'i', 'm', 'p', 'l', 'e', 'm', 'e', 'n', 't', 'e',
        'd',
    ]
}

pub open spec fn invalid_binary(op: BinaryOp, a: Val, b: Val) -> Fault {
    Fault::InvalidBinaryOperator {
        operator: binary_symbol(op),
        left: type_of_model(a),
        right: type_of_model(b),
    }
}

/// Whether an ordering operator holds, given whether the left operand is
/// below or above the right one in a total order.
pub open spec fn order_holds(op: BinaryOp, below: bool, above: bool) -> bool {
    match op {
        BinaryOp::GT => above,
        BinaryOp::LT => below,
        BinaryOp::GE => !below,
        _ => !above,
    }
}

/// Ordering of floats: every comparison with NaN is false.
pub open spec fn float_order_holds(op: BinaryOp, x: u64, y: u64) -> bool {
    match op {
        BinaryOp::GT => spec_float_lt(y, x),
        BinaryOp::LT => spec_float_lt(x, y),
        BinaryOp::GE => spec_float_le(y, x),
        _ => spec_float_le(x, y),
    }
}

pub open spec fn is_comparison(op: BinaryOp) -> bool {
    op is GT || op is LT || op is GE || op is LE
}

pub open spec fn is_arithmetic(op: BinaryOp) -> bool {
    op is Sum || op is Sub || op is Mul || op is Div || op is Pow || op is Mod
}

/// The cases whose result the host's floating-point arithmetic computes: an
/// arithmetic operator on two numbers of which one is a float (a float
/// division by a nonzero number), and an ordering between an integer and a
/// float, which converts the integer first.
pub open spec fn host_computed(op: BinaryOp, a: Val, b: Val) -> bool {
    ||| is_arithmetic(op) && number_model(a) && number_model(b) && (a is Float || b is Float) && !(
    op is Div && zero_model(b))
    ||| is_comparison(op) && ((a is Int && b is Float) || (a is Float && b is Int))
}

pub open spec fn compare_model(op: BinaryOp, a: Val, b: Val) -> Result<Val, Fault> {
    if !ord_model(a) {
        Err(Fault::NotOrderedType { found: type_of_model(a) })
    } else if !ord_model(b) {
        Err(Fault::NotOrderedType { found: type_of_model(b) })
    } else {
        match (a, b) {
            (Val::Float(x), Val::Float(y)) => Ok(Val::Bool(float_order_holds(op, x, y))),
            (Val::Int(x), Val::Int(y)) => Ok(Val::Bool(order_holds(op, x < y, x > y))),
            (Val::Bool(x), Val::Bool(y)) => Ok(Val::Bool(order_holds(op, !x && y, x && !y))),
            (Val::Str(x), Val::Str(y)) => Ok(Val::Bool(order_holds(op, str_lt(x, y), str_lt(y, x)))),
            _ => Err(invalid_binary(op, a, b)),
        }
    }
}

/// The result of an integer operation, or `Overflow` where it does not fit.
pub open spec fn int_result(x: int) -> Result<Val, Fault> {
    if fits_i64(x) {
        Ok(Val::Int(x as i64))
    } else {
        Err(Fault::Overflow)
    }
}

pub open spec fn arithmetic_model(op: BinaryOp, a: Val, b: Val) -> Result<Val, Fault> {
    if op is Div && zero_model(b) {
        Err(Fault::DivisionByZero)
    } else {
        match (a, b) {
            (Val::Int(x), Val::Int(y)) => match op {
                BinaryOp::Sum => int_result(x + y),
                BinaryOp::Sub => int_result(x - y),
                BinaryOp::Mul => int_result(x * y),
                BinaryOp::Div => int_result(trunc_div(x as int, y as int)),
                BinaryOp::Mod => if y == 0 {
                    Err(Fault::DivisionByZero)
                } else {
                    Ok(Val::Int(trunc_rem(x as int, y as int) as i64))
                },
                _ => match power_model(x as int, y as int) {
                    Some(p) => int_result(p),
                    None => Err(Fault::Overflow),
                },
            },
            _ => Err(invalid_binary(op, a, b)),
        }
    }
}

/// What `a op b` evaluates to, outside the cases of `host_computed`.
pub open spec fn binary_model(op: BinaryOp, a: Val, b: Val) -> Result<Val, Fault> {
    match op {
        BinaryOp::EQ => Ok(Val::Bool(val_eq(a, b))),
        BinaryOp::NE => Ok(Val::Bool(!val_eq(a, b))),
        BinaryOp::And => match (a, b) {
            (Val::Bool(x), Val::Bool(y)) => Ok(Val::Bool(x && y)),
            _ => Err(invalid_binary(op, a, b)),
        },
        BinaryOp::Or => match (a, b) {
            (Val::Bool(x), Val::Bool(y)) => Ok(Val::Bool(x || y)),
            _ => Err(invalid_binary(op, a, b)),
        },
        BinaryOp::Concat => Err(Fault::GenericError { message: concat_message() }),
        _ => if is_comparison(op) {
            compare_model(op, a, b)
        } else {
            arithmetic_model(op, a, b)
        },
    }
}

pub open spec fn outcome_model(r: Result<JmlValue, ErrorKind>) -> Result<Val, Fault> {
    match r {
        Ok(v) => Ok(v@),
        Err(e) => Err(e@),
    }
}

pub open spec fn unary_model(op: UnaryOp, a: Val) -> Result<Val, Fault> {
    match (op, a) {
        (UnaryOp::Minus, Val::Int(x)) => int_result(-x),
        (UnaryOp::Minus, Val::Float(x)) => Ok(Val::Float(x ^ SIGN_MASK)),
        (UnaryOp::Not, Val::Bool(x)) => Ok(Val::Bool(!x)),
        _ => Err(Fault::InvalidUnaryOperator { operator: unary_symbol(op), right: type_of_model(a) }),
    }
}

fn invalid_binary_kind(op: BinaryOp, a: &JmlValue, b: &JmlValue) -> (e: ErrorKind)
    ensures
        e@ == invalid_binary(op, a@, b@),
        e is Type,
{
    ErrorKind::Type(
        TypeErrorKind::InvalidBinaryOperator {
            operator: binary_symbol_text(op),
            left: a.type_of(),
            right: b.type_of(),
        },
    )
}

fn overflow_or<'a>(x: Option<i64>) -> (r: Result<JmlValue<'a>, ErrorKind>)
    ensures
        x matches Some(v) ==> (r matches Ok(w) && w@ == Val::Int(v)),
        x is None ==> (r matches Err(e) && e@ == Fault::Overflow && e is Runtime),
{
    match x {
        Some(v) => Ok(JmlValue::integer(v)),
        None => Err(ErrorKind::Runtime(RuntimeErrorKind::Overflow)),
    }
}

fn compare<'a, F: FloatArith>(op: BinaryOp, a: &JmlValue<'a>, b: &JmlValue<'a>, arith: &F) -> (r:
    Result<JmlValue<'a>, ErrorKind>)
    requires
        is_comparison(op),
    ensures
        !host_computed(op, a@, b@) ==> outcome_model(r) == compare_model(op, a@, b@),
        host_computed(op, a@, b@) ==> (r matches Ok(v) && v@ is Bool),
        r matches Err(e) ==> e is Type,
{
    if !a.is_ord() {
        return Err(ErrorKind::Type(TypeErrorKind::NotOrderedType { found: a.type_of() }));
    }
    if !b.is_ord() {
        return Err(ErrorKind::Type(TypeErrorKind::NotOrderedType { found: b.type_of() }));
    }
    let (below, above) = match (a, b) {
        (JmlValue::Float(x), JmlValue::Float(y)) => {
            (float_lt(x.0, y.0), float_lt(y.0, x.0))
        },
        (JmlValue::Float(x), JmlValue::Int(y)) => {
            let fy = arith.from_int(y.0);
            (float_lt(x.0, fy), float_lt(fy, x.0))
        },
        (JmlValue::Int(x), JmlValue::Float(y)) => {
            let fx = arith.from_int(x.0);
            (float_lt(fx, y.0), float_lt(y.0, fx))
        },
        (JmlValue::Int(x), JmlValue::Int(y)) => (x.0 < y.0, x.0 > y.0),
        (JmlValue::Bool(x), JmlValue::Bool(y)) => (!x.0 && y.0, x.0 && !y.0),
        (JmlValue::String(x), JmlValue::String(y)) => (string_lt(&x.0, &y.0), string_lt(&y.0, &x.0)),
        _ => {
            return Err(invalid_binary_kind(op, a, b));
        },
    };
    let holds = match (a, b) {
        (JmlValue::Float(x), JmlValue::Float(y)) => match op {
            BinaryOp::GT => above,
            BinaryOp::LT => below,
            BinaryOp::GE => float_le(y.0, x.0),
            _ => float_le(x.0, y.0),
        },
        _ => match op {
            BinaryOp::GT => above,
            BinaryOp::LT => below,
            BinaryOp::GE => !below,
            _ => !above,
        },
    };
    Ok(JmlValue::bool(holds))
}

fn arithmetic<'a, F: FloatArith>(op: BinaryOp, a: &JmlValue<'a>, b: &JmlValue<'a>, arith: &F) -> (r:
    Result<JmlValue<'a>, ErrorKind>)
    requires
        is_arithmetic(op),
    ensures
        !host_computed(op, a@, b@) ==> outcome_model(r) == arithmetic_model(op, a@, b@),
        host_computed(op, a@, b@) ==> (r matches Ok(v) && v@ is Float),
        r matches Err(e) ==> (e is Type <==> e@ is InvalidBinaryOperator),
{
    if op == BinaryOp::Div && b.is_zero() {
        return Err(ErrorKind::Runtime(RuntimeErrorKind::DivisionByZero));
    }
    let (x, y) = match (a, b) {
        (JmlValue::Int(x), JmlValue::Int(y)) => {
            let (x, y) = (x.0, y.0);
            return match op {
                BinaryOp::Sum => overflow_or(checked_add(x, y)),
                BinaryOp::Sub => overflow_or(checked_sub(x, y)),
                BinaryOp::Mul => overflow_or(checked_mul(x, y)),
                BinaryOp::Div => overflow_or(checked_div(x, y)),
                BinaryOp::Mod => if y == 0 {
                    Err(ErrorKind::Runtime(RuntimeErrorKind::DivisionByZero))
                } else {
                    Ok(JmlValue::integer(remainder(x, y)))
                },
                _ => overflow_or(checked_pow(x, y)),
            };
        },
        (JmlValue::Float(x), JmlValue::Float(y)) => (x.0, y.0),
        (JmlValue::Float(x), JmlValue::Int(y)) => (x.0, arith.from_int(y.0)),
        (JmlValue::Int(x), JmlValue::Float(y)) => (arith.from_int(x.0), y.0),
        _ => {
            return Err(invalid_binary_kind(op, a, b));
        },
    };
    let bits = match op {
        BinaryOp::Sum => arith.add(x, y),
        BinaryOp::Sub => arith.sub(x, y),
        BinaryOp::Mul => arith.mul(x, y),
        BinaryOp::Div => arith.div(x, y),
        BinaryOp::Mod => arith.rem(x, y),
        _ => arith.pow(x, y),
    };
    Ok(JmlValue::float(bits))
}

fn concat_error() -> (e: ErrorKind)
    ensures
        e@ == (Fault::GenericError { message: concat_message() }),
        (e is Runtime),
{
    let message = owned("concatenation (++) is not implemented");
    proof {
        reveal_strlit("concatenation (++) is not implemented");
        assert(message@ =~= concat_message());
    }
    ErrorKind::Runtime(RuntimeErrorKind::GenericError { message })
}

/// Applies a binary operator to two evaluated operands. Outside the cases
/// that the host's float arithmetic computes, the outcome is exactly
/// `binary_model`; in those cases it is a float (arithmetic) or a boolean
/// (ordering).
pub fn apply_binary<'a, F: FloatArith>(
    op: BinaryOp,
    lhs: &JmlValue<'a>,
    rhs: &JmlValue<'a>,
    arith: &F,
) -> (r: Result<JmlValue<'a>, ErrorKind>)
    ensures
        !host_computed(op, lhs@, rhs@) ==> outcome_model(r) == binary_model(op, lhs@, rhs@),
        host_computed(op, lhs@, rhs@) && is_arithmetic(op) ==> (r matches Ok(v) && v@ is Float),
        host_computed(op, lhs@, rhs@) && is_comparison(op) ==> (r matches Ok(v) && v@ is Bool),
        r matches Err(e) ==> (e is Type <==> e@.is_type_fault()),
{
    match op {
        BinaryOp::EQ => Ok(JmlValue::bool(values_equal(lhs, rhs))),
        BinaryOp::NE => Ok(JmlValue::bool(!values_equal(lhs, rhs))),
        BinaryOp::And | BinaryOp::Or => match (lhs, rhs) {
            (JmlValue::Bool(x), JmlValue::Bool(y)) => Ok(
                JmlValue::bool(
                    if op == BinaryOp::And {
                        x.0 && y.0
                    } else {
                        x.0 || y.0
                    },
                ),
            ),
            _ => Err(invalid_binary_kind(op, lhs, rhs)),
        },
        BinaryOp::Concat => Err(concat_error()),
        BinaryOp::GT | BinaryOp::LT | BinaryOp::GE | BinaryOp::LE => compare(op, lhs, rhs, arith),
        _ => arithmetic(op, lhs, rhs, arith),
    }
}

/// Applies a unary operator: `-` negates a number (`Overflow` for the one
/// integer without a negative), `!` inverts a boolean.
pub fn apply_unary<'a>(op: UnaryOp, rhs: &JmlValue<'a>) -> (r: Result<JmlValue<'a>, ErrorKind>)
    ensures
        outcome_model(r) == unary_model(op, rhs@),
        r matches Err(e) ==> (e is Type <==> e@.is_type_fault()),
{
    match (op, rhs) {
        (UnaryOp::Minus, JmlValue::Int(i)) => if i.0 == i64::MIN {
            Err(ErrorKind::Runtime(RuntimeErrorKind::Overflow))
        } else {
            Ok(JmlValue::Int(i.negative()))
        },
        (UnaryOp::Minus, JmlValue::Float(f)) => Ok(JmlValue::Float(f.negative())),
        (UnaryOp::Not, JmlValue::Bool(b)) => Ok(JmlValue::Bool(b.not())),
        _ => Err(
            ErrorKind::Type(
                TypeErrorKind::InvalidUnaryOperator {
                    operator: unary_symbol_text(op),
                    right: rhs.type_of(),
                },
            ),
        ),
    }
}

} // verus!

//! Properties of evaluation, proved from the semantics. Each outcome carries
//! the log entries written on the way, so the properties also say what is
//! evaluated: an operand, branch or argument that is not evaluated writes
//! nothing.
use vstd::prelude::*;

use crate::arith::{fits_i64, int_pow, trunc_div, trunc_rem};
use crate::ast::{BinaryOp, Expression, ExpressionKind};
use crate::context::{resolve, Store};
use crate::errors::{Fault, Span};
use crate::operators::concat_message;
use crate::semantics::{
    expr_span, sem_apply, sem_binary, sem_builtin, sem_call, sem_expr, sem_if, sem_index, sem_reduce,
    Log, Outcome,
};
use crate::value::{zero_model, Builtin, Val};

verus! {

broadcast use {crate::semantics::lemma_log_assoc, crate::semantics::lemma_log_empty};

/// A value reached after logging `l`.
pub open spec fn ok_after(v: Val, l: Log) -> Outcome {
    Some((Ok(v), l))
}

/// An error at `span` reached after logging `l`.
pub open spec fn err_after(span: Span, f: Fault, l: Log) -> Outcome {
    Some((Err((span, f)), l))
}

/// The exact integer that `a op b` denotes, for the arithmetic operators.
pub open spec fn exact_int_result(op: BinaryOp, a: int, b: int) -> int {
    match op {
        BinaryOp::Sum => a + b,
        BinaryOp::Sub => a - b,
        BinaryOp::Mul => a * b,
        BinaryOp::Div => trunc_div(a, b),
        _ => trunc_rem(a, b),
    }
}

/// Integer arithmetic is exact: for integer operands `a` and `b`, `a + b`,
/// `a - b`, `a * b`, `a / b` (rounding toward zero) and `a % b` (for `b != 0`)
/// give the integer result, or `Overflow` where it does not fit in 64 bits
/// (a remainder always fits).
pub proof fn law_integer_arithmetic(
    d: nat,
    span: Span,
    op: BinaryOp,
    lhs: Expression,
    rhs: Expression,
    g: Store,
    fr: Seq<Store>,
    a: i64,
    b: i64,
    la: Log,
    lb: Log,
)
    requires
        op is Sum || op is Sub || op is Mul || op is Div || op is Mod,
        (op is Div || op is Mod) ==> b != 0,
        sem_expr(d, lhs, g, fr) == ok_after(Val::Int(a), la),
        sem_expr(d, rhs, g, fr) == ok_after(Val::Int(b), lb),
    ensures
        fits_i64(exact_int_result(op, a as int, b as int)) ==> sem_binary(d, span, op, lhs, rhs, g, fr)
            == ok_after(Val::Int(exact_int_result(op, a as int, b as int) as i64), la + lb),
        !fits_i64(exact_int_result(op, a as int, b as int)) && !(op is Mod) ==> sem_binary(
            d,
            span,
            op,
            lhs,
            rhs,
            g,
            fr,
        ) == err_after(span, Fault::Overflow, la + lb),
{
}

/// Integer powers: for a non-negative exponent `b`, `a ^ b` gives `a` to the
/// power `b` when that fits in 64 bits, and `Overflow` otherwise.
pub proof fn law_integer_power(
    d: nat,
    span: Span,
    lhs: Expression,
    rhs: Expression,
    g: Store,
    fr: Seq<Store>,
    a: i64,
    b: i64,
    la: Log,
    lb: Log,
)
    requires
        b >= 0,
        sem_expr(d, lhs, g, fr) == ok_after(Val::Int(a), la),
        sem_expr(d, rhs, g, fr) == ok_after(Val::Int(b), lb),
    ensures
        fits_i64(int_pow(a as int, b as nat)) ==> sem_binary(d, span, BinaryOp::Pow, lhs, rhs, g, fr)
            == ok_after(Val::Int(int_pow(a as int, b as nat) as i64), la + lb),
        !fits_i64(int_pow(a as int, b as nat)) ==> sem_binary(d, span, BinaryOp::Pow, lhs, rhs, g, fr)
            == err_after(span, Fault::Overflow, la + lb),
{
}

/// Division by zero, integer or float, is a `DivisionByZero` error whatever
/// the dividend.
pub proof fn law_division_by_zero(
    d: nat,
    span: Span,
    lhs: Expression,
    rhs: Expression,
    g: Store,
    fr: Seq<Store>,
    a: Val,
    b: Val,
    la: Log,
    lb: Log,
)
    requires
        zero_model(b),
        sem_expr(d, lhs, g, fr) == ok_after(a, la),
        sem_expr(d, rhs, g, fr) == ok_after(b, lb),
    ensures
        sem_binary(d, span, BinaryOp::Div, lhs, rhs, g, fr) == err_after(
            span,
            Fault::DivisionByZero,
            la + lb,
        ),
{
}

/// Both operands of a binary operator are evaluated, left first: an error in
/// the left one is the outcome and the right one is not evaluated (it logs
/// nothing), also for `&&` and `||`.
pub proof fn law_left_operand_error(
    d: nat,
    span: Span,
    op: BinaryOp,
    lhs: Expression,
    rhs: Expression,
    other_rhs: Expression,
    g: Store,
    fr: Seq<Store>,
    e: (Span, Fault),
    la: Log,
)
    requires
        sem_expr(d, lhs, g, fr) == Some((Err::<Val, (Span, Fault)>(e), la)),
    ensures
        sem_binary(d, span, op, lhs, rhs, g, fr) == Some((Err::<Val, (Span, Fault)>(e), la)),
        sem_binary(d, span, op, lhs, rhs, g, fr) == sem_binary(d, span, op, lhs, other_rhs, g, fr),
{
}

/// Indexing a list with a non-negative integer never fails: it gives the
/// element at that position, or `null` past the end.
pub proof fn law_list_index(
    d: nat,
    target: Expression,
    index: Expression,
    g: Store,
    fr: Seq<Store>,
    items: Seq<Val>,
    i: i64,
    li: Log,
    lt: Log,
)
    requires
        i >= 0,
        sem_expr(d, index, g, fr) == ok_after(Val::Int(i), li),
        sem_expr(d, target, g, fr) == ok_after(Val::List(items), lt),
    ensures
        i < items.len() ==> sem_index(d, target, index, g, fr) == ok_after(items[i as int], li + lt),
        i >= items.len() ==> sem_index(d, target, index, g, fr) == ok_after(Val::Null, li + lt),
{
}

/// An index that is not an integer is an error at the index, and the target
/// is then not evaluated.
pub proof fn law_index_not_int(
    d: nat,
    target: Expression,
    other_target: Expression,
    index: Expression,
    g: Store,
    fr: Seq<Store>,
    v: Val,
    li: Log,
)
    requires
        !(v is Int),
        sem_expr(d, index, g, fr) == ok_after(v, li),
    ensures
        sem_index(d, target, index, g, fr) == sem_index(d, other_target, index, g, fr),
        sem_index(d, target, index, g, fr) matches Some((Err((s, _)), l)) && s == expr_span(index)
            && l == li,
{
}

/// The concatenation operator is not implemented: once its operands are
/// evaluated it always reports so, and never yields a value.
pub proof fn law_concat_unimplemented(
    d: nat,
    span: Span,
    lhs: Expression,
    rhs: Expression,
    g: Store,
    fr: Seq<Store>,
    a: Val,
    b: Val,
    la: Log,
    lb: Log,
)
    requires
        sem_expr(d, lhs, g, fr) == ok_after(a, la),
        sem_expr(d, rhs, g, fr) == ok_after(b, lb),
    ensures
        sem_binary(d, span, BinaryOp::Concat, lhs, rhs, g, fr) == err_after(
            span,
            Fault::GenericError { message: concat_message() },
            la + lb,
        ),
{
}

/// A reference to an unbound name is an `UndefinedVariable` error naming it,
/// located exactly at the reference, whatever the nesting budget.
pub proof fn law_undefined_variable(d: nat, e: Expression, g: Store, fr: Seq<Store>, name: String)
    requires
        e.node == ExpressionKind::Variable(name),
        resolve(g, fr, name@) is None,
    ensures
        sem_expr(d, e, g, fr) == err_after(
            expr_span(e),
            Fault::UndefinedVariable { name: name@ },
            Seq::empty(),
        ),
{
}

/// Calling a lambda with the wrong number of arguments is an
/// `ArgumentCountMismatch` error, decided before any argument is evaluated:
/// the outcome, log included, is the same whatever the arguments are.
pub proof fn law_argument_count(
    d: nat,
    span: Span,
    callee: Expression,
    args: Seq<Expression>,
    other_args: Seq<Expression>,
    g: Store,
    fr: Seq<Store>,
    f: Val,
    lf: Log,
)
    requires
        f is Lambda,
        f->params.len() != args.len(),
        other_args.len() == args.len(),
        sem_expr(d, callee, g, fr) == ok_after(f, lf),
    ensures
        sem_call(d, span, callee, args, g, fr) == err_after(
            span,
            Fault::ArgumentCountMismatch {
                expected_count: f->params.len() as usize,
                actual_count: args.len() as usize,
            },
            lf,
        ),
        sem_call(d, span, callee, args, g, fr) == sem_call(d, span, callee, other_args, g, fr),
{
}

/// Calling something that is not a lambda is an error at the call, and no
/// argument is evaluated.
pub proof fn law_call_non_lambda(
    d: nat,
    span: Span,
    callee: Expression,
    args: Seq<Expression>,
    other_args: Seq<Expression>,
    g: Store,
    fr: Seq<Store>,
    f: Val,
    lf: Log,
)
    requires
        !(f is Lambda),
        other_args.len() == args.len(),
        sem_expr(d, callee, g, fr) == ok_after(f, lf),
    ensures
        sem_call(d, span, callee, args, g, fr) == sem_call(d, span, callee, other_args, g, fr),
        sem_call(d, span, callee, args, g, fr) matches Some((Err((s, Fault::MismatchedTypes { .. })), l))
            && s == span && l == lf,
{
}

/// Equality never promotes numbers: an integer and a float are unequal (and
/// `!=` holds), whatever their values.
pub proof fn law_no_promotion_under_equality(
    d: nat,
    span: Span,
    lhs: Expression,
    rhs: Expression,
    g: Store,
    fr: Seq<Store>,
    a: i64,
    b: u64,
    la: Log,
    lb: Log,
)
    requires
        sem_expr(d, lhs, g, fr) == ok_after(Val::Int(a), la),
        sem_expr(d, rhs, g, fr) == ok_after(Val::Float(b), lb),
    ensures
        sem_binary(d, span, BinaryOp::EQ, lhs, rhs, g, fr) == ok_after(Val::Bool(false), la + lb),
        sem_binary(d, span, BinaryOp::NE, lhs, rhs, g, fr) == ok_after(Val::Bool(true), la + lb),
{
}

/// A conditional evaluates only the branch its condition selects: the
/// outcome, log included, does not depend on the other branch at all.
pub proof fn law_untaken_branch(
    d: nat,
    condition: Expression,
    then_branch: Expression,
    else_branch: Expression,
    other_else: Expression,
    g: Store,
    fr: Seq<Store>,
    lc: Log,
)
    requires
        sem_expr(d, condition, g, fr) == ok_after(Val::Bool(true), lc),
    ensures
        sem_if(d, condition, then_branch, else_branch, g, fr) == sem_if(
            d,
            condition,
            then_branch,
            other_else,
            g,
            fr,
        ),
        sem_expr(d, then_branch, g, fr) matches Some((x, l)) ==> sem_if(
            d,
            condition,
            then_branch,
            else_branch,
            g,
            fr,
        ) == Some((x, lc + l)),
{
}

/// A condition that is not a boolean is an error at the condition, and
/// neither branch is evaluated.
pub proof fn law_condition_not_bool(
    d: nat,
    condition: Expression,
    then_branch: Expression,
    else_branch: Expression,
    other_then: Expression,
    other_else: Expression,
    g: Store,
    fr: Seq<Store>,
    v: Val,
    lc: Log,
)
    requires
        !(v is Bool),
        sem_expr(d, condition, g, fr) == ok_after(v, lc),
    ensures
        sem_if(d, condition, then_branch, else_branch, g, fr) == sem_if(
            d,
            condition,
            other_then,
            other_else,
            g,
            fr,
        ),
        sem_if(d, condition, then_branch, else_branch, g, fr) matches Some((Err((s, _)), l)) && s
            == expr_span(condition) && l == lc,
{
}

/// `reduce` calls its function with the element first and the accumulator
/// second: on a one-element list the outcome, log included, is that of
/// `f(element, acc)`.
pub proof fn law_reduce_argument_order(
    d: nat,
    span: Span,
    f: Val,
    x: Val,
    acc: Val,
    g: Store,
    fr: Seq<Store>,
)
    ensures
        sem_builtin(d, span, Builtin::ReduceList, seq![Val::List(seq![x]), acc, f], g, fr)
            == sem_apply(d, span, f, seq![x, acc], g, fr),
{
    let args = seq![Val::List(seq![x]), acc, f];
    assert(args[0] == Val::List(seq![x]));
    assert(seq![x][0] == x);
    if let Some((Ok(v), l)) = sem_apply(d, span, f, seq![x, acc], g, fr) {
        assert(sem_reduce(d, span, f, seq![x], 1, v, g, fr) == ok_after(v, Seq::empty()));
    }
}

/// `log(label, value)` gives `value` and logs exactly the pair.
pub proof fn law_log_entry(d: nat, span: Span, label: Val, value: Val, g: Store, fr: Seq<Store>)
    ensures
        sem_builtin(d, span, Builtin::Log, seq![label, value], g, fr) == ok_after(
            value,
            seq![(label, value)],
        ),
{
}

} // verus!

//! Lambda values and their application.
use vstd::prelude::*;

use crate::ast::{Expression, Identifier};
use crate::context::{preserved, Context};
use crate::errors::{EvalError, Span, TypeError, TypeErrorKind};
use crate::expr::{one_type, agrees, depth_error, eval_args, eval_expr, mismatched};
use crate::float::FloatArith;
use crate::jml_type::JmlType;
use crate::semantics::{frame_of, lambda_model, sem_apply, sem_call};
use crate::stdlib::call_builtin;
use crate::value::{names_model, values_model, JmlLambda, JmlValue, LambdaBody};

verus! {

broadcast use {
    crate::context::lemma_preserved_trans,
    crate::context::lemma_preserved_refl,
    crate::semantics::lemma_log_assoc,
    crate::semantics::lemma_log_empty,
};

/// The value of a lambda expression: its parameter names and its body, not
/// evaluated.
pub fn eval_lambda_definition<'a>(params: &Vec<Identifier>, body: &'a Expression) -> (r: JmlValue<
    'a,
>)
    ensures
        r@ == lambda_model(params@, *body),
{
    let mut names: Vec<String> = Vec::new();
    let mut i: usize = 0;
    while i < params.len()
        invariant
            i <= params@.len(),
            names@.len() == i,
            forall|j: int| 0 <= j < i ==> (#[trigger] names@[j])@ == params@[j].node@,
        decreases params@.len() - i,
    {
        names.push(params[i].node.clone());
        i = i + 1;
    }
    let r = JmlValue::Lambda(JmlLambda { params: names, body: LambdaBody::Common(body) });
    assert(names_model(names@) =~= lambda_model(params@, *body)->params);
    r
}

fn arity_error(span: Span, expected_count: usize, actual_count: usize) -> (e: EvalError)
    ensures
        e@ == (span, crate::errors::Fault::ArgumentCountMismatch { expected_count, actual_count }),
        e.well_formed(),
{
    EvalError::TypeError(
        TypeError { span, kind: TypeErrorKind::ArgumentCountMismatch { expected_count, actual_count } },
    )
}

/// A call `callee(args..)`: the callee is evaluated and its arity checked
/// before any argument is evaluated.
pub fn eval_lambda_application<'a, F: FloatArith>(
    span: Span,
    callee: &'a Expression,
    args: &'a Vec<Expression>,
    ctx: &mut Context<'a>,
    arith: &F,
    depth: usize,
) -> (r: Result<JmlValue<'a>, EvalError>)
    requires
        old(ctx).well_formed(),
    ensures
        preserved(*old(ctx), *final(ctx)),
        agrees(r, sem_call(depth as nat, span, *callee, args@, old(ctx).globals(), old(ctx).frames()), *old(ctx), *final(ctx)),
    decreases depth, 3nat, 0nat,
{
    let target = eval_expr(callee, ctx, arith, depth)?;
    let arity = match &target {
        JmlValue::Lambda(f) => f.params.len(),
        _ => {
            return Err(
                mismatched(span, one_type(JmlType::Lambda { arity: args.len() }), target.type_of()),
            );
        },
    };
    if arity != args.len() {
        return Err(arity_error(span, arity, args.len()));
    }
    let vals = eval_args(args, ctx, arith, depth)?;
    eval_lambda_application_with_evaluated_args(span, target, vals, ctx, arith, depth)
}

/// Applies `lambda` to arguments already evaluated. A lambda of the program
/// runs its body with a fresh local frame binding each parameter to its
/// argument; the frame is removed again on every path.
pub fn eval_lambda_application_with_evaluated_args<'a, F: FloatArith>(
    span: Span,
    lambda: JmlValue<'a>,
    args: Vec<JmlValue<'a>>,
    ctx: &mut Context<'a>,
    arith: &F,
    depth: usize,
) -> (r: Result<JmlValue<'a>, EvalError>)
    requires
        old(ctx).well_formed(),
    ensures
        preserved(*old(ctx), *final(ctx)),
        agrees(
            r,
            sem_apply(depth as nat, span, lambda@, values_model(args@), old(ctx).globals(), old(ctx).frames()), *old(ctx), *final(ctx)),
    decreases depth, 0nat, 0nat,
{
    if depth == 0 {
        return Err(depth_error(span));
    }
    let f = match lambda {
        JmlValue::Lambda(f) => f,
        _ => {
            return Err(
                mismatched(span, one_type(JmlType::Lambda { arity: args.len() }), lambda.type_of()),
            );
        },
    };
    if f.params.len() != args.len() {
        return Err(arity_error(span, f.params.len(), args.len()));
    }
    match f.body {
        LambdaBody::Common(body) => {
            let ghost params = names_model(f.params@);
            let ghost vals = values_model(args@);
            let mut frame = Context::new();
            let mut i: usize = 0;
            assert(frame.globals() =~= frame_of(params, vals, 0));
            while i < f.params.len()
                invariant
                    i <= f.params@.len(),
                    f.params@.len() == args@.len(),
                    params == names_model(f.params@),
                    vals == values_model(args@),
                    frame.well_formed(),
                    frame.globals() == frame_of(params, vals, i as nat),
                decreases f.params@.len() - i,
            {
                frame.bind_with_value(f.params[i].clone(), args[i].clone());
                i = i + 1;
            }
            ctx.push_local(frame);
            let r = eval_expr(body, ctx, arith, depth - 1);
            ctx.pop_local();
            assert(ctx.frames() =~= old(ctx).frames());
            r
        },
        LambdaBody::Native(b) => call_builtin(span, b, args, ctx, arith, depth - 1),
    }
}

} // verus!

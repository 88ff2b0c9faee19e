//! Evaluation of expressions. Every function here is proved to agree with
//! the semantics of `semantics` wherever that gives an outcome, and to
//! leave the bindings and frames of the context as it found them.
use vstd::prelude::*;

use crate::ast::{BinaryOp, Expression, ExpressionKind, Key, UnaryOp};
use crate::context::{preserved, Binding, Context};
use crate::errors::{EvalError, Fault, RuntimeError, RuntimeErrorKind, Span, TypeError, TypeErrorKind};
use crate::float::FloatArith;
use crate::jml_type::JmlType;
use crate::lambda::{eval_lambda_application, eval_lambda_definition};
use crate::operators::{apply_binary, apply_unary, is_arithmetic, is_comparison};
use crate::semantics::{
    depth_fault, depth_message, host_binary, host_expr, needs_budget, list_outcome, sem_binary, sem_expr, sem_if, sem_index,
    sem_list, sem_object, sem_selector, sem_unary, sem_variable, after, lemma_after_empty, prepend,
    ListOutcome, Log,
    Outcome,
};
use crate::text::{int_to_text, owned};
use crate::value::{lemma_list_model, lemma_object_model, values_model, JmlObject, JmlValue, Val};

verus! {

broadcast use {
    crate::context::lemma_preserved_trans,
    crate::context::lemma_preserved_refl,
    crate::semantics::lemma_log_assoc,
    crate::semantics::lemma_log_empty,
};

pub open spec fn result_model(r: Result<JmlValue, EvalError>) -> Result<Val, (Span, Fault)> {
    match r {
        Ok(v) => Ok(v@),
        Err(e) => Err(e@),
    }
}

/// Where `o` is determined, `r` is its result and the log went from `pre`'s
/// to `post`'s by appending exactly `o`'s entries; any error is of the family
/// its kind belongs to.
pub open spec fn agrees(r: Result<JmlValue, EvalError>, o: Outcome, pre: Context, post: Context) -> bool {
    &&& (o matches Some((x, l)) ==> result_model(r) == x && post.log_model() == pre.log_model() + l)
    &&& (r matches Err(e) ==> e.well_formed())
}

pub open spec fn agrees_seq(
    r: Result<Vec<JmlValue>, EvalError>,
    o: ListOutcome,
    pre: Context,
    post: Context,
) -> bool {
    &&& (o matches Some((Ok(vs), _)) ==> (r matches Ok(xs) && values_model(xs@) == vs))
    &&& (o matches Some((Err(x), _)) ==> (r matches Err(e) && e@ == x))
    &&& (o matches Some((_, l)) ==> post.log_model() == pre.log_model() + l)
    &&& (r matches Err(e) ==> e.well_formed())
}

/// A result the host computed: a float for an arithmetic operator, a boolean
/// for an ordering, never an error, after the operands' entries `l` were
/// logged.
pub open spec fn host_result(
    r: Result<JmlValue, EvalError>,
    op: BinaryOp,
    pre: Context,
    post: Context,
    l: Log,
) -> bool {
    &&& r matches Ok(v) && (is_arithmetic(op) ==> v@ is Float) && (is_comparison(op) ==> v@ is Bool)
    &&& post.log_model() == pre.log_model() + l
}

pub fn depth_error(span: Span) -> (e: EvalError)
    ensures
        e@ == (span, depth_fault()),
        e.well_formed(),
{
    let message = owned("nesting too deep");
    proof {
        reveal_strlit("nesting too deep");
        assert(message@ =~= depth_message());
    }
    EvalError::RuntimeError(RuntimeError { span, kind: RuntimeErrorKind::GenericError { message } })
}

/// A list of one type.
pub fn one_type(a: JmlType) -> (v: Vec<JmlType>)
    ensures
        v@ == seq![a],
{
    let mut v = Vec::new();
    v.push(a);
    assert(v@ =~= seq![a]);
    v
}

/// The types that indexing and selection name when their target is wrong.
pub fn list_or_string() -> (v: Vec<JmlType>)
    ensures
        v@ == seq![JmlType::List, JmlType::String],
{
    let mut v = Vec::new();
    v.push(JmlType::List);
    v.push(JmlType::String);
    assert(v@ =~= seq![JmlType::List, JmlType::String]);
    v
}

pub fn mismatched(span: Span, expected: Vec<JmlType>, found: JmlType) -> (e: EvalError)
    ensures
        e@ == (span, Fault::MismatchedTypes { expected: expected@, found }),
        e.well_formed(),
{
    EvalError::TypeError(TypeError { span, kind: TypeErrorKind::MismatchedTypes { expected, found } })
}

pub proof fn lemma_prepend_empty(o: ListOutcome)
    ensures
        prepend(Seq::empty(), Seq::empty(), o) == o,
{
    if let Some((Ok(vs), l)) = o {
        assert(Seq::<Val>::empty() + vs =~= vs);
    }
}

pub proof fn lemma_prepend_step(done: Seq<Val>, dl: Log, more: Seq<Val>, l: Log, o: ListOutcome)
    ensures
        prepend(done, dl, prepend(more, l, o)) == prepend(done + more, dl + l, o),
{
    if let Some((Ok(vs), _)) = o {
        assert(done + (more + vs) =~= (done + more) + vs);
    }
}

fn spends_budget(k: &ExpressionKind) -> (r: bool)
    ensures
        r == needs_budget(*k),
{
    !matches!(
        k,
        ExpressionKind::Null | ExpressionKind::Float(_) | ExpressionKind::Bool(_) | ExpressionKind::Int(
            _,
        ) | ExpressionKind::String(_) | ExpressionKind::Variable(_) | ExpressionKind::Lambda { .. }
    )
}

/// Evaluates `expression` with nesting budget `depth`: an operator,
/// constructor, index, selection, conditional or call spends one unit, as
/// does an application and the evaluation of a lazily bound expression;
/// literals, lambda expressions and variable references need none. An empty
/// budget is a `GenericError` ("nesting too deep") at the expression.
pub fn eval_expr<'a, F: FloatArith>(
    expression: &'a Expression,
    ctx: &mut Context<'a>,
    arith: &F,
    depth: usize,
) -> (r: Result<JmlValue<'a>, EvalError>)
    requires
        old(ctx).well_formed(),
    ensures
        preserved(*old(ctx), *final(ctx)),
        agrees(r, sem_expr(depth as nat, *expression, old(ctx).globals(), old(ctx).frames()), *old(ctx), *final(ctx)),
        host_expr(depth as nat, *expression, old(ctx).globals(), old(ctx).frames()) matches Some((op, l))
            ==> host_result(r, op, *old(ctx), *final(ctx), l),
    decreases depth, 1nat, 0nat,
{
    let span = Span::from_bounds(expression.l, expression.r);
    if depth == 0 && spends_budget(&expression.node) {
        return Err(depth_error(span));
    }
    let d: usize = if depth == 0 {
        0
    } else {
        depth - 1
    };
    match &expression.node {
        ExpressionKind::Null => Ok(JmlValue::null()),
        ExpressionKind::Float(x) => Ok(JmlValue::float(*x)),
        ExpressionKind::Bool(b) => Ok(JmlValue::bool(*b)),
        ExpressionKind::Int(i) => Ok(JmlValue::integer(*i)),
        ExpressionKind::String(s) => Ok(JmlValue::string(s.clone())),
        ExpressionKind::Object(entries) => eval_object(entries, ctx, arith, d),
        ExpressionKind::List(elems) => eval_list(elems, ctx, arith, d),
        ExpressionKind::Variable(name) => eval_variable(span, name, ctx, arith, depth),
        ExpressionKind::IndexAccess { target, index } => eval_index_access(
            &**target,
            &**index,
            ctx,
            arith,
            d,
        ),
        ExpressionKind::Selector { target, key } => eval_selector(&**target, key, ctx, arith, d),
        ExpressionKind::UnaryOp { op, expr } => eval_unary_op(span, *op, &**expr, ctx, arith, d),
        ExpressionKind::BinaryOp { op, lhs, rhs } => eval_binary_op(
            span,
            *op,
            &**lhs,
            &**rhs,
            ctx,
            arith,
            d,
        ),
        ExpressionKind::IfExpr { condition, then_branch, else_branch } => eval_if_expr(
            &**condition,
            &**then_branch,
            &**else_branch,
            ctx,
            arith,
            d,
        ),
        ExpressionKind::Lambda { params, body } => Ok(eval_lambda_definition(params, &**body)),
        ExpressionKind::Apply { lambda, args } => eval_lambda_application(
            span,
            &**lambda,
            args,
            ctx,
            arith,
            d,
        ),
    }
}

/// Evaluates `elems` left to right; the first error stops the evaluation.
pub fn eval_args<'a, F: FloatArith>(
    elems: &'a Vec<Expression>,
    ctx: &mut Context<'a>,
    arith: &F,
    depth: usize,
) -> (r: Result<Vec<JmlValue<'a>>, EvalError>)
    requires
        old(ctx).well_formed(),
    ensures
        preserved(*old(ctx), *final(ctx)),
        agrees_seq(r, sem_list(depth as nat, elems@, 0, old(ctx).globals(), old(ctx).frames()), *old(ctx), *final(ctx)),
    decreases depth, 2nat, 0nat,
{
    let ghost g = ctx.globals();
    let ghost fr = ctx.frames();
    let ghost whole = sem_list(depth as nat, elems@, 0, g, fr);
    let ghost log0 = ctx.log_model();
    let ghost mut dl: Log = Seq::empty();
    let mut out: Vec<JmlValue<'a>> = Vec::new();
    let mut i: usize = 0;
    proof {
        lemma_prepend_empty(whole);
        assert(values_model(out@) =~= Seq::<Val>::empty());
    }
    while i < elems.len()
        invariant
            i <= elems@.len(),
            preserved(*old(ctx), *ctx),
            g == old(ctx).globals(),
            fr == old(ctx).frames(),
            whole == sem_list(depth as nat, elems@, 0, g, fr),
            log0 == old(ctx).log_model(),
            whole is Some ==> whole == prepend(
                values_model(out@),
                dl,
                sem_list(depth as nat, elems@, i as nat, g, fr),
            ),
            whole is Some ==> ctx.log_model() == log0 + dl,
        decreases elems@.len() - i,
    {
        let ghost step = sem_expr(depth as nat, elems@[i as int], g, fr);
        let v = eval_expr(&elems[i], ctx, arith, depth);
        match v {
            Ok(v) => {
                proof {
                    if let Some((_, l)) = step {
                        lemma_prepend_step(values_model(out@), dl, seq![v@], l, sem_list(depth as nat, elems@, (i + 1) as nat, g, fr));
                        dl = dl + l;
                    }
                }
                let ghost before = values_model(out@);
                out.push(v);
                assert(values_model(out@) =~= before + seq![v@]);
            },
            Err(e) => {
                return Err(e);
            },
        }
        i = i + 1;
    }
    proof {
        if let Some((Ok(vs), _)) = whole {
            assert(values_model(out@) + Seq::<Val>::empty() =~= values_model(out@));
        }
    }
    Ok(out)
}

/// A list constructor: the elements, left to right.
pub fn eval_list<'a, F: FloatArith>(
    elems: &'a Vec<Expression>,
    ctx: &mut Context<'a>,
    arith: &F,
    depth: usize,
) -> (r: Result<JmlValue<'a>, EvalError>)
    requires
        old(ctx).well_formed(),
    ensures
        preserved(*old(ctx), *final(ctx)),
        agrees(
            r,
            list_outcome(sem_list(depth as nat, elems@, 0, old(ctx).globals(), old(ctx).frames())), *old(ctx), *final(ctx)),
    decreases depth, 3nat, 0nat,
{
    match eval_args(elems, ctx, arith, depth) {
        Ok(vals) => Ok(JmlValue::list(vals)),
        Err(e) => Err(e),
    }
}

/// An object constructor: for each entry its value, then its key when the
/// key is computed; later entries overwrite earlier ones with the same key.
pub fn eval_object<'a, F: FloatArith>(
    data: &'a Vec<(Key, Expression)>,
    ctx: &mut Context<'a>,
    arith: &F,
    depth: usize,
) -> (r: Result<JmlValue<'a>, EvalError>)
    requires
        old(ctx).well_formed(),
    ensures
        preserved(*old(ctx), *final(ctx)),
        agrees(r, sem_object(depth as nat, data@, 0, Seq::empty(), old(ctx).globals(), old(ctx).frames()), *old(ctx), *final(ctx)),
    decreases depth, 3nat, 0nat,
{
    let ghost g = ctx.globals();
    let ghost fr = ctx.frames();
    let ghost whole = sem_object(depth as nat, data@, 0, Seq::empty(), g, fr);
    let ghost log0 = ctx.log_model();
    let ghost mut dl: Log = Seq::empty();
    let mut result = JmlObject::new();
    let mut i: usize = 0;
    proof {
        lemma_after_empty(whole);
    }
    while i < data.len()
        invariant
            i <= data@.len(),
            preserved(*old(ctx), *ctx),
            g == old(ctx).globals(),
            fr == old(ctx).frames(),
            whole == sem_object(depth as nat, data@, 0, Seq::empty(), g, fr),
            log0 == old(ctx).log_model(),
            result.well_formed(),
            whole is Some ==> whole == after(
                dl,
                sem_object(depth as nat, data@, i as nat, result.entries_model(), g, fr),
            ),
            whole is Some ==> ctx.log_model() == log0 + dl,
        decreases data@.len() - i,
    {
        let entry = &data[i];
        let ghost acc = result.entries_model();
        let ghost vstep = sem_expr(depth as nat, entry.1, g, fr);
        let value = match eval_expr(&entry.1, ctx, arith, depth) {
            Ok(v) => v,
            Err(e) => {
                return Err(e);
            },
        };
        proof {
            if let Some((_, l1)) = vstep {
                dl = dl + l1;
            }
        }
        match &entry.0 {
            Key::Ident(id) => {
                result.insert(id.node.clone(), value);
            },
            Key::Expression(kx) => {
                let ghost kstep = sem_expr(depth as nat, *kx, g, fr);
                let key = match eval_expr(kx, ctx, arith, depth) {
                    Ok(k) => k,
                    Err(e) => {
                        return Err(e);
                    },
                };
                proof {
                    if let Some((_, l2)) = kstep {
                        dl = dl + l2;
                    }
                }
                match key {
                    JmlValue::String(s) => {
                        result.insert(s.0, value);
                    },
                    JmlValue::Int(n) => {
                        result.insert(int_to_text(n.0), value);
                    },
                    JmlValue::Float(x) => {
                        result.insert(arith.to_text(x.0), value);
                    },
                    _ => {
                        return Err(
                            mismatched(
                                Span::from_bounds(kx.l, kx.r),
                                one_type(JmlType::String),
                                key.type_of(),
                            ),
                        );
                    },
                }
            },
        }
        i = i + 1;
    }
    Ok(JmlValue::object(result))
}

/// A variable reference.
pub fn eval_variable<'a, F: FloatArith>(
    span: Span,
    ident: &String,
    ctx: &mut Context<'a>,
    arith: &F,
    depth: usize,
) -> (r: Result<JmlValue<'a>, EvalError>)
    requires
        old(ctx).well_formed(),
    ensures
        preserved(*old(ctx), *final(ctx)),
        agrees(r, sem_variable(depth as nat, span, ident@, old(ctx).globals(), old(ctx).frames()), *old(ctx), *final(ctx)),
    decreases depth, 0nat, 0nat,
{
    match ctx.lookup_variable(ident) {
        Ok(Binding::Expression(expr)) => if depth == 0 {
            Err(depth_error(span))
        } else {
            eval_expr(expr, ctx, arith, depth - 1)
        },
        Ok(Binding::Value(value)) => Ok(value),
        Err(kind) => Err(EvalError::RuntimeError(RuntimeError { span, kind })),
    }
}

/// `target.key`.
pub fn eval_selector<'a, F: FloatArith>(
    target: &'a Expression,
    key: &String,
    ctx: &mut Context<'a>,
    arith: &F,
    depth: usize,
) -> (r: Result<JmlValue<'a>, EvalError>)
    requires
        old(ctx).well_formed(),
    ensures
        preserved(*old(ctx), *final(ctx)),
        agrees(r, sem_selector(depth as nat, *target, key@, old(ctx).globals(), old(ctx).frames()), *old(ctx), *final(ctx)),
    decreases depth, 3nat, 0nat,
{
    let val = eval_expr(target, ctx, arith, depth)?;
    match &val {
        JmlValue::Object(ob) => {
            proof {
                lemma_object_model(*ob);
            }
            Ok(ob.access_by_key(key))
        },
        _ => Err(
            mismatched(
                Span::from_bounds(target.l, target.r),
                list_or_string(),
                val.type_of(),
            ),
        ),
    }
}

/// `target[index]`.
pub fn eval_index_access<'a, F: FloatArith>(
    target: &'a Expression,
    index: &'a Expression,
    ctx: &mut Context<'a>,
    arith: &F,
    depth: usize,
) -> (r: Result<JmlValue<'a>, EvalError>)
    requires
        old(ctx).well_formed(),
    ensures
        preserved(*old(ctx), *final(ctx)),
        agrees(r, sem_index(depth as nat, *target, *index, old(ctx).globals(), old(ctx).frames()), *old(ctx), *final(ctx)),
    decreases depth, 3nat, 0nat,
{
    let index_val = eval_expr(index, ctx, arith, depth)?;
    let i = match index_val {
        JmlValue::Int(i) => i.0,
        _ => {
            return Err(
                mismatched(
                    Span::from_bounds(index.l, index.r),
                    one_type(JmlType::Int),
                    index_val.type_of(),
                ),
            );
        },
    };
    let target_val = eval_expr(target, ctx, arith, depth)?;
    match &target_val {
        JmlValue::List(l) => {
            proof {
                lemma_list_model(*l);
            }
            if i >= 0 && (i as u64) < (l.0.len() as u64) {
                Ok(l.access_by_index(i as usize))
            } else {
                Ok(JmlValue::null())
            }
        },
        JmlValue::String(s) => {
            let n = s.0.as_str().unicode_len();
            if i >= 0 && (i as u64) < (n as u64) {
                Ok(s.get_by_index(i as usize))
            } else {
                Ok(JmlValue::null())
            }
        },
        _ => Err(
            mismatched(
                Span::from_bounds(target.l, target.r),
                list_or_string(),
                target_val.type_of(),
            ),
        ),
    }
}

/// A unary operator expression; an error covers the whole expression.
pub fn eval_unary_op<'a, F: FloatArith>(
    span: Span,
    op: UnaryOp,
    rhs: &'a Expression,
    ctx: &mut Context<'a>,
    arith: &F,
    depth: usize,
) -> (r: Result<JmlValue<'a>, EvalError>)
    requires
        old(ctx).well_formed(),
    ensures
        preserved(*old(ctx), *final(ctx)),
        agrees(r, sem_unary(depth as nat, span, op, *rhs, old(ctx).globals(), old(ctx).frames()), *old(ctx), *final(ctx)),
    decreases depth, 3nat, 0nat,
{
    let v = eval_expr(rhs, ctx, arith, depth)?;
    match apply_unary(op, &v) {
        Ok(r) => Ok(r),
        Err(kind) => Err(kind.at(span)),
    }
}

/// A binary operator expression: both operands, left first, then the
/// operator; an error covers the whole expression.
pub fn eval_binary_op<'a, F: FloatArith>(
    span: Span,
    op: BinaryOp,
    lhs: &'a Expression,
    rhs: &'a Expression,
    ctx: &mut Context<'a>,
    arith: &F,
    depth: usize,
) -> (r: Result<JmlValue<'a>, EvalError>)
    requires
        old(ctx).well_formed(),
    ensures
        preserved(*old(ctx), *final(ctx)),
        agrees(r, sem_binary(depth as nat, span, op, *lhs, *rhs, old(ctx).globals(), old(ctx).frames()), *old(ctx), *final(ctx)),
        host_binary(depth as nat, op, *lhs, *rhs, old(ctx).globals(), old(ctx).frames()) matches Some(l)
            ==> host_result(r, op, *old(ctx), *final(ctx), l),
    decreases depth, 3nat, 0nat,
{
    let a = eval_expr(lhs, ctx, arith, depth)?;
    let b = eval_expr(rhs, ctx, arith, depth)?;
    match apply_binary(op, &a, &b, arith) {
        Ok(r) => Ok(r),
        Err(kind) => Err(kind.at(span)),
    }
}

/// `if condition then .. else ..`: only the chosen branch is evaluated.
pub fn eval_if_expr<'a, F: FloatArith>(
    condition: &'a Expression,
    then_branch: &'a Expression,
    else_branch: &'a Expression,
    ctx: &mut Context<'a>,
    arith: &F,
    depth: usize,
) -> (r: Result<JmlValue<'a>, EvalError>)
    requires
        old(ctx).well_formed(),
    ensures
        preserved(*old(ctx), *final(ctx)),
        agrees(
            r,
            sem_if(depth as nat, *condition, *then_branch, *else_branch, old(ctx).globals(), old(ctx).frames()), *old(ctx), *final(ctx)),
    decreases depth, 3nat, 0nat,
{
    let cond = eval_expr(condition, ctx, arith, depth)?;
    if !cond.is_bool() {
        return Err(
            mismatched(
                Span::from_bounds(condition.l, condition.r),
                one_type(JmlType::Bool),
                cond.type_of(),
            ),
        );
    }
    if cond.is_truthy() {
        eval_expr(then_branch, ctx, arith, depth)
    } else {
        eval_expr(else_branch, ctx, arith, depth)
    }
}

} // verus!

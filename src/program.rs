//! Evaluation of a whole program: top-level bindings, then the body.
use vstd::prelude::*;

use crate::ast::{Jml, Statement, StatementKind};
use crate::context::{store_put, BindingModel, Context, Store};
use crate::errors::EvalError;
use crate::expr::{agrees, eval_expr, result_model};
use crate::float::FloatArith;
use crate::semantics::sem_expr;
use crate::stdlib::{define_std_lib, std_globals};
use crate::value::JmlValue;

verus! {

broadcast use {
    crate::context::lemma_preserved_trans,
    crate::context::lemma_preserved_refl,
    crate::semantics::lemma_log_assoc,
    crate::semantics::lemma_log_empty,
};

/// The nesting budget of a program's evaluation.
pub const MAX_DEPTH: usize = 2000;

pub open spec fn statement_binding(s: Statement) -> (Seq<char>, BindingModel) {
    match s.node {
        StatementKind::Bind { identifier, expression } => (
            identifier.node@,
            BindingModel::Expression(expression),
        ),
    }
}

/// The store after the first `n` statements, each binding its name lazily.
pub open spec fn bound_statements(g: Store, header: Seq<Statement>, n: nat) -> Store
    decreases n,
{
    if n == 0 || n > header.len() {
        g
    } else {
        let b = statement_binding(header[n - 1]);
        store_put(bound_statements(g, header, (n - 1) as nat), b.0, b.1)
    }
}

/// Binds a statement's name to its expression, unevaluated.
pub fn eval_stmt<'a>(stmt: &'a Statement, ctx: &mut Context<'a>)
    requires
        old(ctx).well_formed(),
    ensures
        final(ctx).well_formed(),
        final(ctx).globals() == store_put(
            old(ctx).globals(),
            statement_binding(*stmt).0,
            statement_binding(*stmt).1,
        ),
        final(ctx).frames() == old(ctx).frames(),
        final(ctx).log_model() == old(ctx).log_model(),
{
    match &stmt.node {
        StatementKind::Bind { identifier, expression } => {
            ctx.bind_with_expr(identifier.node.clone(), expression);
        },
    }
}

/// Evaluates a program in `ctx` with nesting budget `depth`: the builtins are
/// bound, then each statement in order, then the body is evaluated.
pub fn eval_with_ctx_depth<'a, F: FloatArith>(
    jml: &'a Jml,
    ctx: &mut Context<'a>,
    arith: &F,
    depth: usize,
) -> (r: Result<JmlValue<'a>, EvalError>)
    requires
        old(ctx).well_formed(),
    ensures
        final(ctx).well_formed(),
        final(ctx).frames() == old(ctx).frames(),
        final(ctx).globals() == program_globals(old(ctx).globals(), *jml),
        agrees(
            r,
            sem_expr(depth as nat, jml.body, program_globals(old(ctx).globals(), *jml), old(ctx).frames()),
            *old(ctx),
            *final(ctx),
        ),
{
    define_std_lib(ctx);
    let ghost g0 = ctx.globals();
    let mut i: usize = 0;
    while i < jml.header.len()
        invariant
            i <= jml.header@.len(),
            ctx.well_formed(),
            ctx.frames() == old(ctx).frames(),
            ctx.log_model() == old(ctx).log_model(),
            g0 == std_globals(old(ctx).globals()),
            ctx.globals() == bound_statements(g0, jml.header@, i as nat),
        decreases jml.header@.len() - i,
    {
        eval_stmt(&jml.header[i], ctx);
        i = i + 1;
    }
    eval_expr(&jml.body, ctx, arith, depth)
}

/// The top-level store a program's body is evaluated in.
pub open spec fn program_globals(g: Store, jml: Jml) -> Store {
    bound_statements(std_globals(g), jml.header@, jml.header@.len())
}

/// Evaluates a program in `ctx` with the default nesting budget.
pub fn eval_with_ctx<'a, F: FloatArith>(jml: &'a Jml, ctx: &mut Context<'a>, arith: &F) -> (r:
    Result<JmlValue<'a>, EvalError>)
    requires
        old(ctx).well_formed(),
    ensures
        final(ctx).well_formed(),
        final(ctx).frames() == old(ctx).frames(),
        final(ctx).globals() == program_globals(old(ctx).globals(), *jml),
        agrees(
            r,
            sem_expr(MAX_DEPTH as nat, jml.body, program_globals(old(ctx).globals(), *jml), old(ctx).frames()),
            *old(ctx),
            *final(ctx),
        ),
{
    eval_with_ctx_depth(jml, ctx, arith, MAX_DEPTH)
}

/// Evaluates a program in a fresh context with the default nesting budget.
pub fn eval<'a, F: FloatArith>(jml: &'a Jml, arith: &F) -> (r: Result<JmlValue<'a>, EvalError>)
    ensures
        sem_expr(MAX_DEPTH as nat, jml.body, program_globals(Store::empty(), *jml), Seq::empty())
            matches Some((x, _)) ==> result_model(r) == x,
        r matches Err(e) ==> e.well_formed(),
{
    let mut ctx = Context::new();
    eval_with_ctx(jml, &mut ctx, arith)
}

} // verus!

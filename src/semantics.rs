//! The meaning of a program, as spec functions. `sem_expr(d, e, g, fr)` is the
//! outcome of evaluating `e` with nesting budget `d`, top-level store `g` and
//! local frames `fr`: `Some` of a value or of a located error, together with
//! the entries that `log` appends on the way, or `None` where the outcome
//! depends on the host's floating-point arithmetic.
use vstd::prelude::*;

use crate::ast::{BinaryOp, Expression, ExpressionKind, Identifier, Key, UnaryOp};
use crate::context::{resolve, store_put, BindingModel, Store};
use crate::errors::{span_of, Fault, Span};
use crate::jml_type::JmlType;
use crate::operators::{binary_model, host_computed, unary_model};
use crate::text::int_text;
use crate::value::{
    inserted, lookup_key, type_of_model, Builtin, BodyModel, Val,
};

verus! {

pub type Log = Seq<(Val, Val)>;

pub type Res = Result<Val, (Span, Fault)>;

pub type Outcome = Option<(Res, Log)>;

pub type ListOutcome = Option<(Result<Seq<Val>, (Span, Fault)>, Log)>;

/// An outcome reached without logging anything.
pub open spec fn done(r: Res) -> Outcome {
    Some((r, Seq::empty()))
}

/// The outcome `o`, reached after the entries `l` were logged.
pub open spec fn after(l: Log, o: Outcome) -> Outcome {
    match o {
        Some((r, l2)) => Some((r, l + l2)),
        None => None,
    }
}

/// `vals` followed by the values of `rest`, if `rest` succeeded, after the
/// entries `l` were logged.
pub open spec fn prepend(vals: Seq<Val>, l: Log, rest: ListOutcome) -> ListOutcome {
    match rest {
        Some((Ok(vs), l2)) => Some((Ok(vals + vs), l + l2)),
        Some((Err(err), l2)) => Some((Err(err), l + l2)),
        None => None,
    }
}

/// The message of the error given when the nesting budget runs out.
pub open spec fn depth_message() -> Seq<char> {
    seq!['n', 'e', 's', 't', 'i', 'n', 'g', ' ', 't', 'o', 'o', ' ', 'd', 'e', 'e', 'p']
}

pub open spec fn depth_fault() -> Fault {
    Fault::GenericError { message: depth_message() }
}

pub open spec fn expr_span(e: Expression) -> Span {
    span_of(e.l, e.r)
}

/// The number of arguments each builtin takes.
pub open spec fn builtin_arity(b: Builtin) -> nat {
    match b {
        Builtin::ReduceList => 3,
        Builtin::Pluck => 1,
        _ => 2,
    }
}

/// The local frame of a call: each parameter bound in turn to its argument.
pub open spec fn frame_of(params: Seq<Seq<char>>, args: Seq<Val>, n: nat) -> Store
    decreases n,
{
    if n == 0 {
        Store::empty()
    } else {
        store_put(
            frame_of(params, args, (n - 1) as nat),
            params[n - 1],
            BindingModel::Value(args[n - 1]),
        )
    }
}

/// The `{"key": k, "value": v}` objects of `pluck`, one per entry, in order.
pub open spec fn pluck_model(entries: Seq<(Seq<char>, Val)>) -> Seq<Val> {
    Seq::new(
        entries.len(),
        |i: int|
            Val::Object(
                seq![
                    (seq!['k', 'e', 'y'], Val::Str(entries[i].0)),
                    (seq!['v', 'a', 'l', 'u', 'e'], entries[i].1),
                ],
            ),
    )
}

pub open spec fn mismatch(span: Span, expected: Seq<JmlType>, found: Val) -> Res {
    Err((span, Fault::MismatchedTypes { expected, found: type_of_model(found) }))
}

/// Whether evaluating a node of this kind spends nesting budget: literals,
/// lambda expressions and variable references do not (a variable bound to an
/// expression spends it when that expression is evaluated).
pub open spec fn needs_budget(k: ExpressionKind) -> bool {
    !(k is Null || k is Float || k is Bool || k is Int || k is String || k is Variable || k is Lambda)
}

pub open spec fn sem_expr(d: nat, e: Expression, g: Store, fr: Seq<Store>) -> Outcome
    decreases d, 1nat, 0nat,
{
    let span = expr_span(e);
    if d == 0 && needs_budget(e.node) {
        done(Err((span, depth_fault())))
    } else {
        let d1 = (d - 1) as nat;
        match e.node {
            ExpressionKind::Null => done(Ok(Val::Null)),
            ExpressionKind::Float(x) => done(Ok(Val::Float(x))),
            ExpressionKind::Bool(b) => done(Ok(Val::Bool(b))),
            ExpressionKind::Int(i) => done(Ok(Val::Int(i))),
            ExpressionKind::String(s) => done(Ok(Val::Str(s@))),
            ExpressionKind::Variable(name) => sem_variable(d, span, name@, g, fr),
            ExpressionKind::List(es) => list_outcome(sem_list(d1, es@, 0, g, fr)),
            ExpressionKind::Object(entries) => sem_object(d1, entries@, 0, Seq::empty(), g, fr),
            ExpressionKind::IndexAccess { target, index } => sem_index(d1, *target, *index, g, fr),
            ExpressionKind::Selector { target, key } => sem_selector(d1, *target, key@, g, fr),
            ExpressionKind::UnaryOp { op, expr } => sem_unary(d1, span, op, *expr, g, fr),
            ExpressionKind::BinaryOp { op, lhs, rhs } => sem_binary(d1, span, op, *lhs, *rhs, g, fr),
            ExpressionKind::IfExpr { condition, then_branch, else_branch } => sem_if(
                d1,
                *condition,
                *then_branch,
                *else_branch,
                g,
                fr,
            ),
            ExpressionKind::Lambda { params, body } => done(Ok(lambda_model(params@, *body))),
            ExpressionKind::Apply { lambda, args } => sem_call(d1, span, *lambda, args@, g, fr),
        }
    }
}

/// A lambda expression's value: its parameter names and its body.
pub open spec fn lambda_model(params: Seq<Identifier>, body: Expression) -> Val {
    Val::Lambda {
        params: Seq::new(params.len(), |i: int| params[i].node@),
        body: BodyModel::Common(body),
    }
}

/// A list of values as one list value.
pub open spec fn list_outcome(o: ListOutcome) -> Outcome {
    match o {
        Some((Ok(vs), l)) => Some((Ok(Val::List(vs)), l)),
        Some((Err(err), l)) => Some((Err(err), l)),
        None => None,
    }
}

/// A variable: a value binding is the value; an expression binding is
/// evaluated afresh, spending one unit of budget; an unbound name is an error
/// at the reference.
pub open spec fn sem_variable(d: nat, span: Span, name: Seq<char>, g: Store, fr: Seq<Store>) -> Outcome
    decreases d, 0nat, 0nat,
{
    match resolve(g, fr, name) {
        Some(BindingModel::Value(v)) => done(Ok(v)),
        Some(BindingModel::Expression(x)) => if d == 0 {
            done(Err((span, depth_fault())))
        } else {
            sem_expr((d - 1) as nat, x, g, fr)
        },
        None => done(Err((span, Fault::UndefinedVariable { name }))),
    }
}

/// `target[index]`: the index is evaluated first and must be an integer,
/// else the target is not evaluated; a list gives its element and a string
/// its character, or `null` out of range.
pub open spec fn sem_index(d: nat, target: Expression, index: Expression, g: Store, fr: Seq<Store>) -> Outcome
    decreases d, 4nat, 0nat,
{
    match sem_expr(d, index, g, fr) {
        Some((Ok(Val::Int(i)), l1)) => after(
            l1,
            match sem_expr(d, target, g, fr) {
                Some((Ok(Val::List(items)), l2)) => Some(
                    (
                        Ok(
                            if 0 <= i < items.len() {
                                items[i as int]
                            } else {
                                Val::Null
                            },
                        ),
                        l2,
                    ),
                ),
                Some((Ok(Val::Str(s)), l2)) => Some(
                    (
                        Ok(
                            if 0 <= i < s.len() {
                                Val::Str(seq![s[i as int]])
                            } else {
                                Val::Null
                            },
                        ),
                        l2,
                    ),
                ),
                Some((Ok(other), l2)) => Some(
                    (mismatch(expr_span(target), seq![JmlType::List, JmlType::String], other), l2),
                ),
                other => other,
            },
        ),
        Some((Ok(other), l1)) => Some((mismatch(expr_span(index), seq![JmlType::Int], other), l1)),
        other => other,
    }
}

/// `target.key`: the target must be an object; a missing key gives `null`.
pub open spec fn sem_selector(d: nat, target: Expression, key: Seq<char>, g: Store, fr: Seq<Store>) -> Outcome
    decreases d, 4nat, 0nat,
{
    match sem_expr(d, target, g, fr) {
        Some((Ok(Val::Object(entries)), l)) => Some((Ok(lookup_key(entries, key)), l)),
        Some((Ok(other), l)) => Some(
            (mismatch(expr_span(target), seq![JmlType::List, JmlType::String], other), l),
        ),
        other => other,
    }
}

pub open spec fn sem_unary(d: nat, span: Span, op: UnaryOp, operand: Expression, g: Store, fr: Seq<Store>) -> Outcome
    decreases d, 4nat, 0nat,
{
    match sem_expr(d, operand, g, fr) {
        Some((Ok(v), l)) => match unary_model(op, v) {
            Ok(r) => Some((Ok(r), l)),
            Err(f) => Some((Err((span, f)), l)),
        },
        other => other,
    }
}

/// Both operands are evaluated, left first, before the operator applies; an
/// error in the left one stops before the right one.
pub open spec fn sem_binary(
    d: nat,
    span: Span,
    op: BinaryOp,
    lhs: Expression,
    rhs: Expression,
    g: Store,
    fr: Seq<Store>,
) -> Outcome
    decreases d, 4nat, 0nat,
{
    match sem_expr(d, lhs, g, fr) {
        Some((Ok(a), l1)) => after(
            l1,
            match sem_expr(d, rhs, g, fr) {
                Some((Ok(b), l2)) => if host_computed(op, a, b) {
                    None
                } else {
                    match binary_model(op, a, b) {
                        Ok(r) => Some((Ok(r), l2)),
                        Err(f) => Some((Err((span, f)), l2)),
                    }
                },
                other => other,
            },
        ),
        other => other,
    }
}

/// Where both operands of `lhs op rhs` evaluate and the host's arithmetic
/// computes the result, the entries the operands logged.
pub open spec fn host_binary(
    d: nat,
    op: BinaryOp,
    lhs: Expression,
    rhs: Expression,
    g: Store,
    fr: Seq<Store>,
) -> Option<Log> {
    match (sem_expr(d, lhs, g, fr), sem_expr(d, rhs, g, fr)) {
        (Some((Ok(a), l1)), Some((Ok(b), l2))) => if host_computed(op, a, b) {
            Some(l1 + l2)
        } else {
            None
        },
        _ => None,
    }
}

/// Where `e` is a binary operation whose result the host's arithmetic
/// computes: the operator and the entries its operands logged.
pub open spec fn host_expr(d: nat, e: Expression, g: Store, fr: Seq<Store>) -> Option<(BinaryOp, Log)> {
    match e.node {
        ExpressionKind::BinaryOp { op, lhs, rhs } => if d >= 1 {
            match host_binary((d - 1) as nat, op, *lhs, *rhs, g, fr) {
                Some(l) => Some((op, l)),
                None => None,
            }
        } else {
            None
        },
        _ => None,
    }
}

/// The condition must be a boolean; only the chosen branch is evaluated, and
/// neither when the condition is not a boolean.
pub open spec fn sem_if(
    d: nat,
    condition: Expression,
    then_branch: Expression,
    else_branch: Expression,
    g: Store,
    fr: Seq<Store>,
) -> Outcome
    decreases d, 4nat, 0nat,
{
    match sem_expr(d, condition, g, fr) {
        Some((Ok(Val::Bool(true)), l)) => after(l, sem_expr(d, then_branch, g, fr)),
        Some((Ok(Val::Bool(false)), l)) => after(l, sem_expr(d, else_branch, g, fr)),
        Some((Ok(other), l)) => Some((mismatch(expr_span(condition), seq![JmlType::Bool], other), l)),
        other => other,
    }
}

/// A call: the callee is evaluated and its arity checked before any argument
/// is evaluated; then the arguments, left to right; then the application.
pub open spec fn sem_call(d: nat, span: Span, callee: Expression, args: Seq<Expression>, g: Store, fr: Seq<Store>) -> Outcome
    decreases d, 4nat, 0nat,
{
    match sem_expr(d, callee, g, fr) {
        Some((Ok(f), l1)) => match f {
            Val::Lambda { params, .. } => if params.len() != args.len() {
                Some(
                    (
                        Err(
                            (
                                span,
                                Fault::ArgumentCountMismatch {
                                    expected_count: params.len() as usize,
                                    actual_count: args.len() as usize,
                                },
                            ),
                        ),
                        l1,
                    ),
                )
            } else {
                after(
                    l1,
                    match sem_list(d, args, 0, g, fr) {
                        Some((Ok(vals), l2)) => after(l2, sem_apply(d, span, f, vals, g, fr)),
                        Some((Err(err), l2)) => Some((Err(err), l2)),
                        None => None,
                    },
                )
            },
            _ => Some(
                (mismatch(span, seq![JmlType::Lambda { arity: args.len() as usize }], f), l1),
            ),
        },
        other => other,
    }
}

/// The values of `es[i..]`, evaluated left to right; the first error stops.
pub open spec fn sem_list(d: nat, es: Seq<Expression>, i: nat, g: Store, fr: Seq<Store>) -> ListOutcome
    decreases d, 2nat, es.len() - i,
{
    if i >= es.len() {
        Some((Ok(Seq::empty()), Seq::empty()))
    } else {
        match sem_expr(d, es[i as int], g, fr) {
            Some((Ok(v), l)) => prepend(seq![v], l, sem_list(d, es, i + 1, g, fr)),
            Some((Err(err), l)) => Some((Err(err), l)),
            None => None,
        }
    }
}

/// The object built from `entries[i..]` on top of `acc`: each value is
/// evaluated, then its key if computed; a computed key must be a string or
/// a number. The first error stops.
pub open spec fn sem_object(
    d: nat,
    entries: Seq<(Key, Expression)>,
    i: nat,
    acc: Seq<(Seq<char>, Val)>,
    g: Store,
    fr: Seq<Store>,
) -> Outcome
    decreases d, 2nat, entries.len() - i,
{
    if i >= entries.len() {
        done(Ok(Val::Object(acc)))
    } else {
        match sem_expr(d, entries[i as int].1, g, fr) {
            Some((Ok(v), l1)) => after(
                l1,
                match entries[i as int].0 {
                    Key::Ident(id) => sem_object(d, entries, i + 1, inserted(acc, id.node@, v), g, fr),
                    Key::Expression(kx) => match sem_expr(d, kx, g, fr) {
                        Some((Ok(Val::Str(k)), l2)) => after(
                            l2,
                            sem_object(d, entries, i + 1, inserted(acc, k, v), g, fr),
                        ),
                        Some((Ok(Val::Int(n)), l2)) => after(
                            l2,
                            sem_object(d, entries, i + 1, inserted(acc, int_text(n), v), g, fr),
                        ),
                        Some((Ok(Val::Float(_)), _)) => None,
                        Some((Ok(other), l2)) => Some(
                            (mismatch(expr_span(kx), seq![JmlType::String], other), l2),
                        ),
                        other => other,
                    },
                },
            ),
            other => other,
        }
    }
}

/// Applying a value to evaluated arguments. Neither a body nor a builtin runs
/// unless the value is a lambda of the right arity.
pub open spec fn sem_apply(d: nat, span: Span, f: Val, args: Seq<Val>, g: Store, fr: Seq<Store>) -> Outcome
    decreases d, 0nat, 0nat,
{
    if d == 0 {
        done(Err((span, depth_fault())))
    } else {
        let d1 = (d - 1) as nat;
        match f {
            Val::Lambda { params, body } => if params.len() != args.len() {
                done(
                    Err(
                        (
                            span,
                            Fault::ArgumentCountMismatch {
                                expected_count: params.len() as usize,
                                actual_count: args.len() as usize,
                            },
                        ),
                    ),
                )
            } else {
                match body {
                    BodyModel::Common(e) => sem_expr(
                        d1,
                        e,
                        g,
                        fr.push(frame_of(params, args, params.len())),
                    ),
                    BodyModel::Native(b) => sem_builtin(d1, span, b, args, g, fr),
                }
            },
            _ => done(mismatch(span, seq![JmlType::Lambda { arity: args.len() as usize }], f)),
        }
    }
}

/// A builtin on evaluated arguments. `log(label, value)` logs the pair once
/// and gives `value`.
pub open spec fn sem_builtin(d: nat, span: Span, b: Builtin, args: Seq<Val>, g: Store, fr: Seq<Store>) -> Outcome
    decreases d, 4nat, 0nat,
{
    if args.len() != builtin_arity(b) {
        done(
            Err(
                (
                    span,
                    Fault::ArgumentCountMismatch {
                        expected_count: builtin_arity(b) as usize,
                        actual_count: args.len() as usize,
                    },
                ),
            ),
        )
    } else {
        match b {
            Builtin::Log => Some((Ok(args[1]), seq![(args[0], args[1])])),
            Builtin::Pluck => match args[0] {
                Val::Object(entries) => done(Ok(Val::List(pluck_model(entries)))),
                other => done(mismatch(span, seq![JmlType::Object], other)),
            },
            _ => match args[0] {
                Val::List(items) => match b {
                    Builtin::MapList => list_outcome(sem_map(d, span, args[1], items, 0, g, fr)),
                    Builtin::FilterList => list_outcome(
                        sem_filter(d, span, args[1], items, 0, g, fr),
                    ),
                    _ => sem_reduce(d, span, args[2], items, 0, args[1], g, fr),
                },
                other => done(mismatch(span, seq![JmlType::List], other)),
            },
        }
    }
}

/// `f` applied to each of `items[i..]`, in order; the first error stops.
pub open spec fn sem_map(
    d: nat,
    span: Span,
    f: Val,
    items: Seq<Val>,
    i: nat,
    g: Store,
    fr: Seq<Store>,
) -> ListOutcome
    decreases d, 1nat, items.len() - i,
{
    if i >= items.len() {
        Some((Ok(Seq::empty()), Seq::empty()))
    } else {
        match sem_apply(d, span, f, seq![items[i as int]], g, fr) {
            Some((Ok(v), l)) => prepend(seq![v], l, sem_map(d, span, f, items, i + 1, g, fr)),
            Some((Err(err), l)) => Some((Err(err), l)),
            None => None,
        }
    }
}

/// The items of `items[i..]` for which `f` gives exactly `true`, in order.
pub open spec fn sem_filter(
    d: nat,
    span: Span,
    f: Val,
    items: Seq<Val>,
    i: nat,
    g: Store,
    fr: Seq<Store>,
) -> ListOutcome
    decreases d, 1nat, items.len() - i,
{
    if i >= items.len() {
        Some((Ok(Seq::empty()), Seq::empty()))
    } else {
        match sem_apply(d, span, f, seq![items[i as int]], g, fr) {
            Some((Ok(v), l)) => prepend(
                if v == Val::Bool(true) {
                    seq![items[i as int]]
                } else {
                    Seq::empty()
                },
                l,
                sem_filter(d, span, f, items, i + 1, g, fr),
            ),
            Some((Err(err), l)) => Some((Err(err), l)),
            None => None,
        }
    }
}

/// The left fold of `items[i..]` from `acc`, calling `f(item, acc)` once per
/// item; the first error stops.
pub open spec fn sem_reduce(
    d: nat,
    span: Span,
    f: Val,
    items: Seq<Val>,
    i: nat,
    acc: Val,
    g: Store,
    fr: Seq<Store>,
) -> Outcome
    decreases d, 1nat, items.len() - i,
{
    if i >= items.len() {
        done(Ok(acc))
    } else {
        match sem_apply(d, span, f, seq![items[i as int], acc], g, fr) {
            Some((Ok(v), l)) => after(l, sem_reduce(d, span, f, items, i + 1, v, g, fr)),
            other => other,
        }
    }
}

pub broadcast proof fn lemma_after_after(a: Log, b: Log, o: Outcome)
    ensures
        #[trigger] after(a, after(b, o)) == after(a + b, o),
{
}

pub proof fn lemma_after_empty(o: Outcome)
    ensures
        after(Seq::empty(), o) == o,
{
}

/// Appending logs is associative.
pub broadcast proof fn lemma_log_assoc(a: Log, b: Log, c: Log)
    ensures
        #[trigger] ((a + b) + c) == a + (b + c),
{
    assert((a + b) + c =~= a + (b + c));
}

pub broadcast proof fn lemma_log_empty(a: Log)
    ensures
        #[trigger] (a + Seq::<(Val, Val)>::empty()) == a,
        #[trigger] (Seq::<(Val, Val)>::empty() + a) == a,
{
    assert(a + Seq::<(Val, Val)>::empty() =~= a);
    assert(Seq::<(Val, Val)>::empty() + a =~= a);
}

} // verus!

//! The builtin functions: `log`, `map`, `filter`, `reduce` and `pluck`.
use vstd::prelude::*;

use crate::context::{preserved, store_put, BindingModel, Context, Store};
use crate::errors::{EvalError, Span, TypeError, TypeErrorKind};
use crate::semantics::lemma_after_empty;
use crate::expr::{result_model, agrees, lemma_prepend_empty, lemma_prepend_step, mismatched, one_type};
use crate::float::FloatArith;
use crate::jml_type::JmlType;
use crate::lambda::eval_lambda_application_with_evaluated_args;
use crate::semantics::{after, sem_apply, Log, list_outcome, pluck_model, prepend, sem_builtin, sem_filter, sem_map, sem_reduce};
use crate::text::owned;
use crate::value::{lemma_find_key_none, names_model, values_model, Builtin, BodyModel, JmlLambda, JmlObject, JmlValue, LambdaBody, Val};

verus! {

broadcast use {
    crate::context::lemma_preserved_trans,
    crate::context::lemma_preserved_refl,
    crate::semantics::lemma_log_assoc,
    crate::semantics::lemma_log_empty,
};

/// Runs builtin `b` on evaluated arguments, after checking their number.
pub fn call_builtin<'a, F: FloatArith>(
    span: Span,
    b: Builtin,
    args: Vec<JmlValue<'a>>,
    ctx: &mut Context<'a>,
    arith: &F,
    depth: usize,
) -> (r: Result<JmlValue<'a>, EvalError>)
    requires
        old(ctx).well_formed(),
    ensures
        preserved(*old(ctx), *final(ctx)),
        agrees(r, sem_builtin(depth as nat, span, b, values_model(args@), old(ctx).globals(), old(ctx).frames()), *old(ctx), *final(ctx)),
    decreases depth, 2nat, 0nat,
{
    let expected: usize = match b {
        Builtin::ReduceList => 3,
        Builtin::Pluck => 1,
        _ => 2,
    };
    if args.len() != expected {
        return Err(
            EvalError::TypeError(
                TypeError {
                    span,
                    kind: TypeErrorKind::ArgumentCountMismatch {
                        expected_count: expected,
                        actual_count: args.len(),
                    },
                },
            ),
        );
    }
    match b {
        Builtin::Log => log(span, args, ctx),
        Builtin::MapList => map(span, args, ctx, arith, depth),
        Builtin::FilterList => filter(span, args, ctx, arith, depth),
        Builtin::ReduceList => reduce(span, args, ctx, arith, depth),
        Builtin::Pluck => pluck(span, args),
    }
}

/// `log(label, value)`: records the pair in the context's log and returns
/// `value`.
pub fn log<'a>(span: Span, args: Vec<JmlValue<'a>>, ctx: &mut Context<'a>) -> (r: Result<
    JmlValue<'a>,
    EvalError,
>)
    requires
        old(ctx).well_formed(),
        args@.len() == 2,
    ensures
        r matches Ok(v) && v@ == args@[1]@,
        final(ctx).log_model() == old(ctx).log_model() + seq![(args@[0]@, args@[1]@)],
        preserved(*old(ctx), *final(ctx)),
{
    let value = args[1].clone();
    ctx.record_log(args[0].clone(), args[1].clone());
    assert(ctx.log_model().subrange(0, old(ctx).log_model().len() as int) =~= old(ctx).log_model());
    assert(ctx.log_model() =~= old(ctx).log_model() + seq![(args@[0]@, args@[1]@)]);
    Ok(value)
}

/// `map(list, f)`: `f` applied to each element, in order.
pub fn map<'a, F: FloatArith>(
    span: Span,
    args: Vec<JmlValue<'a>>,
    ctx: &mut Context<'a>,
    arith: &F,
    depth: usize,
) -> (r: Result<JmlValue<'a>, EvalError>)
    requires
        old(ctx).well_formed(),
        args@.len() == 2,
    ensures
        preserved(*old(ctx), *final(ctx)),
        agrees(
            r,
            sem_builtin(depth as nat, span, Builtin::MapList, values_model(args@), old(ctx).globals(), old(ctx).frames()), *old(ctx), *final(ctx)),
    decreases depth, 1nat, 0nat,
{
    let list = match &args[0] {
        JmlValue::List(l) => l,
        _ => {
            return Err(mismatched(span, one_type(JmlType::List), args[0].type_of()));
        },
    };
    let ghost g = ctx.globals();
    let ghost fr = ctx.frames();
    let ghost items = args@[0]@->List_0;
    let ghost whole = sem_map(depth as nat, span, args@[1]@, items, 0, g, fr);
    assert(values_model(args@)[0] == args@[0]@ && values_model(args@)[1] == args@[1]@);
    assert(sem_builtin(depth as nat, span, Builtin::MapList, values_model(args@), g, fr) == list_outcome(whole));
    assert(items =~= values_model(list.0@));
    let ghost log0 = ctx.log_model();
    let ghost mut dl: Log = Seq::empty();
    let mut mapped: Vec<JmlValue<'a>> = Vec::new();
    proof {
        lemma_prepend_empty(whole);
        assert(values_model(mapped@) =~= Seq::<Val>::empty());
    }
    let mut i: usize = 0;
    while i < list.0.len()
        invariant
            i <= list.0@.len(),
            args@[0] == JmlValue::List(*list),
            items == values_model(list.0@),
            preserved(*old(ctx), *ctx),
            g == old(ctx).globals(),
            fr == old(ctx).frames(),
            args@.len() == 2,
            sem_builtin(depth as nat, span, Builtin::MapList, values_model(args@), g, fr) == list_outcome(whole),
            whole == sem_map(depth as nat, span, args@[1]@, items, 0, g, fr),
            log0 == old(ctx).log_model(),
            whole is Some ==> whole == prepend(
                values_model(mapped@),
                dl,
                sem_map(depth as nat, span, args@[1]@, items, i as nat, g, fr),
            ),
            whole is Some ==> ctx.log_model() == log0 + dl,
        decreases list.0@.len() - i,
    {
        let elem = list.0[i].clone();
        let call_args = vec![elem];
        assert(values_model(call_args@) =~= seq![items[i as int]]);
        let ghost step = sem_apply(depth as nat, span, args@[1]@, seq![items[i as int]], g, fr);
        let v = eval_lambda_application_with_evaluated_args(
            span,
            args[1].clone(),
            call_args,
            ctx,
            arith,
            depth,
        )?;
        proof {
            if let Some((_, l)) = step {
                lemma_prepend_step(values_model(mapped@), dl, seq![v@], l, sem_map(depth as nat, span, args@[1]@, items, (i + 1) as nat, g, fr));
                dl = dl + l;
            }
        }
        let ghost before = values_model(mapped@);
        mapped.push(v);
        assert(values_model(mapped@) =~= before + seq![v@]);
        i = i + 1;
    }
    proof {
        if let Some((Ok(vs), _)) = whole {
            assert(values_model(mapped@) + Seq::<Val>::empty() =~= values_model(mapped@));
        }
    }
    Ok(JmlValue::list(mapped))
}

/// `filter(list, f)`: the elements for which `f` gives exactly `true`.
pub fn filter<'a, F: FloatArith>(
    span: Span,
    args: Vec<JmlValue<'a>>,
    ctx: &mut Context<'a>,
    arith: &F,
    depth: usize,
) -> (r: Result<JmlValue<'a>, EvalError>)
    requires
        old(ctx).well_formed(),
        args@.len() == 2,
    ensures
        preserved(*old(ctx), *final(ctx)),
        agrees(
            r,
            sem_builtin(depth as nat, span, Builtin::FilterList, values_model(args@), old(ctx).globals(), old(ctx).frames()), *old(ctx), *final(ctx)),
    decreases depth, 1nat, 0nat,
{
    let list = match &args[0] {
        JmlValue::List(l) => l,
        _ => {
            return Err(mismatched(span, one_type(JmlType::List), args[0].type_of()));
        },
    };
    let ghost g = ctx.globals();
    let ghost fr = ctx.frames();
    let ghost items = args@[0]@->List_0;
    let ghost whole = sem_filter(depth as nat, span, args@[1]@, items, 0, g, fr);
    assert(values_model(args@)[0] == args@[0]@ && values_model(args@)[1] == args@[1]@);
    assert(sem_builtin(depth as nat, span, Builtin::FilterList, values_model(args@), g, fr) == list_outcome(whole));
    assert(items =~= values_model(list.0@));
    let ghost log0 = ctx.log_model();
    let ghost mut dl: Log = Seq::empty();
    let mut kept: Vec<JmlValue<'a>> = Vec::new();
    proof {
        lemma_prepend_empty(whole);
        assert(values_model(kept@) =~= Seq::<Val>::empty());
    }
    let mut i: usize = 0;
    while i < list.0.len()
        invariant
            i <= list.0@.len(),
            args@[0] == JmlValue::List(*list),
            items == values_model(list.0@),
            preserved(*old(ctx), *ctx),
            g == old(ctx).globals(),
            fr == old(ctx).frames(),
            args@.len() == 2,
            sem_builtin(depth as nat, span, Builtin::FilterList, values_model(args@), g, fr) == list_outcome(whole),
            whole == sem_filter(depth as nat, span, args@[1]@, items, 0, g, fr),
            log0 == old(ctx).log_model(),
            whole is Some ==> whole == prepend(
                values_model(kept@),
                dl,
                sem_filter(depth as nat, span, args@[1]@, items, i as nat, g, fr),
            ),
            whole is Some ==> ctx.log_model() == log0 + dl,
        decreases list.0@.len() - i,
    {
        let elem = list.0[i].clone();
        let call_args = vec![elem];
        assert(values_model(call_args@) =~= seq![items[i as int]]);
        let ghost step = sem_apply(depth as nat, span, args@[1]@, seq![items[i as int]], g, fr);
        let v = eval_lambda_application_with_evaluated_args(
            span,
            args[1].clone(),
            call_args,
            ctx,
            arith,
            depth,
        )?;
        let keep = match v {
            JmlValue::Bool(b) => b.0,
            _ => false,
        };
        let ghost before = values_model(kept@);
        let ghost more = if keep {
            seq![items[i as int]]
        } else {
            Seq::<Val>::empty()
        };
        proof {
            if let Some((_, l)) = step {
                lemma_prepend_step(before, dl, more, l, sem_filter(depth as nat, span, args@[1]@, items, (i + 1) as nat, g, fr));
                dl = dl + l;
            }
        }
        if keep {
            kept.push(list.0[i].clone());
        }
        assert(values_model(kept@) =~= before + more);
        i = i + 1;
    }
    proof {
        if let Some((Ok(vs), _)) = whole {
            assert(values_model(kept@) + Seq::<Val>::empty() =~= values_model(kept@));
        }
    }
    Ok(JmlValue::list(kept))
}

/// `reduce(list, acc, f)`: folds the list from the left, calling
/// `f(element, accumulator)`.
pub fn reduce<'a, F: FloatArith>(
    span: Span,
    args: Vec<JmlValue<'a>>,
    ctx: &mut Context<'a>,
    arith: &F,
    depth: usize,
) -> (r: Result<JmlValue<'a>, EvalError>)
    requires
        old(ctx).well_formed(),
        args@.len() == 3,
    ensures
        preserved(*old(ctx), *final(ctx)),
        agrees(
            r,
            sem_builtin(depth as nat, span, Builtin::ReduceList, values_model(args@), old(ctx).globals(), old(ctx).frames()), *old(ctx), *final(ctx)),
    decreases depth, 1nat, 0nat,
{
    let list = match &args[0] {
        JmlValue::List(l) => l,
        _ => {
            return Err(mismatched(span, one_type(JmlType::List), args[0].type_of()));
        },
    };
    let ghost g = ctx.globals();
    let ghost fr = ctx.frames();
    let ghost items = args@[0]@->List_0;
    let ghost whole = sem_reduce(depth as nat, span, args@[2]@, items, 0, args@[1]@, g, fr);
    proof {
        lemma_after_empty(whole);
    }
    assert(values_model(args@)[0] == args@[0]@ && values_model(args@)[1] == args@[1]@ && values_model(args@)[2] == args@[2]@);
    assert(sem_builtin(depth as nat, span, Builtin::ReduceList, values_model(args@), g, fr) == whole);
    assert(items =~= values_model(list.0@));
    let ghost log0 = ctx.log_model();
    let ghost mut dl: Log = Seq::empty();
    let mut accumulator = args[1].clone();
    let mut i: usize = 0;
    while i < list.0.len()
        invariant
            i <= list.0@.len(),
            args@[0] == JmlValue::List(*list),
            items == values_model(list.0@),
            preserved(*old(ctx), *ctx),
            g == old(ctx).globals(),
            fr == old(ctx).frames(),
            args@.len() == 3,
            sem_builtin(depth as nat, span, Builtin::ReduceList, values_model(args@), g, fr) == whole,
            whole == sem_reduce(depth as nat, span, args@[2]@, items, 0, args@[1]@, g, fr),
            log0 == old(ctx).log_model(),
            whole is Some ==> whole == after(
                dl,
                sem_reduce(depth as nat, span, args@[2]@, items, i as nat, accumulator@, g, fr),
            ),
            whole is Some ==> ctx.log_model() == log0 + dl,
        decreases list.0@.len() - i,
    {
        let elem = list.0[i].clone();
        let ghost acc_model = accumulator@;
        let call_args = vec![elem, accumulator];
        assert(values_model(call_args@) =~= seq![items[i as int], acc_model]);
        let ghost step = sem_apply(depth as nat, span, args@[2]@, seq![items[i as int], acc_model], g, fr);
        accumulator = eval_lambda_application_with_evaluated_args(
            span,
            args[2].clone(),
            call_args,
            ctx,
            arith,
            depth,
        )?;
        proof {
            if let Some((_, l)) = step {
                dl = dl + l;
            }
        }
        i = i + 1;
    }
    Ok(accumulator)
}

/// `pluck(object)`: one `{"key": k, "value": v}` object per entry, in order.
pub fn pluck<'a>(span: Span, args: Vec<JmlValue<'a>>) -> (r: Result<JmlValue<'a>, EvalError>)
    requires
        args@.len() == 1,
    ensures
        sem_builtin(0, span, Builtin::Pluck, values_model(args@), Seq::empty(), Seq::empty()) == Some(
            (result_model(r), Seq::<(Val, Val)>::empty()),
        ),
        r matches Err(e) ==> e.well_formed(),
{
    let obj = match &args[0] {
        JmlValue::Object(o) => o,
        _ => {
            return Err(mismatched(span, one_type(JmlType::Object), args[0].type_of()));
        },
    };
    let ghost entries = args@[0]@->Object_0;
    assert(entries =~= obj.entries_model());
    let mut plucked: Vec<JmlValue<'a>> = Vec::new();
    let mut i: usize = 0;
    while i < obj.0.len()
        invariant
            i <= obj.0@.len(),
            entries == obj.entries_model(),
            plucked@.len() == i,
            forall|j: int| 0 <= j < i ==> (#[trigger] plucked@[j])@ == pluck_model(entries)[j],
        decreases obj.0@.len() - i,
    {
        let key_name = owned("key");
        let value_name = owned("value");
        proof {
            reveal_strlit("key");
            reveal_strlit("value");
            assert(key_name@ =~= seq!['k', 'e', 'y']);
            assert(value_name@ =~= seq!['v', 'a', 'l', 'u', 'e']);
        }
        let k = JmlValue::string(obj.0[i].0.clone());
        let v = obj.0[i].1.clone();
        let ghost km = k@;
        let ghost vm = v@;
        let mut pair = JmlObject::new();
        pair.insert(key_name, k);
        proof {
            lemma_find_key_none(Seq::empty(), seq!['k', 'e', 'y']);
            let one = seq![(seq!['k', 'e', 'y'], km)];
            assert(pair.entries_model() =~= one);
            assert(one[0].0 != seq!['v', 'a', 'l', 'u', 'e']);
            lemma_find_key_none(one, seq!['v', 'a', 'l', 'u', 'e']);
        }
        pair.insert(value_name, v);
        let ghost pm = pluck_model(entries)[i as int];
        assert(pair.entries_model() =~= pm->Object_0);
        plucked.push(JmlValue::object(pair));
        i = i + 1;
    }
    let r = JmlValue::list(plucked);
    assert(values_model(plucked@) =~= pluck_model(entries));
    Ok(r)
}

} // verus!

verus! {

pub open spec fn builtin_name(b: Builtin) -> Seq<char> {
    match b {
        Builtin::Log => seq!['l', 'o', 'g'],
        Builtin::MapList => seq!['m', 'a', 'p'],
        Builtin::FilterList => seq!['f', 'i', 'l', 't', 'e', 'r'],
        Builtin::ReduceList => seq!['r', 'e', 'd', 'u', 'c', 'e'],
        Builtin::Pluck => seq!['p', 'l', 'u', 'c', 'k'],
    }
}

pub open spec fn builtin_params(b: Builtin) -> Seq<Seq<char>> {
    match b {
        Builtin::Log => seq![seq!['m', 's', 'g'], seq!['t', 'o', '_', 'l', 'o', 'g']],
        Builtin::ReduceList => seq![
            seq!['l', 'i', 's', 't'],
            seq!['a', 'c', 'c'],
            seq!['l', 'a', 'm', 'b', 'd', 'a'],
        ],
        Builtin::Pluck => seq![seq!['o', 'b', 'j', 'e', 'c', 't']],
        _ => seq![seq!['l', 'i', 's', 't'], seq!['l', 'a', 'm', 'b', 'd', 'a']],
    }
}

/// The value a builtin's name is bound to.
pub open spec fn builtin_value(b: Builtin) -> Val {
    Val::Lambda { params: builtin_params(b), body: BodyModel::Native(b) }
}

pub open spec fn bind_builtin(g: Store, b: Builtin) -> Store {
    store_put(g, builtin_name(b), BindingModel::Value(builtin_value(b)))
}

/// The top-level store with the builtins bound, in this order.
pub open spec fn std_globals(g: Store) -> Store {
    bind_builtin(
        bind_builtin(
            bind_builtin(
                bind_builtin(bind_builtin(g, Builtin::Log), Builtin::MapList),
                Builtin::FilterList,
            ),
            Builtin::ReduceList,
        ),
        Builtin::Pluck,
    )
}

fn builtin_lambda<'a>(b: Builtin) -> (r: (String, JmlValue<'a>))
    ensures
        r.0@ == builtin_name(b),
        r.1@ == builtin_value(b),
{
    let mut params: Vec<String> = Vec::new();
    let name = match b {
        Builtin::Log => {
            proof {
                reveal_strlit("log");
                reveal_strlit("msg");
                reveal_strlit("to_log");
            }
            params.push(owned("msg"));
            assert(params@.last()@ =~= seq!['m', 's', 'g']);
            params.push(owned("to_log"));
            assert(params@.last()@ =~= seq!['t', 'o', '_', 'l', 'o', 'g']);
            owned("log")
        },
        Builtin::MapList => {
            proof {
                reveal_strlit("map");
                reveal_strlit("list");
                reveal_strlit("lambda");
            }
            params.push(owned("list"));
            assert(params@.last()@ =~= seq!['l', 'i', 's', 't']);
            params.push(owned("lambda"));
            assert(params@.last()@ =~= seq!['l', 'a', 'm', 'b', 'd', 'a']);
            owned("map")
        },
        Builtin::FilterList => {
            proof {
                reveal_strlit("filter");
                reveal_strlit("list");
                reveal_strlit("lambda");
            }
            params.push(owned("list"));
            assert(params@.last()@ =~= seq!['l', 'i', 's', 't']);
            params.push(owned("lambda"));
            assert(params@.last()@ =~= seq!['l', 'a', 'm', 'b', 'd', 'a']);
            owned("filter")
        },
        Builtin::ReduceList => {
            proof {
                reveal_strlit("reduce");
                reveal_strlit("list");
                reveal_strlit("acc");
                reveal_strlit("lambda");
            }
            params.push(owned("list"));
            assert(params@.last()@ =~= seq!['l', 'i', 's', 't']);
            params.push(owned("acc"));
            assert(params@.last()@ =~= seq!['a', 'c', 'c']);
            params.push(owned("lambda"));
            assert(params@.last()@ =~= seq!['l', 'a', 'm', 'b', 'd', 'a']);
            owned("reduce")
        },
        Builtin::Pluck => {
            proof {
                reveal_strlit("pluck");
                reveal_strlit("object");
            }
            params.push(owned("object"));
            assert(params@.last()@ =~= seq!['o', 'b', 'j', 'e', 'c', 't']);
            owned("pluck")
        },
    };
    assert(name@ =~= builtin_name(b));
    assert(names_model(params@) =~= builtin_params(b));
    (name, JmlValue::Lambda(JmlLambda { params, body: LambdaBody::Native(b) }))
}

/// Binds `log`, `map`, `filter`, `reduce` and `pluck` at the top level.
pub fn define_std_lib(ctx: &mut Context)
    requires
        old(ctx).well_formed(),
    ensures
        final(ctx).well_formed(),
        final(ctx).globals() == std_globals(old(ctx).globals()),
        final(ctx).frames() == old(ctx).frames(),
        final(ctx).log_model() == old(ctx).log_model(),
{
    let (n, v) = builtin_lambda(Builtin::Log);
    ctx.bind_with_value(n, v);
    let (n, v) = builtin_lambda(Builtin::MapList);
    ctx.bind_with_value(n, v);
    let (n, v) = builtin_lambda(Builtin::FilterList);
    ctx.bind_with_value(n, v);
    let (n, v) = builtin_lambda(Builtin::ReduceList);
    ctx.bind_with_value(n, v);
    let (n, v) = builtin_lambda(Builtin::Pluck);
    ctx.bind_with_value(n, v);
}

} // verus!

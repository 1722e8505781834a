use crate::ast::{EvalErr, ExprV, car_v, cdr_v, is_form, is_self_v, make_lambda_v};
use crate::env::{
    EnvV, bindable_v, bindings_of_v, define_v, env_wf, extend_v, frame_lookup_v, lemma_define_wf,
    lookup_from_v, lookup_v,
};
use crate::eval::{bind_args_v, bind_params_v, eval_exp_v};
use vstd::prelude::*;

verus! {

/// A self-evaluating expression evaluates to itself, in every
/// environment, leaving the environment unchanged.
pub proof fn lemma_eval_self(env: EnvV, e: ExprV, fuel: nat)
    requires
        is_self_v(e),
        fuel > 0,
    ensures
        eval_exp_v(env, e, fuel) == (env, Ok::<ExprV, EvalErr>(e)),
{
}

/// A definition is immediately visible: binding a name in the active
/// frame makes lookup return exactly the bound value.
pub proof fn lemma_define_lookup(env: EnvV, name: Seq<char>, val: ExprV)
    requires
        env_wf(env),
    ensures
        lookup_v(define_v(env, name, val), name) == Some(val),
{
    let env2 = define_v(env, name, val);
    assert(env2.frames[env2.active as int].table.last() == (crate::env::BindingV {
        name,
        val,
    }));
}

/// A second definition of the same name overwrites the first: the
/// last write wins.
pub proof fn lemma_define_overwrites(env: EnvV, name: Seq<char>, v1: ExprV, v2: ExprV)
    requires
        env_wf(env),
        crate::env::expr_wf(v1, env.frames.len()),
    ensures
        lookup_v(define_v(define_v(env, name, v1), name, v2), name) == Some(v2),
{
    lemma_define_wf(env, name, v1);
    lemma_define_lookup(define_v(env, name, v1), name, v2);
}

/// A lookup that misses in one frame's own table defers to the
/// frame's ancestor chain, and fails only where the whole chain has no
/// binding.
pub proof fn lemma_lookup_defers(env: EnvV, h: nat, name: Seq<char>)
    requires
        env_wf(env),
        h < env.frames.len(),
        frame_lookup_v(env.frames[h as int].table, name) is None,
    ensures
        match env.frames[h as int].parent {
            Some(p) => lookup_from_v(env, h, name) == lookup_from_v(env, p, name),
            None => lookup_from_v(env, h, name) is None,
        },
{
}

/// Appending a frame to the arena changes no lookup through the
/// frames that were already there.
proof fn lemma_lookup_prefix(env: EnvV, env2: EnvV, h: nat, name: Seq<char>)
    requires
        env_wf(env),
        h < env.frames.len(),
        env2.frames.len() == env.frames.len() + 1,
        forall|i: int| 0 <= i < env.frames.len() ==> env2.frames[i] == env.frames[i],
    ensures
        lookup_from_v(env2, h, name) == lookup_from_v(env, h, name),
    decreases h,
{
    match env.frames[h as int].parent {
        Some(p) => {
            if p < h {
                lemma_lookup_prefix(env, env2, p, name);
            }
        },
        None => {},
    }
}

/// In a child frame built by pairing formals with arguments, a name
/// bound by none of the formals is looked up in the ancestor chain:
/// the chain of the frame the child extends.  In particular, where
/// that chain has no binding either, the lookup fails.
pub proof fn lemma_child_defers_to_ancestors(
    env: EnvV,
    base: nat,
    vars: ExprV,
    vals: ExprV,
    name: Seq<char>,
)
    requires
        env_wf(env),
        base < env.frames.len(),
        bindable_v(vars, vals),
        frame_lookup_v(bindings_of_v(vars, vals), name) is None,
    ensures
        lookup_from_v(extend_v(env, base, vars, vals), env.frames.len(), name) == lookup_from_v(
            env,
            base,
            name,
        ),
{
    let env2 = extend_v(env, base, vars, vals);
    let newh = env.frames.len();
    assert(env2.frames[newh as int].table == bindings_of_v(vars, vals));
    assert(env2.frames[newh as int].parent == Some(base));
    lemma_lookup_prefix(env, env2, base, name);
}

/// A symbol with no binding anywhere along the chain evaluates to the
/// unbound-variable error, leaving the environment unchanged.
pub proof fn lemma_unbound_symbol(env: EnvV, s: Seq<char>, fuel: nat)
    requires
        fuel > 0,
        lookup_v(env, s) is None,
    ensures
        eval_exp_v(env, ExprV::Sym(s), fuel) == (env, Err::<ExprV, EvalErr>(
            EvalErr::UnboundVariable,
        )),
{
}

/// The expression `(if #t a b)`.
pub open spec fn if_true_form(a: ExprV, b: ExprV) -> ExprV {
    ExprV::Pair(
        Box::new(ExprV::Sym("if"@)),
        Box::new(
            ExprV::Pair(
                Box::new(ExprV::Bool(true)),
                Box::new(
                    ExprV::Pair(Box::new(a), Box::new(ExprV::Pair(Box::new(b), Box::new(ExprV::Nil)))),
                ),
            ),
        ),
    )
}

/// The expression `(if #f a b)`.
pub open spec fn if_false_form(a: ExprV, b: ExprV) -> ExprV {
    ExprV::Pair(
        Box::new(ExprV::Sym("if"@)),
        Box::new(
            ExprV::Pair(
                Box::new(ExprV::Bool(false)),
                Box::new(
                    ExprV::Pair(Box::new(a), Box::new(ExprV::Pair(Box::new(b), Box::new(ExprV::Nil)))),
                ),
            ),
        ),
    )
}

/// The expression `(if '() a)`, with no alternative.
pub open spec fn if_nil_form(a: ExprV) -> ExprV {
    ExprV::Pair(
        Box::new(ExprV::Sym("if"@)),
        Box::new(
            ExprV::Pair(
                Box::new(
                    ExprV::Pair(
                        Box::new(ExprV::Sym("quote"@)),
                        Box::new(ExprV::Pair(Box::new(ExprV::Nil), Box::new(ExprV::Nil))),
                    ),
                ),
                Box::new(ExprV::Pair(Box::new(a), Box::new(ExprV::Nil))),
            ),
        ),
    )
}

/// The head symbol `if` is none of the head symbols tried before it,
/// so the dispatcher reaches the conditional branch.
proof fn lemma_if_head_distinct()
    ensures
        ExprV::Sym("if"@) != ExprV::Sym("quote"@),
        ExprV::Sym("if"@) != ExprV::Sym("set!"@),
        ExprV::Sym("if"@) != ExprV::Sym("define"@),
        ExprV::Sym("if"@) != ExprV::Sym("begin"@),
{
    reveal_strlit("if");
    reveal_strlit("quote");
    reveal_strlit("set!");
    reveal_strlit("define");
    reveal_strlit("begin");
    assert(("if"@).len() == 2);
    assert(("quote"@).len() == 5);
    assert(("set!"@).len() == 4);
    assert(("define"@).len() == 6);
    assert(("begin"@).len() == 5);
}

/// `(if #t a b)` evaluates to what `a` evaluates to, for every `a`
/// and `b`, with one step of the budget spent on the form.
pub proof fn lemma_if_true(env: EnvV, a: ExprV, b: ExprV, fuel: nat)
    requires
        fuel >= 2,
    ensures
        eval_exp_v(env, if_true_form(a, b), fuel) == eval_exp_v(env, a, (fuel - 1) as nat),
{
    lemma_if_head_distinct();
    lemma_eval_self(env, ExprV::Bool(true), (fuel - 1) as nat);
}

/// `(if #f a b)` evaluates to what `b` evaluates to, for every `a`
/// and `b`.
pub proof fn lemma_if_false(env: EnvV, a: ExprV, b: ExprV, fuel: nat)
    requires
        fuel >= 2,
    ensures
        eval_exp_v(env, if_false_form(a, b), fuel) == eval_exp_v(env, b, (fuel - 1) as nat),
{
    lemma_if_head_distinct();
    lemma_eval_self(env, ExprV::Bool(false), (fuel - 1) as nat);
}

/// `(if '() a)` evaluates to `#f` for every `a`: the empty list as a
/// predicate counts as false, and the consequent is not touched.
pub proof fn lemma_if_nil(env: EnvV, a: ExprV, fuel: nat)
    requires
        fuel >= 2,
    ensures
        eval_exp_v(env, if_nil_form(a), fuel) == (env, Ok::<ExprV, EvalErr>(ExprV::Bool(false))),
{
    lemma_if_head_distinct();
    let pred = ExprV::Pair(
        Box::new(ExprV::Sym("quote"@)),
        Box::new(ExprV::Pair(Box::new(ExprV::Nil), Box::new(ExprV::Nil))),
    );
    assert(eval_exp_v(env, pred, (fuel - 1) as nat) == (env, Ok::<ExprV, EvalErr>(ExprV::Nil)));
}

/// A `let` form is purely a syntactic transform: it evaluates exactly
/// as the immediate application of a lambda over its binding names to
/// its binding values, so `let`-bound variables use the same closure
/// machinery as every other binding.
pub proof fn lemma_let_desugars(env: EnvV, exp: ExprV, params: ExprV, args: ExprV, fuel: nat)
    requires
        fuel >= 1,
        is_form(exp, "let"@),
        cdr_v(exp) is Pair,
        bind_params_v(car_v(cdr_v(exp))) == Ok::<ExprV, EvalErr>(params),
        bind_args_v(car_v(cdr_v(exp))) == Ok::<ExprV, EvalErr>(args),
    ensures
        eval_exp_v(env, exp, fuel) == eval_exp_v(
            env,
            ExprV::Pair(
                Box::new(make_lambda_v(params, cdr_v(cdr_v(exp)))),
                Box::new(args),
            ),
            (fuel - 1) as nat,
        ),
{
    reveal_strlit("let");
    reveal_strlit("quote");
    reveal_strlit("set!");
    reveal_strlit("define");
    reveal_strlit("begin");
    reveal_strlit("if");
    reveal_strlit("lambda");
    reveal_strlit("and");
    reveal_strlit("or");
    reveal_strlit("cond");
    assert(("let"@).len() == 3);
    assert(("quote"@).len() == 5);
    assert(("set!"@).len() == 4);
    assert(("define"@).len() == 6);
    assert(("begin"@).len() == 5);
    assert(("if"@).len() == 2);
    assert(("lambda"@).len() == 6);
    assert(("and"@)[0] == 'a');
    assert(("let"@)[0] == 'l');
    assert(("or"@).len() == 2);
    assert(("cond"@).len() == 4);
}

} // verus!

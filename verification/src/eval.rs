use crate::ast::{
    EvalErr, Expr, ExprV, car_v, cdr_v, def_form_ok_v, def_val_v, def_var_v, expr_eq, is_form,
    is_self_v, make_lambda_v, res_v, text_v,
};
use crate::env::{
    Env, EnvV, apply_builtin, apply_builtin_v, bindable_v, define_v, env_wf, expr_wf, extend_v,
    initial_env_v, lemma_apply_builtin_wf, lemma_closed_wf, lemma_expr_wf_mono, lemma_lookup_wf,
    lookup_v,
};
use crate::parser::{Parser, parser_wf};
use vstd::prelude::*;

verus! {

// ---------------------------------------------------------------------
// The meaning of evaluation, as one spec function per dispatch branch.
// Every function takes the whole environment arena and threads it
// through, since defining and calling closures change it; `fuel`
// bounds the nesting depth of the recursion, and runs out as the
// `OutOfFuel` error.
// ---------------------------------------------------------------------

/// What one `set!` form does: evaluate the value expression, then bind
/// the name in the active frame; the result is the sentinel symbol.
pub open spec fn eval_assign_v(env: EnvV, exp: ExprV, fuel: nat) -> (EnvV, Result<
    ExprV,
    EvalErr,
>)
    recommends
        fuel > 0,
    decreases fuel, exp, 1nat,
{
    if fuel == 0 {
        (env, Err(EvalErr::OutOfFuel))
    } else {
        if cdr_v(exp) is Pair && cdr_v(cdr_v(exp)) is Pair {
            let var = car_v(cdr_v(exp));
            let vale = car_v(cdr_v(cdr_v(exp)));
            let (env1, r) = eval_exp_v(env, vale, (fuel - 1) as nat);
            match r {
                Ok(val) => if var is Sym || var is Str {
                    (define_v(env1, text_v(var), val), Ok(ExprV::Sym("OK"@)))
                } else {
                    (env1, Err(EvalErr::TypeMismatch))
                },
                Err(e) => (env1, Err(e)),
            }
        } else {
            (env, Err(EvalErr::MalformedForm))
        }
    }
}

/// What one `define` form does: for `(define var val)` bind `var` to
/// the value of `val`; for `(define (fn params...) body...)` bind `fn`
/// to a lambda over the parameters and body.
pub open spec fn eval_def_v(env: EnvV, exp: ExprV, fuel: nat) -> (EnvV, Result<ExprV, EvalErr>)
    recommends
        fuel > 0,
    decreases fuel, exp, 1nat,
{
    if fuel == 0 {
        (env, Err(EvalErr::OutOfFuel))
    } else {
        if def_form_ok_v(exp) {
            let var = def_var_v(exp);
            let vale = def_val_v(exp);
            let (env1, r) = eval_exp_v(env, vale, (fuel - 1) as nat);
            match r {
                Ok(val) => if var is Sym || var is Str {
                    (define_v(env1, text_v(var), val), Ok(ExprV::Sym("OK"@)))
                } else {
                    (env1, Err(EvalErr::TypeMismatch))
                },
                Err(e) => (env1, Err(e)),
            }
        } else {
            (env, Err(EvalErr::MalformedForm))
        }
    }
}

/// What one `if` form does: the predicate decides; boolean truth takes
/// the consequent, the empty list counts as false, boolean falsehood
/// takes the alternative (which must then be present), and any other
/// predicate value is a type mismatch.
pub open spec fn eval_if_v(env: EnvV, exp: ExprV, fuel: nat) -> (EnvV, Result<ExprV, EvalErr>)
    recommends
        fuel > 0,
    decreases fuel, exp, 1nat,
{
    if fuel == 0 {
        (env, Err(EvalErr::OutOfFuel))
    } else {
        if cdr_v(exp) is Pair && cdr_v(cdr_v(exp)) is Pair {
            let pred = car_v(cdr_v(exp));
            let blk_t = car_v(cdr_v(cdr_v(exp)));
            let blk_f = cdr_v(cdr_v(cdr_v(exp)));
            let (env1, r) = eval_exp_v(env, pred, (fuel - 1) as nat);
            match r {
                Ok(res) => if res == ExprV::Bool(true) {
                    eval_exp_v(env1, blk_t, (fuel - 1) as nat)
                } else if res is Nil {
                    (env1, Ok(ExprV::Bool(false)))
                } else if res == ExprV::Bool(false) {
                    if blk_f is Pair {
                        eval_exp_v(env1, car_v(blk_f), (fuel - 1) as nat)
                    } else {
                        (env1, Err(EvalErr::MalformedForm))
                    }
                } else {
                    (env1, Err(EvalErr::TypeMismatch))
                },
                Err(e) => (env1, Err(e)),
            }
        } else {
            (env, Err(EvalErr::MalformedForm))
        }
    }
}

/// What one `lambda` form does: build a closure over the formal list,
/// the body, and the active frame, which it captures.
pub open spec fn eval_lambda_v(env: EnvV, exp: ExprV) -> (EnvV, Result<ExprV, EvalErr>) {
    if cdr_v(exp) is Pair {
        (
            env,
            Ok(
                ExprV::CompProc(
                    Box::new(car_v(cdr_v(exp))),
                    Box::new(cdr_v(cdr_v(exp))),
                    env.active,
                ),
            ),
        )
    } else {
        (env, Err(EvalErr::MalformedForm))
    }
}

/// What an `and` operand list does: operands are evaluated left to
/// right; the first false operand ends the walk with `#f`, the last
/// operand's value is the result, and an empty list yields `#t`.
pub open spec fn eval_and_v(env: EnvV, list: ExprV, fuel: nat) -> (EnvV, Result<ExprV, EvalErr>)
    recommends
        fuel > 0,
    decreases fuel, list, 1nat,
{
    if fuel == 0 {
        (env, Err(EvalErr::OutOfFuel))
    } else {
        match list {
            ExprV::Nil => (env, Ok(ExprV::Bool(true))),
            ExprV::Pair(x, d) => if *d is Nil {
                eval_exp_v(env, *x, (fuel - 1) as nat)
            } else {
                let (env1, r) = eval_exp_v(env, *x, (fuel - 1) as nat);
                match r {
                    Ok(v) => if v == ExprV::Bool(false) {
                        (env1, Ok(ExprV::Bool(false)))
                    } else if v == ExprV::Bool(true) {
                        eval_and_v(env1, *d, fuel)
                    } else {
                        (env1, Err(EvalErr::TypeMismatch))
                    },
                    Err(e) => (env1, Err(e)),
                }
            },
            _ => (env, Err(EvalErr::MalformedForm)),
        }
    }
}

/// What an `or` operand list does: the first true operand ends the
/// walk with `#t`, the last operand's value is the result, and an
/// empty list yields `#t`.
pub open spec fn eval_or_v(env: EnvV, list: ExprV, fuel: nat) -> (EnvV, Result<ExprV, EvalErr>)
    recommends
        fuel > 0,
    decreases fuel, list, 1nat,
{
    if fuel == 0 {
        (env, Err(EvalErr::OutOfFuel))
    } else {
        match list {
            ExprV::Nil => (env, Ok(ExprV::Bool(true))),
            ExprV::Pair(x, d) => if *d is Nil {
                eval_exp_v(env, *x, (fuel - 1) as nat)
            } else {
                let (env1, r) = eval_exp_v(env, *x, (fuel - 1) as nat);
                match r {
                    Ok(v) => if v == ExprV::Bool(true) {
                        (env1, Ok(ExprV::Bool(true)))
                    } else if v == ExprV::Bool(false) {
                        eval_or_v(env1, *d, fuel)
                    } else {
                        (env1, Err(EvalErr::TypeMismatch))
                    },
                    Err(e) => (env1, Err(e)),
                }
            },
            _ => (env, Err(EvalErr::MalformedForm)),
        }
    }
}

/// What a `cond` clause list does: clauses are scanned in order; a
/// clause whose test is literally `else`, or whose test evaluates to
/// boolean truth, has its consequent evaluated; a false or empty test
/// value moves to the next clause; no matching clause yields `#t`.
pub open spec fn eval_cond_v(env: EnvV, clauses: ExprV, fuel: nat) -> (EnvV, Result<
    ExprV,
    EvalErr,
>)
    recommends
        fuel > 0,
    decreases fuel, clauses, 1nat,
{
    if fuel == 0 {
        (env, Err(EvalErr::OutOfFuel))
    } else {
        match clauses {
            ExprV::Nil => (env, Ok(ExprV::Bool(true))),
            ExprV::Pair(clause, rest) => if *clause is Pair {
                let test = car_v(*clause);
                if test == ExprV::Sym("else"@) {
                    if cdr_v(*clause) is Pair {
                        eval_exp_v(env, car_v(cdr_v(*clause)), (fuel - 1) as nat)
                    } else {
                        (env, Err(EvalErr::MalformedForm))
                    }
                } else {
                    let (env1, r) = eval_exp_v(env, test, (fuel - 1) as nat);
                    match r {
                        Ok(v) => if v == ExprV::Bool(true) {
                            if cdr_v(*clause) is Pair {
                                eval_exp_v(env1, car_v(cdr_v(*clause)), (fuel - 1) as nat)
                            } else {
                                (env1, Err(EvalErr::MalformedForm))
                            }
                        } else if v == ExprV::Bool(false) || v is Nil {
                            eval_cond_v(env1, *rest, fuel)
                        } else {
                            (env1, Err(EvalErr::TypeMismatch))
                        },
                        Err(e) => (env1, Err(e)),
                    }
                }
            } else {
                (env, Err(EvalErr::MalformedForm))
            },
            _ => (env, Err(EvalErr::MalformedForm)),
        }
    }
}

/// The formal-parameter list that a `let` binding list desugars to:
/// the name of each binding.
pub open spec fn bind_params_v(b: ExprV) -> Result<ExprV, EvalErr>
    decreases b,
{
    match b {
        ExprV::Nil => Ok(ExprV::Nil),
        ExprV::Pair(c, rest) => match *c {
            ExprV::Pair(n, _) => match bind_params_v(*rest) {
                Ok(t) => Ok(ExprV::Pair(n, Box::new(t))),
                Err(e) => Err(e),
            },
            _ => Err(EvalErr::MalformedForm),
        },
        _ => Err(EvalErr::MalformedForm),
    }
}

/// The argument list that a `let` binding list desugars to: the value
/// expression of each binding.
pub open spec fn bind_args_v(b: ExprV) -> Result<ExprV, EvalErr>
    decreases b,
{
    match b {
        ExprV::Nil => Ok(ExprV::Nil),
        ExprV::Pair(c, rest) => match *c {
            ExprV::Pair(_, d) => match *d {
                ExprV::Pair(v, _) => match bind_args_v(*rest) {
                    Ok(t) => Ok(ExprV::Pair(v, Box::new(t))),
                    Err(e) => Err(e),
                },
                _ => Err(EvalErr::MalformedForm),
            },
            _ => Err(EvalErr::MalformedForm),
        },
        _ => Err(EvalErr::MalformedForm),
    }
}

/// What one `let` form does: purely a syntactic transform into an
/// immediate lambda application, re-dispatched whole.
pub open spec fn eval_let_v(env: EnvV, exp: ExprV, fuel: nat) -> (EnvV, Result<ExprV, EvalErr>)
    recommends
        fuel > 0,
    decreases fuel, exp, 1nat,
{
    if fuel == 0 {
        (env, Err(EvalErr::OutOfFuel))
    } else {
        if cdr_v(exp) is Pair {
            let bindings = car_v(cdr_v(exp));
            let body = cdr_v(cdr_v(exp));
            match bind_params_v(bindings) {
                Ok(params) => match bind_args_v(bindings) {
                    Ok(args) => eval_exp_v(
                        env,
                        ExprV::Pair(Box::new(make_lambda_v(params, body)), Box::new(args)),
                        (fuel - 1) as nat,
                    ),
                    Err(e) => (env, Err(e)),
                },
                Err(e) => (env, Err(e)),
            }
        } else {
            (env, Err(EvalErr::MalformedForm))
        }
    }
}

/// What a `begin` body list does: each expression is evaluated in
/// order and the last one's value is the result.
pub open spec fn eval_begin_v(env: EnvV, list: ExprV, fuel: nat) -> (EnvV, Result<ExprV, EvalErr>)
    recommends
        fuel > 0,
    decreases fuel, list, 1nat,
{
    if fuel == 0 {
        (env, Err(EvalErr::OutOfFuel))
    } else {
        match list {
            ExprV::Pair(x, d) => if *d is Nil {
                eval_exp_v(env, *x, (fuel - 1) as nat)
            } else {
                let (env1, r) = eval_exp_v(env, *x, (fuel - 1) as nat);
                match r {
                    Ok(_) => eval_begin_v(env1, *d, fuel),
                    Err(e) => (env1, Err(e)),
                }
            },
            _ => (env, Err(EvalErr::MalformedForm)),
        }
    }
}

/// What evaluating an operand list does: a structural map over the
/// chain, strictly left to right, preserving list shape.
pub open spec fn eval_values_v(env: EnvV, list: ExprV, fuel: nat) -> (EnvV, Result<ExprV, EvalErr>)
    recommends
        fuel > 0,
    decreases fuel, list, 1nat,
{
    if fuel == 0 {
        (env, Err(EvalErr::OutOfFuel))
    } else {
        match list {
            ExprV::Nil => (env, Ok(ExprV::Nil)),
            ExprV::Pair(x, d) => {
                let (env1, r) = eval_exp_v(env, *x, (fuel - 1) as nat);
                match r {
                    Ok(v) => {
                        let (env2, r2) = eval_values_v(env1, *d, fuel);
                        match r2 {
                            Ok(vs) => (env2, Ok(ExprV::Pair(Box::new(v), Box::new(vs)))),
                            Err(e) => (env2, Err(e)),
                        }
                    },
                    Err(e) => (env1, Err(e)),
                }
            },
            _ => (env, Err(EvalErr::MalformedForm)),
        }
    }
}

/// Which error, if any, stops a closure's formals being bound to its
/// arguments: a formal that is not a name, lists of unequal length, or
/// a formal list that is not a list at all.
pub open spec fn bind_err_v(vars: ExprV, vals: ExprV) -> Option<EvalErr>
    decreases vars,
{
    match vars {
        ExprV::Nil => if vals is Nil {
            None
        } else {
            Some(EvalErr::ArityMismatch)
        },
        ExprV::Pair(n, vr) => if !(*n is Sym || *n is Str) {
            Some(EvalErr::TypeMismatch)
        } else {
            match vals {
                ExprV::Pair(_, lr) => bind_err_v(*vr, *lr),
                _ => Some(EvalErr::ArityMismatch),
            }
        },
        _ => Some(EvalErr::MalformedForm),
    }
}

/// What an application does: evaluate the operator, evaluate the
/// operands left to right, then invoke: a native procedure directly on
/// the value list; a closure by extending its captured frame with the
/// parameters bound to the arguments, evaluating the body as an
/// implicit `begin` there, and restoring the caller's active frame.
pub open spec fn eval_app_v(env: EnvV, exp: ExprV, fuel: nat) -> (EnvV, Result<ExprV, EvalErr>)
    recommends
        fuel > 0,
    decreases fuel, exp, 1nat,
{
    if fuel == 0 {
        (env, Err(EvalErr::OutOfFuel))
    } else {
        match exp {
            ExprV::Pair(f, rest) => {
                let (env1, rf) = eval_exp_v(env, *f, (fuel - 1) as nat);
                match rf {
                    Ok(p) => {
                        let (env2, ra) = eval_values_v(env1, *rest, fuel);
                        match ra {
                            Ok(args) => match p {
                                ExprV::Proc(b) => (env2, apply_builtin_v(b, args)),
                                ExprV::CompProc(params, body, h) => match bind_err_v(*params, args) {
                                    Some(e) => (env2, Err(e)),
                                    None => {
                                        let newh = env2.frames.len();
                                        let env3 = EnvV {
                                            frames: extend_v(env2, h, *params, args).frames,
                                            active: newh,
                                        };
                                        let (env4, rb) = eval_exp_v(
                                            env3,
                                            ExprV::Pair(Box::new(ExprV::Sym("begin"@)), body),
                                            (fuel - 1) as nat,
                                        );
                                        (EnvV { frames: env4.frames, active: env2.active }, rb)
                                    },
                                },
                                _ => (env2, Err(EvalErr::TypeMismatch)),
                            },
                            Err(e) => (env2, Err(e)),
                        }
                    },
                    Err(e) => (env1, Err(e)),
                }
            },
            _ => (env, Err(EvalErr::MalformedForm)),
        }
    }
}

/// The dispatcher: what evaluating one expression in one environment
/// yields, and the environment it leaves behind.  Branches are tried
/// in order: self-evaluating, symbol lookup, each special form by its
/// head symbol, then application; the empty list cannot be evaluated,
/// and any remaining value yields the sentinel symbol.
pub open spec fn eval_exp_v(env: EnvV, exp: ExprV, fuel: nat) -> (EnvV, Result<ExprV, EvalErr>)
    decreases fuel, exp, 2nat,
{
    if fuel == 0 {
        (env, Err(EvalErr::OutOfFuel))
    } else if is_self_v(exp) {
        (env, Ok(exp))
    } else if exp is Sym {
        match lookup_v(env, text_v(exp)) {
            Some(v) => (env, Ok(v)),
            None => (env, Err(EvalErr::UnboundVariable)),
        }
    } else {
        match exp {
            ExprV::Pair(hd, tl) => if *hd == ExprV::Sym("quote"@) {
                match *tl {
                    ExprV::Pair(q, _) => (env, Ok(*q)),
                    _ => (env, Err(EvalErr::MalformedForm)),
                }
            } else if *hd == ExprV::Sym("set!"@) {
                eval_assign_v(env, exp, fuel)
            } else if *hd == ExprV::Sym("define"@) {
                eval_def_v(env, exp, fuel)
            } else if *hd == ExprV::Sym("begin"@) {
                eval_begin_v(env, *tl, fuel)
            } else if *hd == ExprV::Sym("if"@) {
                eval_if_v(env, exp, fuel)
            } else if *hd == ExprV::Sym("lambda"@) {
                eval_lambda_v(env, exp)
            } else if *hd == ExprV::Sym("and"@) {
                eval_and_v(env, *tl, fuel)
            } else if *hd == ExprV::Sym("or"@) {
                eval_or_v(env, *tl, fuel)
            } else if *hd == ExprV::Sym("cond"@) {
                eval_cond_v(env, *tl, fuel)
            } else if *hd == ExprV::Sym("let"@) {
                eval_let_v(env, exp, fuel)
            } else {
                eval_app_v(env, exp, fuel)
            },
            ExprV::Nil => (env, Err(EvalErr::MalformedForm)),
            _ => (env, Ok(ExprV::Sym("OK"@))),
        }
    }
}

// ---------------------------------------------------------------------
// The evaluator itself.  Each executable function implements the spec
// function of the same dispatch branch exactly, threading the
// environment arena through `self`.
// ---------------------------------------------------------------------

/// A binding check refuses exactly the pairs that cannot be bound.
pub proof fn lemma_bind_ok(vars: ExprV, vals: ExprV)
    ensures
        bind_err_v(vars, vals) is None <==> bindable_v(vars, vals),
    decreases vars,
{
    match vars {
        ExprV::Pair(n, vr) => match vals {
            ExprV::Pair(_, lr) => {
                lemma_bind_ok(*vr, *lr);
            },
            _ => {},
        },
        _ => {},
    }
}

/// The desugared formal list of a `let` is made of parts of the
/// binding list, so it is well formed wherever the binding list is.
proof fn lemma_bind_params_wf(b: ExprV, n: nat)
    requires
        expr_wf(b, n),
    ensures
        bind_params_v(b) matches Ok(v) ==> expr_wf(v, n),
    decreases b,
{
    match b {
        ExprV::Pair(c, rest) => {
            lemma_bind_params_wf(*rest, n);
            match *c {
                ExprV::Pair(name, _) => {
                    assert(expr_wf(*c, n));
                    assert(expr_wf(*name, n));
                    match bind_params_v(*rest) {
                        Ok(t) => {
                            assert(expr_wf(ExprV::Pair(name, Box::new(t)), n));
                        },
                        _ => {},
                    }
                },
                _ => {},
            }
        },
        _ => {},
    }
}

/// The desugared argument list of a `let` is made of parts of the
/// binding list, so it is well formed wherever the binding list is.
proof fn lemma_bind_args_wf(b: ExprV, n: nat)
    requires
        expr_wf(b, n),
    ensures
        bind_args_v(b) matches Ok(v) ==> expr_wf(v, n),
    decreases b,
{
    match b {
        ExprV::Pair(c, rest) => {
            lemma_bind_args_wf(*rest, n);
            match *c {
                ExprV::Pair(_, d) => match *d {
                    ExprV::Pair(v, _) => {
                        assert(expr_wf(*c, n));
                        assert(expr_wf(*d, n));
                        assert(expr_wf(*v, n));
                        match bind_args_v(*rest) {
                            Ok(t) => {
                                assert(expr_wf(ExprV::Pair(v, Box::new(t)), n));
                            },
                            _ => {},
                        }
                    },
                    _ => {},
                },
                _ => {},
            }
        },
        _ => {},
    }
}

/// The formal list of a `let` binding list: the name of each binding.
fn bind_params(b: &Expr) -> (r: Result<Expr, EvalErr>)
    ensures
        res_v(r) == bind_params_v(b@),
    decreases b,
{
    match b {
        Expr::Nil => Ok(Expr::Nil),
        Expr::Pair(c, rest) => {
            proof {
                assert((**c)@ == car_v(b@));
                assert((**rest)@ == cdr_v(b@));
            }
            match &**c {
                Expr::Pair(n, _) => {
                    proof {
                        assert((**n)@ == car_v((**c)@));
                    }
                    match bind_params(&**rest) {
                        Ok(t) => Ok(Expr::new_pair((**n).clone(), t)),
                        Err(e) => Err(e),
                    }
                },
                _ => Err(EvalErr::MalformedForm),
            }
        },
        _ => Err(EvalErr::MalformedForm),
    }
}

/// The argument list of a `let` binding list: the value expression of
/// each binding.
fn bind_args(b: &Expr) -> (r: Result<Expr, EvalErr>)
    ensures
        res_v(r) == bind_args_v(b@),
    decreases b,
{
    match b {
        Expr::Nil => Ok(Expr::Nil),
        Expr::Pair(c, rest) => {
            proof {
                assert((**c)@ == car_v(b@));
                assert((**rest)@ == cdr_v(b@));
            }
            match &**c {
                Expr::Pair(_, d) => {
                    proof {
                        assert((**d)@ == cdr_v((**c)@));
                    }
                    match &**d {
                        Expr::Pair(v, _) => {
                            proof {
                                assert((**v)@ == car_v((**d)@));
                            }
                            match bind_args(&**rest) {
                                Ok(t) => Ok(Expr::new_pair((**v).clone(), t)),
                                Err(e) => Err(e),
                            }
                        },
                        _ => Err(EvalErr::MalformedForm),
                    }
                },
                _ => Err(EvalErr::MalformedForm),
            }
        },
        _ => Err(EvalErr::MalformedForm),
    }
}

/// Checks that a closure's formals can be bound to its arguments,
/// naming the error when they cannot.
fn bind_check(vars: &Expr, vals: &Expr) -> (r: Option<EvalErr>)
    ensures
        r == bind_err_v(vars@, vals@),
    decreases vars,
{
    match vars {
        Expr::Nil => match vals {
            Expr::Nil => None,
            _ => Some(EvalErr::ArityMismatch),
        },
        Expr::Pair(n, vr) => {
            proof {
                assert((**n)@ == car_v(vars@));
                assert((**vr)@ == cdr_v(vars@));
            }
            if !(n.is_sym() || n.is_str()) {
                Some(EvalErr::TypeMismatch)
            } else {
                match vals {
                    Expr::Pair(_, lr) => {
                        proof {
                            assert((**lr)@ == cdr_v(vals@));
                        }
                        bind_check(&**vr, &**lr)
                    },
                    _ => Some(EvalErr::ArityMismatch),
                }
            }
        },
        _ => Some(EvalErr::MalformedForm),
    }
}

/// The relation every evaluation step keeps: the machine steps from
/// `pre` to `post`, its result and final environment are the ones the
/// spec names in `out`, the reader is untouched, the environment stays
/// well formed, the arena only grows, the active frame is restored,
/// and a successful result is well formed in the final arena.
pub open spec fn steps_to(
    pre: Evaler,
    post: Evaler,
    out: (EnvV, Result<ExprV, EvalErr>),
    r: Result<Expr, EvalErr>,
) -> bool {
    &&& post.env@ == out.0
    &&& res_v(r) == out.1
    &&& post.parser == pre.parser
    &&& env_wf(post.env@)
    &&& pre.env@.frames.len() <= post.env@.frames.len()
    &&& post.env@.active == pre.env@.active
    &&& (r matches Ok(v) ==> expr_wf(v@, post.env@.frames.len()))
}

/// The recursive dispatcher and application protocol: reads one
/// expression at a time through its reader and evaluates it in its
/// environment arena.
pub struct Evaler {
    pub parser: Parser,
    pub env: Env,
}

impl Evaler {
    /// An evaluator over an empty reader and the root environment.
    pub fn new() -> (r: Evaler)
        ensures
            r.env@ == initial_env_v(),
            env_wf(r.env@),
            r.parser.code@.len() == 0,
            r.parser.cur == 0,
    {
        Evaler { parser: Parser::new_from(), env: Env::new() }
    }

    /// Evaluates one expression: the dispatch over the branches of
    /// `eval_exp_v`, tried in order.
    pub fn eval_exp(&mut self, exp: &Expr, fuel: u64) -> (r: Result<Expr, EvalErr>)
        requires
            env_wf(old(self).env@),
            expr_wf(exp@, old(self).env@.frames.len()),
        ensures
            steps_to(*old(self), *final(self), eval_exp_v(old(self).env@, exp@, fuel as nat), r),
        decreases fuel, exp, 2nat,
    {
        if fuel == 0 {
            return Err(EvalErr::OutOfFuel);
        }
        if exp.is_self() {
            return Ok(exp.clone());
        }
        if exp.is_sym() {
            let looked = self.env.lookup(exp.as_str());
            match looked {
                Some(v) => {
                    proof {
                        lemma_lookup_wf(self.env@, self.env@.active, text_v(exp@));
                    }
                    return Ok(v);
                },
                None => {
                    return Err(EvalErr::UnboundVariable);
                },
            }
        }
        if exp.is_quote() {
            match exp {
                Expr::Pair(_, tl) => {
                    proof {
                        assert((**tl)@ == cdr_v(exp@));
                    }
                    match &**tl {
                        Expr::Pair(q, _) => {
                            proof {
                                assert((**q)@ == car_v((**tl)@));
                                assert(expr_wf((**tl)@, self.env@.frames.len()));
                                assert(expr_wf((**q)@, self.env@.frames.len()));
                            }
                            return Ok((**q).clone());
                        },
                        _ => {
                            return Err(EvalErr::MalformedForm);
                        },
                    }
                },
                _ => {
                    return Err(EvalErr::MalformedForm);
                },
            }
        }
        if exp.is_assign() {
            return self.eval_assign(exp, fuel);
        }
        if exp.is_def() {
            return self.eval_def(exp, fuel);
        }
        if exp.is_begin() {
            match exp {
                Expr::Pair(_, tl) => {
                    proof {
                        assert((**tl)@ == cdr_v(exp@));
                        assert(expr_wf((**tl)@, self.env@.frames.len()));
                    }
                    return self.eval_begin(&**tl, fuel);
                },
                _ => {
                    return Err(EvalErr::MalformedForm);
                },
            }
        }
        if exp.is_if() {
            return self.eval_if(exp, fuel);
        }
        if exp.is_lambda() {
            return self.eval_lambda(exp);
        }
        if exp.is_and() {
            match exp {
                Expr::Pair(_, tl) => {
                    proof {
                        assert((**tl)@ == cdr_v(exp@));
                        assert(expr_wf((**tl)@, self.env@.frames.len()));
                    }
                    return self.eval_and(&**tl, fuel);
                },
                _ => {
                    return Err(EvalErr::MalformedForm);
                },
            }
        }
        if exp.is_or() {
            match exp {
                Expr::Pair(_, tl) => {
                    proof {
                        assert((**tl)@ == cdr_v(exp@));
                        assert(expr_wf((**tl)@, self.env@.frames.len()));
                    }
                    return self.eval_or(&**tl, fuel);
                },
                _ => {
                    return Err(EvalErr::MalformedForm);
                },
            }
        }
        if exp.is_cond() {
            match exp {
                Expr::Pair(_, tl) => {
                    proof {
                        assert((**tl)@ == cdr_v(exp@));
                        assert(expr_wf((**tl)@, self.env@.frames.len()));
                    }
                    return self.eval_cond(&**tl, fuel);
                },
                _ => {
                    return Err(EvalErr::MalformedForm);
                },
            }
        }
        if exp.is_let() {
            return self.eval_let(exp, fuel);
        }
        if exp.is_pair() {
            return self.eval_app(exp, fuel);
        }
        Ok(Expr::new_sym("OK"))
    }

    /// Evaluates a `set!` form.
    fn eval_assign(&mut self, exp: &Expr, fuel: u64) -> (r: Result<Expr, EvalErr>)
        requires
            fuel >= 1,
            exp@ is Pair,
            env_wf(old(self).env@),
            expr_wf(exp@, old(self).env@.frames.len()),
        ensures
            steps_to(
                *old(self),
                *final(self),
                eval_assign_v(old(self).env@, exp@, fuel as nat),
                r,
            ),
        decreases fuel, exp, 1nat,
    {
        let tl = exp.cdr_ref();
        if !(tl.is_pair() && !tl.is_empty()) {
            return Err(EvalErr::MalformedForm);
        }
        let tl2 = tl.cdr_ref();
        if !(tl2.is_pair() && !tl2.is_empty()) {
            return Err(EvalErr::MalformedForm);
        }
        let var = tl.car_ref();
        let vale = tl2.car_ref();
        proof {
            assert(expr_wf(tl@, self.env@.frames.len()));
            assert(expr_wf(tl2@, self.env@.frames.len()));
            assert(expr_wf(vale@, self.env@.frames.len()));
            assert(expr_wf(var@, self.env@.frames.len()));
        }
        let rv = self.eval_exp(vale, fuel - 1);
        match rv {
            Ok(val) => {
                if var.is_sym() || var.is_str() {
                    self.env.def_var(var.as_str(), val);
                    Ok(Expr::new_sym("OK"))
                } else {
                    Err(EvalErr::TypeMismatch)
                }
            },
            Err(e) => Err(e),
        }
    }

    /// Evaluates a `define` form, in either of its two surface shapes.
    fn eval_def(&mut self, exp: &Expr, fuel: u64) -> (r: Result<Expr, EvalErr>)
        requires
            fuel >= 1,
            is_form(exp@, "define"@),
            env_wf(old(self).env@),
            expr_wf(exp@, old(self).env@.frames.len()),
        ensures
            steps_to(*old(self), *final(self), eval_def_v(old(self).env@, exp@, fuel as nat), r),
        decreases fuel, exp, 1nat,
    {
        let tl = exp.cdr_ref();
        if !(tl.is_pair() && !tl.is_empty()) {
            return Err(EvalErr::MalformedForm);
        }
        let head = tl.car_ref();
        if head.is_sym() {
            let tl2 = tl.cdr_ref();
            if !(tl2.is_pair() && !tl2.is_empty()) {
                return Err(EvalErr::MalformedForm);
            }
        } else {
            if !(head.is_pair() && !head.is_empty()) {
                return Err(EvalErr::MalformedForm);
            }
        }
        let var = exp.def_var();
        let vale = exp.def_val();
        proof {
            assert(expr_wf(tl@, self.env@.frames.len()));
            assert(expr_wf(head@, self.env@.frames.len()));
            assert(expr_wf(cdr_v(tl@), self.env@.frames.len()));
            if head@ is Sym {
                assert(expr_wf(car_v(cdr_v(tl@)), self.env@.frames.len()));
            } else {
                assert(expr_wf(car_v(head@), self.env@.frames.len()));
                assert(expr_wf(cdr_v(head@), self.env@.frames.len()));
                assert(expr_wf(ExprV::Sym("lambda"@), self.env@.frames.len()));
                assert(expr_wf(
                    ExprV::Pair(Box::new(cdr_v(head@)), Box::new(cdr_v(tl@))),
                    self.env@.frames.len(),
                ));
                assert(expr_wf(vale@, self.env@.frames.len()));
            }
            assert(expr_wf(vale@, self.env@.frames.len()));
            assert(expr_wf(var@, self.env@.frames.len()));
        }
        let rv = self.eval_exp(&vale, fuel - 1);
        match rv {
            Ok(val) => {
                if var.is_sym() || var.is_str() {
                    self.env.def_var(var.as_str(), val);
                    Ok(Expr::new_sym("OK"))
                } else {
                    Err(EvalErr::TypeMismatch)
                }
            },
            Err(e) => Err(e),
        }
    }

    /// Evaluates an `if` form.
    fn eval_if(&mut self, exp: &Expr, fuel: u64) -> (r: Result<Expr, EvalErr>)
        requires
            fuel >= 1,
            exp@ is Pair,
            env_wf(old(self).env@),
            expr_wf(exp@, old(self).env@.frames.len()),
        ensures
            steps_to(*old(self), *final(self), eval_if_v(old(self).env@, exp@, fuel as nat), r),
        decreases fuel, exp, 1nat,
    {
        let tl = exp.cdr_ref();
        if !(tl.is_pair() && !tl.is_empty()) {
            return Err(EvalErr::MalformedForm);
        }
        let tl2 = tl.cdr_ref();
        if !(tl2.is_pair() && !tl2.is_empty()) {
            return Err(EvalErr::MalformedForm);
        }
        let pred = tl.car_ref();
        let blk_t = tl2.car_ref();
        let blk_f = tl2.cdr_ref();
        proof {
            assert(expr_wf(tl@, self.env@.frames.len()));
            assert(expr_wf(tl2@, self.env@.frames.len()));
            assert(expr_wf(pred@, self.env@.frames.len()));
            assert(expr_wf(blk_t@, self.env@.frames.len()));
            assert(expr_wf(blk_f@, self.env@.frames.len()));
        }
        let rv = self.eval_exp(pred, fuel - 1);
        let res = match rv {
            Ok(res) => res,
            Err(e) => {
                return Err(e);
            },
        };
        if res.is_bool() {
            if res.as_bool() {
                proof {
                    lemma_expr_wf_mono(blk_t@, old(self).env@.frames.len(), self.env@.frames.len());
                }
                self.eval_exp(blk_t, fuel - 1)
            } else {
                if blk_f.is_pair() && !blk_f.is_empty() {
                    let alt = blk_f.car_ref();
                    proof {
                        assert(expr_wf(alt@, old(self).env@.frames.len()));
                        lemma_expr_wf_mono(
                            alt@,
                            old(self).env@.frames.len(),
                            self.env@.frames.len(),
                        );
                    }
                    self.eval_exp(alt, fuel - 1)
                } else {
                    Err(EvalErr::MalformedForm)
                }
            }
        } else if res.is_empty() {
            Ok(Expr::Bool(false))
        } else {
            Err(EvalErr::TypeMismatch)
        }
    }

    /// Evaluates a `lambda` form into a closure capturing the active
    /// frame.
    fn eval_lambda(&mut self, exp: &Expr) -> (r: Result<Expr, EvalErr>)
        requires
            exp@ is Pair,
            env_wf(old(self).env@),
            expr_wf(exp@, old(self).env@.frames.len()),
        ensures
            steps_to(*old(self), *final(self), eval_lambda_v(old(self).env@, exp@), r),
    {
        let tl = exp.cdr_ref();
        if !(tl.is_pair() && !tl.is_empty()) {
            return Err(EvalErr::MalformedForm);
        }
        proof {
            assert(expr_wf(tl@, self.env@.frames.len()));
            assert(expr_wf(car_v(tl@), self.env@.frames.len()));
            assert(expr_wf(cdr_v(tl@), self.env@.frames.len()));
        }
        Ok(Expr::new_cproc(tl.car(), tl.cdr(), self.env.active()))
    }

    /// Evaluates an `and` operand list.
    fn eval_and(&mut self, list: &Expr, fuel: u64) -> (r: Result<Expr, EvalErr>)
        requires
            fuel >= 1,
            env_wf(old(self).env@),
            expr_wf(list@, old(self).env@.frames.len()),
        ensures
            steps_to(*old(self), *final(self), eval_and_v(old(self).env@, list@, fuel as nat), r),
        decreases fuel, list, 1nat,
    {
        match list {
            Expr::Nil => Ok(Expr::Bool(true)),
            Expr::Pair(x, d) => {
                proof {
                    assert((**x)@ == car_v(list@));
                    assert((**d)@ == cdr_v(list@));
                    assert(expr_wf((**x)@, self.env@.frames.len()));
                    assert(expr_wf((**d)@, self.env@.frames.len()));
                }
                if d.is_empty() {
                    self.eval_exp(&**x, fuel - 1)
                } else {
                    let rv = self.eval_exp(&**x, fuel - 1);
                    match rv {
                        Ok(v) => {
                            if v.is_bool() {
                                if v.as_bool() {
                                    proof {
                                        lemma_expr_wf_mono(
                                            (**d)@,
                                            old(self).env@.frames.len(),
                                            self.env@.frames.len(),
                                        );
                                    }
                                    self.eval_and(&**d, fuel)
                                } else {
                                    Ok(Expr::Bool(false))
                                }
                            } else {
                                Err(EvalErr::TypeMismatch)
                            }
                        },
                        Err(e) => Err(e),
                    }
                }
            },
            _ => Err(EvalErr::MalformedForm),
        }
    }

    /// Evaluates an `or` operand list.
    fn eval_or(&mut self, list: &Expr, fuel: u64) -> (r: Result<Expr, EvalErr>)
        requires
            fuel >= 1,
            env_wf(old(self).env@),
            expr_wf(list@, old(self).env@.frames.len()),
        ensures
            steps_to(*old(self), *final(self), eval_or_v(old(self).env@, list@, fuel as nat), r),
        decreases fuel, list, 1nat,
    {
        match list {
            Expr::Nil => Ok(Expr::Bool(true)),
            Expr::Pair(x, d) => {
                proof {
                    assert((**x)@ == car_v(list@));
                    assert((**d)@ == cdr_v(list@));
                    assert(expr_wf((**x)@, self.env@.frames.len()));
                    assert(expr_wf((**d)@, self.env@.frames.len()));
                }
                if d.is_empty() {
                    self.eval_exp(&**x, fuel - 1)
                } else {
                    let rv = self.eval_exp(&**x, fuel - 1);
                    match rv {
                        Ok(v) => {
                            if v.is_bool() {
                                if v.as_bool() {
                                    Ok(Expr::Bool(true))
                                } else {
                                    proof {
                                        lemma_expr_wf_mono(
                                            (**d)@,
                                            old(self).env@.frames.len(),
                                            self.env@.frames.len(),
                                        );
                                    }
                                    self.eval_or(&**d, fuel)
                                }
                            } else {
                                Err(EvalErr::TypeMismatch)
                            }
                        },
                        Err(e) => Err(e),
                    }
                }
            },
            _ => Err(EvalErr::MalformedForm),
        }
    }

    /// Scans a `cond` clause list.
    fn eval_cond(&mut self, clauses: &Expr, fuel: u64) -> (r: Result<Expr, EvalErr>)
        requires
            fuel >= 1,
            env_wf(old(self).env@),
            expr_wf(clauses@, old(self).env@.frames.len()),
        ensures
            steps_to(
                *old(self),
                *final(self),
                eval_cond_v(old(self).env@, clauses@, fuel as nat),
                r,
            ),
        decreases fuel, clauses, 1nat,
    {
        match clauses {
            Expr::Nil => Ok(Expr::Bool(true)),
            Expr::Pair(clause, rest) => {
                proof {
                    assert((**clause)@ == car_v(clauses@));
                    assert((**rest)@ == cdr_v(clauses@));
                    assert(expr_wf((**clause)@, self.env@.frames.len()));
                    assert(expr_wf((**rest)@, self.env@.frames.len()));
                }
                if !(clause.is_pair() && !clause.is_empty()) {
                    return Err(EvalErr::MalformedForm);
                }
                let test = clause.car_ref();
                proof {
                    assert(expr_wf(test@, self.env@.frames.len()));
                }
                if test.is_sym() && expr_eq(test, &Expr::new_sym("else")) {
                    let body = clause.cdr_ref();
                    if body.is_pair() && !body.is_empty() {
                        let conseq = body.car_ref();
                        proof {
                            assert(expr_wf(body@, self.env@.frames.len()));
                            assert(expr_wf(conseq@, self.env@.frames.len()));
                        }
                        self.eval_exp(conseq, fuel - 1)
                    } else {
                        Err(EvalErr::MalformedForm)
                    }
                } else {
                    let rv = self.eval_exp(test, fuel - 1);
                    match rv {
                        Ok(v) => {
                            if v.is_bool() {
                                if v.as_bool() {
                                    let body = clause.cdr_ref();
                                    if body.is_pair() && !body.is_empty() {
                                        let conseq = body.car_ref();
                                        proof {
                                            assert(expr_wf(
                                                body@,
                                                old(self).env@.frames.len(),
                                            ));
                                            assert(expr_wf(
                                                conseq@,
                                                old(self).env@.frames.len(),
                                            ));
                                            lemma_expr_wf_mono(
                                                conseq@,
                                                old(self).env@.frames.len(),
                                                self.env@.frames.len(),
                                            );
                                        }
                                        self.eval_exp(conseq, fuel - 1)
                                    } else {
                                        Err(EvalErr::MalformedForm)
                                    }
                                } else {
                                    proof {
                                        lemma_expr_wf_mono(
                                            (**rest)@,
                                            old(self).env@.frames.len(),
                                            self.env@.frames.len(),
                                        );
                                    }
                                    self.eval_cond(&**rest, fuel)
                                }
                            } else if v.is_empty() {
                                proof {
                                    lemma_expr_wf_mono(
                                        (**rest)@,
                                        old(self).env@.frames.len(),
                                        self.env@.frames.len(),
                                    );
                                }
                                self.eval_cond(&**rest, fuel)
                            } else {
                                Err(EvalErr::TypeMismatch)
                            }
                        },
                        Err(e) => Err(e),
                    }
                }
            },
            _ => Err(EvalErr::MalformedForm),
        }
    }

    /// Desugars a `let` form into an immediate lambda application and
    /// re-dispatches it.
    fn eval_let(&mut self, exp: &Expr, fuel: u64) -> (r: Result<Expr, EvalErr>)
        requires
            fuel >= 1,
            exp@ is Pair,
            env_wf(old(self).env@),
            expr_wf(exp@, old(self).env@.frames.len()),
        ensures
            steps_to(*old(self), *final(self), eval_let_v(old(self).env@, exp@, fuel as nat), r),
        decreases fuel, exp, 1nat,
    {
        let tl = exp.cdr_ref();
        if !(tl.is_pair() && !tl.is_empty()) {
            return Err(EvalErr::MalformedForm);
        }
        let bindings = tl.car_ref();
        let body = tl.cdr();
        proof {
            assert(expr_wf(tl@, self.env@.frames.len()));
            assert(expr_wf(bindings@, self.env@.frames.len()));
            assert(expr_wf(body@, self.env@.frames.len()));
        }
        let params = match bind_params(bindings) {
            Ok(p) => p,
            Err(e) => {
                return Err(e);
            },
        };
        let args = match bind_args(bindings) {
            Ok(a) => a,
            Err(e) => {
                return Err(e);
            },
        };
        proof {
            lemma_bind_params_wf(bindings@, self.env@.frames.len());
            lemma_bind_args_wf(bindings@, self.env@.frames.len());
        }
        let obj = Expr::new_pair(params.make_lambda(body), args);
        proof {
            assert(expr_wf(ExprV::Sym("lambda"@), self.env@.frames.len()));
            assert(expr_wf(
                ExprV::Pair(Box::new(params@), Box::new(cdr_v(tl@))),
                self.env@.frames.len(),
            ));
            assert(expr_wf(make_lambda_v(params@, cdr_v(tl@)), self.env@.frames.len()));
            assert(expr_wf(obj@, self.env@.frames.len()));
        }
        self.eval_exp(&obj, fuel - 1)
    }

    /// Evaluates a `begin` body list, returning the last value.
    fn eval_begin(&mut self, list: &Expr, fuel: u64) -> (r: Result<Expr, EvalErr>)
        requires
            fuel >= 1,
            env_wf(old(self).env@),
            expr_wf(list@, old(self).env@.frames.len()),
        ensures
            steps_to(
                *old(self),
                *final(self),
                eval_begin_v(old(self).env@, list@, fuel as nat),
                r,
            ),
        decreases fuel, list, 1nat,
    {
        match list {
            Expr::Pair(x, d) => {
                proof {
                    assert((**x)@ == car_v(list@));
                    assert((**d)@ == cdr_v(list@));
                    assert(expr_wf((**x)@, self.env@.frames.len()));
                    assert(expr_wf((**d)@, self.env@.frames.len()));
                }
                if d.is_empty() {
                    self.eval_exp(&**x, fuel - 1)
                } else {
                    let rv = self.eval_exp(&**x, fuel - 1);
                    match rv {
                        Ok(_) => {
                            proof {
                                lemma_expr_wf_mono(
                                    (**d)@,
                                    old(self).env@.frames.len(),
                                    self.env@.frames.len(),
                                );
                            }
                            self.eval_begin(&**d, fuel)
                        },
                        Err(e) => Err(e),
                    }
                }
            },
            _ => Err(EvalErr::MalformedForm),
        }
    }

    /// Evaluates an operand list left to right into a value list of
    /// the same shape.
    fn eval_values(&mut self, list: &Expr, fuel: u64) -> (r: Result<Expr, EvalErr>)
        requires
            fuel >= 1,
            env_wf(old(self).env@),
            expr_wf(list@, old(self).env@.frames.len()),
        ensures
            steps_to(
                *old(self),
                *final(self),
                eval_values_v(old(self).env@, list@, fuel as nat),
                r,
            ),
        decreases fuel, list, 1nat,
    {
        match list {
            Expr::Nil => Ok(Expr::Nil),
            Expr::Pair(x, d) => {
                proof {
                    assert((**x)@ == car_v(list@));
                    assert((**d)@ == cdr_v(list@));
                    assert(expr_wf((**x)@, self.env@.frames.len()));
                    assert(expr_wf((**d)@, self.env@.frames.len()));
                }
                let v = match self.eval_exp(&**x, fuel - 1) {
                    Ok(v) => v,
                    Err(e) => {
                        return Err(e);
                    },
                };
                proof {
                    lemma_expr_wf_mono(
                        (**d)@,
                        old(self).env@.frames.len(),
                        self.env@.frames.len(),
                    );
                }
                let ghost mid = self.env@.frames.len();
                let vs = match self.eval_values(&**d, fuel) {
                    Ok(vs) => vs,
                    Err(e) => {
                        return Err(e);
                    },
                };
                proof {
                    lemma_expr_wf_mono(v@, mid, self.env@.frames.len());
                    assert(expr_wf(
                        ExprV::Pair(Box::new(v@), Box::new(vs@)),
                        self.env@.frames.len(),
                    ));
                }
                Ok(Expr::new_pair(v, vs))
            },
            _ => Err(EvalErr::MalformedForm),
        }
    }

    /// Applies: evaluates the operator and the operands, then invokes
    /// a native procedure directly or a closure by environment
    /// extension.
    fn eval_app(&mut self, exp: &Expr, fuel: u64) -> (r: Result<Expr, EvalErr>)
        requires
            fuel >= 1,
            env_wf(old(self).env@),
            expr_wf(exp@, old(self).env@.frames.len()),
        ensures
            steps_to(*old(self), *final(self), eval_app_v(old(self).env@, exp@, fuel as nat), r),
        decreases fuel, exp, 1nat,
    {
        match exp {
            Expr::Pair(f, rest) => {
                proof {
                    assert((**f)@ == car_v(exp@));
                    assert((**rest)@ == cdr_v(exp@));
                    assert(expr_wf((**f)@, self.env@.frames.len()));
                    assert(expr_wf((**rest)@, self.env@.frames.len()));
                }
                let p = match self.eval_exp(&**f, fuel - 1) {
                    Ok(p) => p,
                    Err(e) => {
                        return Err(e);
                    },
                };
                proof {
                    lemma_expr_wf_mono(
                        (**rest)@,
                        old(self).env@.frames.len(),
                        self.env@.frames.len(),
                    );
                }
                let ghost mid = self.env@.frames.len();
                let args = match self.eval_values(&**rest, fuel) {
                    Ok(a) => a,
                    Err(e) => {
                        return Err(e);
                    },
                };
                proof {
                    lemma_expr_wf_mono(p@, mid, self.env@.frames.len());
                }
                match &p {
                    Expr::Proc(pf) => {
                        let out = apply_builtin(pf.0, &args);
                        proof {
                            lemma_apply_builtin_wf(pf.0, args@, self.env@.frames.len());
                        }
                        out
                    },
                    Expr::CompProc(params, body, h) => {
                        proof {
                            assert((**params)@ == crate::ast::cp_params_v(p@));
                            assert((**body)@ == crate::ast::cp_body_v(p@));
                            assert(expr_wf((**params)@, self.env@.frames.len()));
                            assert(expr_wf((**body)@, self.env@.frames.len()));
                            assert(((*h) as nat) < self.env@.frames.len());
                        }
                        match bind_check(&**params, &args) {
                            Some(e) => Err(e),
                            None => {
                                proof {
                                    lemma_bind_ok((**params)@, args@);
                                }
                                let saved = self.env.active();
                                self.env.set_active(*h);
                                let newh = self.env.extend((**params).clone(), args);
                                self.env.set_active(newh);
                                let begin_exp = Expr::new_pair(
                                    Expr::new_sym("begin"),
                                    (**body).clone(),
                                );
                                proof {
                                    lemma_expr_wf_mono(
                                        (**body)@,
                                        mid,
                                        self.env@.frames.len(),
                                    );
                                    assert(expr_wf(
                                        ExprV::Sym("begin"@),
                                        self.env@.frames.len(),
                                    ));
                                    assert(expr_wf(begin_exp@, self.env@.frames.len()));
                                }
                                let rb = self.eval_exp(&begin_exp, fuel - 1);
                                self.env.set_active(saved);
                                rb
                            },
                        }
                    },
                    _ => Err(EvalErr::TypeMismatch),
                }
            },
            _ => Err(EvalErr::MalformedForm),
        }
    }
}

/// The nesting budget each top-level evaluation gets before it is cut
/// off with `OutOfFuel`.
pub const EVAL_FUEL: u64 = 2000;

impl Evaler {
    /// Loads `code` into the reader, then reads and evaluates one
    /// expression at a time; the result is the last expression's, or
    /// `None` when the text holds no expression.
    pub fn eval_from(&mut self, code: String) -> (r: Option<Result<Expr, EvalErr>>)
        requires
            env_wf(old(self).env@),
        ensures
            env_wf(final(self).env@),
            final(self).env@.active == old(self).env@.active,
            old(self).env@.frames.len() <= final(self).env@.frames.len(),
    {
        self.parser.load(code);
        let mut res: Option<Result<Expr, EvalErr>> = None;
        loop
            invariant
                parser_wf(self.parser),
                env_wf(self.env@),
                self.env@.active == old(self).env@.active,
                old(self).env@.frames.len() <= self.env@.frames.len(),
            decreases self.parser.code@.len() - self.parser.cur,
        {
            let exp = self.parser.read_exp();
            match exp {
                Some(e) => {
                    proof {
                        lemma_closed_wf(e@, self.env@.frames.len());
                    }
                    let out = self.eval_exp(&e, EVAL_FUEL);
                    res = Some(out);
                },
                None => {
                    break ;
                },
            }
        }
        res
    }
}

} // verus!

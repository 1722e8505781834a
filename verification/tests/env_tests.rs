use rust_scm::ast::{Builtin, EvalErr, Expr};
use rust_scm::env::{Env, apply_builtin};

#[test]
fn test_env() {
    let mut env = Env::new();
    env.str_def("hello", Expr::new_str("world"));

    let val = env.str_lookup("hello");
    assert!(val.unwrap().as_str() == "world");

    env.str_def("1", Expr::Int(1));
    let val = env.str_lookup("1");
    assert!(val.unwrap().as_int() == 1);

    env.str_def("1", Expr::Int(2));
    let val = env.str_lookup("1");
    assert!(val.unwrap().as_int() == 2);

    env.str_def("sym", Expr::Int(2));

    let val = env.str_lookup("sym");
    assert!(val.unwrap().as_int() == 2);

    let val = env.str_lookup("null?");
    assert!(val.unwrap().is_proc());
    let val = env.str_lookup("char?");
    assert!(val.unwrap().is_proc());
    let val = env.str_lookup("integer?");
    assert!(val.unwrap().is_proc());

    let val = env.str_lookup(">");
    assert!(val.unwrap().is_proc());

    let val = env.str_lookup("<");
    assert!(val.unwrap().is_proc());
}

#[test]
fn test_env_extend() {
    let mut env = Env::new();
    env.str_def("hello", Expr::new_str("world"));

    let vars = Expr::new_pair(Expr::new_str("var"), Expr::Nil);
    let vals = Expr::new_pair(Expr::new_str("val"), Expr::Nil);

    let child = env.extend(vars, vals);
    env.set_active(child);
    let val = env.str_lookup("var");
    assert!(val.unwrap().as_str() == "val");

    let val = env.str_lookup("hello");
    assert!(val.unwrap().as_str() == "world");

    let vars = Expr::new_pair(Expr::new_str("var_x"), Expr::Nil);
    let vals = Expr::new_pair(Expr::new_str("val_x"), Expr::Nil);

    let grandchild = env.extend(vars, vals);
    env.set_active(grandchild);
    let val = env.str_lookup("var_x");
    assert!(val.unwrap().as_str() == "val_x");

    env.str_def("1", Expr::new_str("1"));

    let val = env.str_lookup("1");
    assert!(val.unwrap().as_str() == "1");
}

#[test]
fn test_env_parent() {
    let mut env = Env::new();
    env.str_def("hello", Expr::new_str("world"));

    let vars = Expr::new_pair(Expr::new_str("var"), Expr::Nil);
    let vals = Expr::new_pair(Expr::new_str("val"), Expr::Nil);

    let child = env.extend(vars, vals);
    env.set_active(child);
    let up = env.parent().unwrap();
    env.set_active(up);
    let val = env.str_lookup("hello");
    assert!(val.unwrap().as_str() == "world");
}

#[test]
fn test_env_shadowing_is_local() {
    // A child frame's binding shadows the ancestor's without touching
    // it: back at the ancestor the old value is still there.
    let mut env = Env::new();
    env.str_def("x", Expr::Int(1));
    let root = env.active();
    let vars = Expr::new_pair(Expr::new_sym("x"), Expr::Nil);
    let vals = Expr::new_pair(Expr::Int(2), Expr::Nil);
    let child = env.extend(vars, vals);
    env.set_active(child);
    assert!(env.str_lookup("x").unwrap().as_int() == 2);
    env.set_active(root);
    assert!(env.str_lookup("x").unwrap().as_int() == 1);
}

#[test]
fn test_env_missing_everywhere() {
    let mut env = Env::new();
    let vars = Expr::new_pair(Expr::new_sym("a"), Expr::Nil);
    let vals = Expr::new_pair(Expr::Int(1), Expr::Nil);
    let child = env.extend(vars, vals);
    env.set_active(child);
    assert!(env.str_lookup("nowhere").is_none());
}

#[test]
fn test_builtin_arith() {
    // (+ 1 2 3) over an evaluated argument list.
    let args = Expr::new_pair(
        Expr::Int(1),
        Expr::new_pair(Expr::Int(2), Expr::new_pair(Expr::Int(3), Expr::Nil)),
    );
    let r = apply_builtin(Builtin::Plus, &args).unwrap();
    assert!(r.as_int() == 6);

    let args = Expr::new_pair(Expr::Int(10), Expr::new_pair(Expr::Int(4), Expr::Nil));
    assert!(apply_builtin(Builtin::Minus, &args).unwrap().as_int() == 6);

    let args = Expr::new_pair(Expr::Int(10), Expr::new_pair(Expr::Int(4), Expr::Nil));
    assert!(apply_builtin(Builtin::Times, &args).unwrap().as_int() == 40);

    let args = Expr::new_pair(Expr::Int(10), Expr::new_pair(Expr::Int(4), Expr::Nil));
    assert!(apply_builtin(Builtin::Quotient, &args).unwrap().as_int() == 2);

    // An empty operand list: + is seeded at 0 and * at 1.
    assert!(apply_builtin(Builtin::Plus, &Expr::Nil).unwrap().as_int() == 0);
    assert!(apply_builtin(Builtin::Times, &Expr::Nil).unwrap().as_int() == 1);
}

#[test]
fn test_builtin_div_by_zero_is_fail_symbol() {
    let args = Expr::new_pair(Expr::Int(2), Expr::new_pair(Expr::Int(0), Expr::Nil));
    let r = apply_builtin(Builtin::Quotient, &args).unwrap();
    assert!(r.is_sym());
    assert!(r.as_str() == "fail");
}

#[test]
fn test_builtin_overflow_is_error() {
    let args = Expr::new_pair(
        Expr::Int(isize::MAX),
        Expr::new_pair(Expr::Int(1), Expr::Nil),
    );
    let r = apply_builtin(Builtin::Plus, &args);
    assert!(matches!(r, Err(EvalErr::Overflow)));
}

#[test]
fn test_builtin_type_mismatch() {
    let args = Expr::new_pair(Expr::Int(1), Expr::new_pair(Expr::Bool(true), Expr::Nil));
    let r = apply_builtin(Builtin::Plus, &args);
    assert!(matches!(r, Err(EvalErr::TypeMismatch)));

    // car of a non-pair argument.
    let args = Expr::new_pair(Expr::Int(1), Expr::Nil);
    let r = apply_builtin(Builtin::First, &args);
    assert!(matches!(r, Err(EvalErr::TypeMismatch)));
}

#[test]
fn test_builtin_comparisons_fix_first() {
    // The first argument is compared against each further one.
    let args = Expr::new_pair(
        Expr::Int(1),
        Expr::new_pair(Expr::Int(2), Expr::new_pair(Expr::Int(0), Expr::Nil)),
    );
    // 1 < 2 holds but 1 < 0 fails, so the chain is false.
    assert!(apply_builtin(Builtin::Less, &args).unwrap().as_bool() == false);
    let args = Expr::new_pair(
        Expr::Int(5),
        Expr::new_pair(Expr::Int(2), Expr::new_pair(Expr::Int(4), Expr::Nil)),
    );
    assert!(apply_builtin(Builtin::Greater, &args).unwrap().as_bool() == true);
}

use rust_scm::ast::{Builtin, Expr};

#[test]
fn test_ast() {
    let int_node = Expr::Int(3);
    assert!(int_node.as_int() == 3);

    let char_node = Expr::Char('a');
    assert!(char_node.as_char() == 'a');

    let bool_node = Expr::Bool(false);
    assert!(bool_node.as_bool() == false);

    let str_node = Expr::new_str("hello");
    assert!(str_node.as_str() == "hello");
    assert!(str_node.is_self());

    let int_node = Expr::Int(3);
    let str_node = Expr::new_str("hello");
    let pair_node = Expr::new_pair(int_node, str_node);
    let car_node = pair_node.car();
    let cdr_node = pair_node.cdr();
    assert!(car_node.as_int() == 3);
    assert!(cdr_node.as_str() == "hello");
    assert!(!pair_node.is_self());

    let sym_node = Expr::new_sym("sym");
    assert!(sym_node.is_sym());
    assert!(!sym_node.is_self());

    let empty_node = Expr::Nil;
    assert!(empty_node.is_empty());
    assert!(!empty_node.is_self());
}

#[test]
fn test_ast_is_set() {
    let let_node = Expr::new_pair(Expr::new_sym("let"), Expr::Int(3));
    assert!(let_node.is_let());
    let if_node = Expr::new_pair(Expr::new_sym("if"), Expr::Int(3));
    assert!(if_node.is_if());
    let lambda_node = Expr::new_pair(Expr::new_sym("lambda"), Expr::Int(3));
    assert!(lambda_node.is_lambda());
    let cond_node = Expr::new_pair(Expr::new_sym("cond"), Expr::Int(3));
    assert!(cond_node.is_cond());
    let assign_node = Expr::new_pair(Expr::new_sym("set!"), Expr::Int(3));
    assert!(assign_node.is_assign());
    let begin_node = Expr::new_pair(Expr::new_sym("begin"), Expr::Int(3));
    assert!(begin_node.is_begin());
    let begin_node = Expr::new_pair(Expr::new_sym("begin"), Expr::Int(3));
    assert!(!begin_node.is_assign());
}

#[test]
fn test_symbol_eq() {
    let aa = Expr::new_sym("else");
    let bb = Expr::new_sym("else");
    assert!(aa == bb);
}

#[test]
fn test_proc() {
    let proc_node = Expr::new_proc(Builtin::Cons);
    assert!(proc_node.is_proc());
    assert!(!proc_node.is_cproc());
}

#[test]
fn test_path_accessor() {
    // ((1 2) 3): c("aa") reaches 1, c("ad") reaches (2), c("da") reaches 3.
    let inner = Expr::new_pair(Expr::Int(1), Expr::new_pair(Expr::Int(2), Expr::Nil));
    let outer = Expr::new_pair(inner, Expr::new_pair(Expr::Int(3), Expr::Nil));
    assert!(outer.c("aa").as_int() == 1);
    assert!(outer.c("ad").car().as_int() == 2);
    assert!(outer.c("da").as_int() == 3);
    assert!(outer.c("").is_pair());
}

#[test]
fn test_is_tagged_non_symbol() {
    // A pair whose head is not a symbol carries no tag, even when the
    // head equals the probe.
    let p = Expr::new_pair(Expr::Int(1), Expr::Nil);
    assert!(!p.is_tagged(Expr::Int(1)));
    assert!(!Expr::Nil.is_tagged(Expr::new_sym("quote")));
}

#[test]
fn test_collect_flattens() {
    // (1 (2 3) 4) flattens to 1 2 3 4.
    let inner = Expr::new_pair(Expr::Int(2), Expr::new_pair(Expr::Int(3), Expr::Nil));
    let chain = Expr::new_pair(
        Expr::Int(1),
        Expr::new_pair(inner, Expr::new_pair(Expr::Int(4), Expr::Nil)),
    );
    let items = chain.collect();
    assert_eq!(items.len(), 4);
    assert!(items[0].as_int() == 1);
    assert!(items[1].as_int() == 2);
    assert!(items[2].as_int() == 3);
    assert!(items[3].as_int() == 4);
}

#[test]
fn test_make_lambda_shape() {
    let params = Expr::new_pair(Expr::new_sym("x"), Expr::Nil);
    let body = Expr::new_pair(Expr::new_sym("x"), Expr::Nil);
    let lam = params.make_lambda(body);
    assert!(lam.is_lambda());
    assert!(lam.c("da").car().as_str() == "x");
}

#[test]
fn test_def_var_val_forms() {
    // (define x 5)
    let form = Expr::new_pair(
        Expr::new_sym("define"),
        Expr::new_pair(Expr::new_sym("x"), Expr::new_pair(Expr::Int(5), Expr::Nil)),
    );
    assert!(form.def_var().as_str() == "x");
    assert!(form.def_val().as_int() == 5);

    // (define (f a) a)
    let header = Expr::new_pair(Expr::new_sym("f"), Expr::new_pair(Expr::new_sym("a"), Expr::Nil));
    let form2 = Expr::new_pair(
        Expr::new_sym("define"),
        Expr::new_pair(header, Expr::new_pair(Expr::new_sym("a"), Expr::Nil)),
    );
    assert!(form2.def_var().as_str() == "f");
    let val = form2.def_val();
    assert!(val.is_lambda());
    assert!(val.c("da").car().as_str() == "a");
}

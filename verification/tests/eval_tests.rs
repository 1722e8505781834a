use rust_scm::ast::{EvalErr, Expr};
use rust_scm::eval::Evaler;

fn run(code: &str) -> Expr {
    let mut evaler = Evaler::new();
    evaler.eval_from(code.to_string()).unwrap().unwrap()
}

fn run_err(code: &str) -> EvalErr {
    let mut evaler = Evaler::new();
    evaler.eval_from(code.to_string()).unwrap().unwrap_err()
}

fn expect_int(code: &str, want: isize) {
    let r = run(code);
    assert!(r.is_int(), "not an integer result for {}", code);
    assert_eq!(r.as_int(), want, "wrong value for {}", code);
}

fn expect_bool(code: &str, want: bool) {
    let r = run(code);
    assert!(r.is_bool(), "not a boolean result for {}", code);
    assert_eq!(r.as_bool(), want, "wrong value for {}", code);
}

fn expect_str(code: &str, want: &str) {
    let r = run(code);
    assert!(r.is_str() || r.is_sym(), "not text for {}", code);
    assert_eq!(r.as_str(), want, "wrong value for {}", code);
}

#[test]
fn test_evaler() {
    expect_int("11", 11);
    expect_str("'a", "a");
    expect_str(r#""hello""#, "hello");
    expect_bool("#t", true);
    expect_bool("(and #t #t)", true);

    expect_bool("(and #t #f)", false);
    expect_bool("(or #t #t)", true);
    expect_bool("(or #f #f)", false);
    expect_bool("(or #t #f)", true);
    expect_str("(set! a 1)", "OK");
    expect_bool("(integer? 1)", true);
    expect_bool("(boolean? #t)", true);
    expect_bool("(boolean? #f)", true);
    expect_bool("(integer? #t)", false);
    expect_int("(+ 1 1)", 2);
    expect_int("(- 1 1)", 0);
    expect_int("(+ 1 1  1)", 3);
    expect_int("(+ 1 1 -1 -1)", 0);
    expect_int("(/ 2 1)", 2);
    expect_int("(* 2 2)", 4);
    expect_bool("(> 2 1)", true);
    expect_bool("(> 1 2)", false);
    expect_bool("(> 1 1)", false);
    expect_int("(- (+ 3 (* 8 5)) 1)", 42);
    expect_bool("(eq? 1 1)", true);
    expect_bool("(eq? 1 2)", false);
    expect_bool("(eq? 1 #f)", false);
    expect_bool("(pair? '())", true);
    expect_bool("(> (+ 1 1) 0)", true);
    expect_int("(if (> 1 0) 1 else 2)", 1);
    expect_int("(begin (set! a 1) a)", 1);
    expect_int("(let ((a 1)) (+ a 1))", 2);
    expect_bool("(let ((a 1)) (> (+ a 1) 0))", true);
    expect_bool("(let ((a 1) (b 2)) (> a b))", false);
    expect_str("(define (add a b) (+ a b))", "OK");
    expect_int("(cond ((eq? 1 1) 1) ((> 1 2) 2) ))", 1);
    expect_int("(begin (set! x 5) (set! x 4) (+ x 1))", 5);
    expect_int("(car '(1 2))", 1);
    expect_int("(car (cdr '(1 2)))", 2);
    expect_int("(car (cons 1 2))", 1);
    expect_bool("(car (cons (pair? '(1)) pair? '()))", true);
    expect_int("(car (cdr (cons 1 2)))", 2);
    expect_int("(car (car (cons (cons 2 3) (cons 1 2))))", 2);
    expect_int("((lambda (x) x) 1)", 1);
    expect_int("((lambda (x y) (+ x y )) 1 2)", 3);
    expect_str("(define add4 (let ((x 4)) (lambda (y) (+ x y))))", "OK");
    expect_int("(begin 1 2)", 2);
    expect_int("((lambda (x) x) 5)", 5);
    expect_int("(let ((fu (lambda (x) (+ x 1)))) (fu 1))", 2);
    expect_int(
        "((lambda (x y ) (if ( = y 0) 1 (* y (x x (- y 1)))))
               (lambda (x y ) (if ( = y 0) 1 (* y (x x (- y 1))))) 5)",
        5 * 4 * 3 * 2,
    );
}

#[test]
fn test_self_evaluating() {
    // Every self-evaluating expression comes back unchanged.
    expect_int("7", 7);
    expect_str(r#""text""#, "text");
    expect_bool("#f", false);
    let mut evaler = Evaler::new();
    let r = evaler.eval_exp(&Expr::Char('q'), 10).unwrap();
    assert!(r == Expr::Char('q'));
}

#[test]
fn test_if_branches() {
    expect_int("(if #t 1 2)", 1);
    expect_int("(if #f 1 2)", 2);
    expect_bool("(if '() 1)", false);
}

#[test]
fn test_division_by_zero_yields_fail_symbol() {
    expect_str("(/ 2 0)", "fail");
}

#[test]
fn test_empty_and_or_cond() {
    expect_bool("(and)", true);
    expect_bool("(or)", true);
    expect_bool("(cond)", true);
}

#[test]
fn test_cond_else_clause() {
    expect_int("(cond ((eq? 1 2) 1) (else 5))", 5);
}

#[test]
fn test_define_then_apply() {
    expect_int("(define (add2 a b) (+ a b)) (add2 1 2)", 3);
}

#[test]
fn test_closure_captures_definition_environment() {
    expect_int("(define add4 (let ((x 4)) (lambda (y) (+ x y)))) (add4 3)", 7);
}

#[test]
fn test_let_does_not_leak_bindings() {
    let e = run_err("(begin (let ((a 1)) a) a)");
    assert!(matches!(e, EvalErr::UnboundVariable));
}

#[test]
fn test_unbound_variable_error() {
    let e = run_err("nowhere");
    assert!(matches!(e, EvalErr::UnboundVariable));
}

#[test]
fn test_type_mismatch_error() {
    let e = run_err("(+ 1 #t)");
    assert!(matches!(e, EvalErr::TypeMismatch));
    let e = run_err("(1 2)");
    assert!(matches!(e, EvalErr::TypeMismatch));
}

#[test]
fn test_malformed_form_error() {
    let e = run_err("(if)");
    assert!(matches!(e, EvalErr::MalformedForm));
    let e = run_err("()");
    assert!(matches!(e, EvalErr::MalformedForm));
}

#[test]
fn test_arity_mismatch_error() {
    let e = run_err("((lambda (x y) x) 1)");
    assert!(matches!(e, EvalErr::ArityMismatch));
}

#[test]
fn test_overflow_error() {
    let e = run_err("(+ 9223372036854775807 1)");
    assert!(matches!(e, EvalErr::Overflow));
}

#[test]
fn test_fuel_runs_out_on_endless_self_application() {
    let e = run_err("((lambda (x) (x x)) (lambda (x) (x x)))");
    assert!(matches!(e, EvalErr::OutOfFuel));
}

#[test]
fn test_eval_from_empty_input() {
    let mut evaler = Evaler::new();
    assert!(evaler.eval_from("".to_string()).is_none());
    assert!(evaler.eval_from("   ".to_string()).is_none());
}

#[test]
fn test_quote_returns_operand_unevaluated() {
    expect_str("'sym", "sym");
    let r = run("'(1 2)");
    assert!(r.is_pair());
    assert!(r.car().as_int() == 1);
}

#[test]
fn test_procedure_value_evaluates_to_sentinel() {
    // Evaluating a procedure value itself falls through the dispatch
    // to the sentinel symbol.
    let mut evaler = Evaler::new();
    let p = evaler.eval_from("+".to_string()).unwrap().unwrap();
    assert!(p.is_proc());
    let r = evaler.eval_exp(&p, 10).unwrap();
    assert!(r.is_sym());
    assert!(r.as_str() == "OK");
}

use rust_scm::parser::Parser;

#[test]
fn test_parser() {
    let mut parser = Parser::new_from();
    parser.load("11".to_string());
    let res = parser.read_exp().unwrap();
    assert!(res.as_int() == 11);

    let mut parser = Parser::new_from();
    parser.load("-11".to_string());
    let res = parser.read_exp().unwrap();
    assert!(res.as_int() == -11);

    let mut parser = Parser::new_from();
    parser.load(r#""hello""#.to_string());
    let res = parser.read_exp().unwrap();
    assert!(res.as_str() == "hello");

    let mut parser = Parser::new_from();
    parser.load("()".to_string());
    let res = parser.read_exp().unwrap();
    assert!(res.is_empty());

    let mut parser = Parser::new_from();
    parser.load("(1 2)".to_string());
    let res = parser.read_exp().unwrap();
    assert!(res.is_pair());
    assert!(res.car().as_int() == 1);
    assert!(res.cdr().car().as_int() == 2);
    assert!(res.cdr().cdr().is_empty());

    let mut parser = Parser::new_from();
    parser.load("(+ 1 2)".to_string());
    let res = parser.read_exp().unwrap();
    assert!(res.is_pair());
    assert!(res.car().is_sym());
    assert!(res.cdr().car().as_int() == 1);
    assert!(res.cdr().cdr().car().as_int() == 2);
}

#[test]
fn test_parser_booleans_and_quote() {
    let mut parser = Parser::new_from();
    parser.load("#t #f 'x".to_string());
    assert!(parser.read_exp().unwrap().as_bool() == true);
    assert!(parser.read_exp().unwrap().as_bool() == false);
    let q = parser.read_exp().unwrap();
    assert!(q.is_quote());
    assert!(q.cdr().car().as_str() == "x");
    assert!(parser.read_exp().is_none());
}

#[test]
fn test_parser_trims_padded_strings() {
    let mut parser = Parser::new_from();
    parser.load(r#""  hi  ""#.to_string());
    let res = parser.read_exp().unwrap();
    assert!(res.as_str() == "hi");
}

#[test]
fn test_parser_symbols_with_digits() {
    let mut parser = Parser::new_from();
    parser.load("a1b2".to_string());
    let res = parser.read_exp().unwrap();
    assert!(res.is_sym());
    assert!(res.as_str() == "a1b2");
}

#[test]
fn test_parser_stops_at_end() {
    let mut parser = Parser::new_from();
    parser.load("".to_string());
    assert!(parser.read_exp().is_none());
    let mut parser = Parser::new_from();
    parser.load("   ".to_string());
    assert!(parser.read_exp().is_none());
}

#[test]
fn test_parser_dotted_tail_collapses() {
    // The reader does not build dotted pairs: a dot ends the chain as
    // the empty list.
    let mut parser = Parser::new_from();
    parser.load("(1 . 2)".to_string());
    let res = parser.read_exp().unwrap();
    assert!(res.is_empty());
}

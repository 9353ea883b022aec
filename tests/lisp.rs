use mal_lisp::{eval, run_line, Env, EvalError, Expr, ParseError, Store, Value, DEFAULT_DEPTH};

fn run_in(store: &mut Store, src: &str) -> Result<String, String> {
    run_line(src.to_string(), Env::global(), store, DEFAULT_DEPTH)
}

fn run(src: &str) -> Result<String, String> {
    let mut store = Store::new();
    run_in(&mut store, src)
}

fn eval_err(store: &mut Store, src: &str) -> EvalError {
    let e = Expr::parse(src.to_string()).unwrap();
    match eval(&e, Env::global(), store, DEFAULT_DEPTH) {
        Ok(v) => panic!("expected an error, got {}", v.to_text()),
        Err(x) => x,
    }
}

#[test]
fn arithmetic_and_comparison() {
    assert_eq!(run("(+ )"), Ok("0".to_string()));
    assert_eq!(run("(* )"), Ok("1".to_string()));
    assert_eq!(run("(+ 1 2 3)"), Ok("6".to_string()));
    assert_eq!(run("(- 5 3)"), Ok("2".to_string()));
    assert_eq!(run("(<= 2 3)"), Ok("true".to_string()));
    assert_eq!(run("(<= 3 2)"), Ok("false".to_string()));
}

#[test]
fn products_and_negative_numbers() {
    assert_eq!(run("(* 2 3 7)"), Ok("42".to_string()));
    assert_eq!(run("(- 3 10)"), Ok("-7".to_string()));
    assert_eq!(run("-9223372036854775808"), Ok("-9223372036854775808".to_string()));
    assert_eq!(run("+12"), Ok("12".to_string()));
    assert_eq!(run("(<= 4 4)"), Ok("true".to_string()));
}

#[test]
fn def_then_lookup() {
    let mut store = Store::new();
    assert_eq!(run_in(&mut store, "(def! x 10)"), Ok("10".to_string()));
    assert_eq!(run_in(&mut store, "x"), Ok("10".to_string()));
    assert_eq!(run_in(&mut store, "(def! x 11)"), Ok("11".to_string()));
    assert_eq!(run_in(&mut store, "(+ x 1)"), Ok("12".to_string()));
}

#[test]
fn let_sees_earlier_bindings() {
    assert_eq!(run("(let* (a 2 b (+ a 1)) (+ a b))"), Ok("5".to_string()));
}

#[test]
fn let_scope_is_local() {
    let mut store = Store::new();
    assert_eq!(run_in(&mut store, "(let* (a 1) a)"), Ok("1".to_string()));
    assert_eq!(eval_err(&mut store, "a"), EvalError::UnknownSymbol("a".to_string()));
}

#[test]
fn only_nil_and_false_are_falsy() {
    assert_eq!(run("(if nil 1 2)"), Ok("2".to_string()));
    assert_eq!(run("(if 0 1 2)"), Ok("1".to_string()));
    assert_eq!(run("(if false 1 2)"), Ok("2".to_string()));
    assert_eq!(run("(if false 1)"), Ok("nil".to_string()));
    assert_eq!(run("(if true 1)"), Ok("1".to_string()));
}

#[test]
fn closures_apply() {
    assert_eq!(run("((fn* (a b) (+ a b)) 2 3)"), Ok("5".to_string()));
}

#[test]
fn closure_calls_do_not_share_bindings() {
    let mut store = Store::new();
    assert_eq!(run_in(&mut store, "(def! f (fn* (a b) (+ a b)))"), Ok("<fun>".to_string()));
    assert_eq!(run_in(&mut store, "(f 2 3)"), Ok("5".to_string()));
    assert_eq!(run_in(&mut store, "(f 10 20)"), Ok("30".to_string()));
    assert_eq!(run_in(&mut store, "(def! g (fn* (a) (do (def! seen a) seen)))"), Ok("<fun>".to_string()));
    assert_eq!(run_in(&mut store, "(g 1)"), Ok("1".to_string()));
    assert_eq!(run_in(&mut store, "(g 2)"), Ok("2".to_string()));
    assert_eq!(eval_err(&mut store, "seen"), EvalError::UnknownSymbol("seen".to_string()));
    assert_eq!(eval_err(&mut store, "a"), EvalError::UnknownSymbol("a".to_string()));
}

#[test]
fn closures_capture_their_scope() {
    let mut store = Store::new();
    assert_eq!(run_in(&mut store, "(def! adder (fn* (n) (fn* (m) (+ n m))))"), Ok("<fun>".to_string()));
    assert_eq!(run_in(&mut store, "(def! add5 (adder 5))"), Ok("<fun>".to_string()));
    assert_eq!(run_in(&mut store, "(add5 10)"), Ok("15".to_string()));
}

#[test]
fn quote_does_not_evaluate() {
    assert_eq!(run("(quote (1 2 3))"), Ok("(1 2 3)".to_string()));
    assert_eq!(run("(quote (undefined (x y)) z)"), Ok("((undefined (x y)) z)".to_string()));
    let mut store = Store::new();
    assert_eq!(run_in(&mut store, "(quote (def! q 1))"), Ok("(def! q 1)".to_string()));
    assert_eq!(run_in(&mut store, "(quote a b)"), Ok("(a b)".to_string()));
    assert_eq!(run_in(&mut store, "(quote)"), Ok("()".to_string()));
    assert_eq!(eval_err(&mut store, "q"), EvalError::UnknownSymbol("q".to_string()));
}

#[test]
fn arity_errors() {
    let mut store = Store::new();
    assert_eq!(eval_err(&mut store, "((fn* (a) a) 1 2)"), EvalError::Arity);
    assert_eq!(eval_err(&mut store, "(def! x)"), EvalError::Arity);
    assert_eq!(eval_err(&mut store, "(if 1)"), EvalError::Arity);
    assert_eq!(eval_err(&mut store, "(if 1 2 3 4)"), EvalError::Arity);
    assert_eq!(eval_err(&mut store, "(- 1)"), EvalError::Arity);
    assert_eq!(eval_err(&mut store, "(<= 1 2 3)"), EvalError::Arity);
    assert_eq!(eval_err(&mut store, "(let* (a 1))"), EvalError::Arity);
    assert_eq!(eval_err(&mut store, "(fn* (a))"), EvalError::Arity);
}

#[test]
fn empty_list_is_nil() {
    assert_eq!(run("()"), Ok("nil".to_string()));
}

#[test]
fn do_returns_last() {
    assert_eq!(run("(do 1 2 3)"), Ok("3".to_string()));
    assert_eq!(run("(do)"), Ok("nil".to_string()));
}

#[test]
fn other_errors() {
    let mut store = Store::new();
    assert_eq!(eval_err(&mut store, "(+ 1 nil)"), EvalError::Type);
    assert_eq!(eval_err(&mut store, "(<= true 1)"), EvalError::Type);
    assert_eq!(eval_err(&mut store, "(let* (a) a)"), EvalError::MalformedBindings);
    assert_eq!(eval_err(&mut store, "(let* a a)"), EvalError::MalformedBindings);
    assert_eq!(eval_err(&mut store, "(fn* a a)"), EvalError::MalformedBindings);
    assert_eq!(eval_err(&mut store, "(+ 9223372036854775807 1)"), EvalError::Overflow);
    assert_eq!(eval_err(&mut store, "(* 4294967296 4294967296)"), EvalError::Overflow);
    assert_eq!(eval_err(&mut store, "(- -9223372036854775808 1)"), EvalError::Overflow);
    assert_eq!(eval_err(&mut store, "nope"), EvalError::UnknownSymbol("nope".to_string()));
    assert_eq!(eval_err(&mut store, "(1 2)"), EvalError::UnknownSymbol("1".to_string()));
    assert_eq!(eval_err(&mut store, "(nil)"), EvalError::UnknownSymbol("nil".to_string()));
}

#[test]
fn depth_is_bounded() {
    let mut store = Store::new();
    let e = Expr::parse("(+ 1 (+ 2 3))".to_string()).unwrap();
    assert_eq!(eval(&e, Env::global(), &mut store, 2).err(), Some(EvalError::DepthExceeded));
    assert!(matches!(eval(&e, Env::global(), &mut store, 3), Ok(Value::Number(6))));
    assert_eq!(run_in(&mut store, "(def! loop (fn* (n) (loop n)))"), Ok("<fun>".to_string()));
    assert_eq!(eval_err(&mut store, "(loop 1)"), EvalError::DepthExceeded);
}

#[test]
fn integer_literals_win_over_bindings() {
    let mut store = Store::new();
    assert_eq!(run_in(&mut store, "(def! 5 7)"), Ok("7".to_string()));
    assert_eq!(run_in(&mut store, "5"), Ok("5".to_string()));
    assert_eq!(run_in(&mut store, "(def! nil 7)"), Ok("7".to_string()));
    assert_eq!(run_in(&mut store, "nil"), Ok("nil".to_string()));
}

#[test]
fn parse_errors() {
    assert_eq!(Expr::parse("".to_string()), Err(ParseError::EmptyAtom));
    assert_eq!(Expr::parse(")".to_string()), Err(ParseError::EmptyAtom));
    assert_eq!(Expr::parse("(a".to_string()), Err(ParseError::UnclosedList));
    assert_eq!(Expr::parse("a b".to_string()), Err(ParseError::TrailingInput));
    assert_eq!(Expr::parse("(a))".to_string()), Err(ParseError::TrailingInput));
    assert!(run("(a").is_err());
}

#[test]
fn parse_structure_and_whitespace() {
    let e = Expr::parse("  ( +\t1  (x  y) )\n".to_string()).unwrap();
    let want = Expr::List(vec![
        Expr::Atom("+".to_string()),
        Expr::Atom("1".to_string()),
        Expr::List(vec![Expr::Atom("x".to_string()), Expr::Atom("y".to_string())]),
    ]);
    assert_eq!(e, want);
    assert_eq!(run("  ( +   1 2 )  "), Ok("3".to_string()));
}

#[test]
fn rendering_round_trips() {
    let e = Expr::List(vec![
        Expr::Atom("a(b".to_string()),
        Expr::List(vec![]),
        Expr::List(vec![Expr::Atom("c".to_string()), Expr::Atom("-12".to_string())]),
    ]);
    let text = e.to_text();
    assert_eq!(text, "(a(b () (c -12))");
    assert_eq!(Expr::parse(text).unwrap(), e);
    let copy = e.duplicate();
    assert_eq!(copy, e);
}

#[test]
fn values_render() {
    assert_eq!(Value::Nil.to_text(), "nil");
    assert_eq!(Value::Number(-40).to_text(), "-40");
    assert_eq!(Value::Number(i64::MIN).to_text(), "-9223372036854775808");
    assert_eq!(Value::Def.to_text(), "def!");
    assert_eq!(run("def!"), Ok("def!".to_string()));
}

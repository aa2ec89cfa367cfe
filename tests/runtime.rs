use faysal_lang::ast::{BinaryOp, Expr, Statement};
use faysal_lang::env::Env;
use faysal_lang::eval::{eval_binary_op, eval_expr};
use faysal_lang::interp::{Emit, FlowControl, Interpreter};
use std::cell::RefCell;
use faysal_lang::lexer::Lexer;
use faysal_lang::parser::Parser;
use faysal_lang::value::Value;

fn n(x: f64) -> Value {
    Value::Number(x.to_bits())
}

fn as_num(v: &Value) -> f64 {
    match v {
        Value::Number(b) => f64::from_bits(*b),
        other => panic!("expected a number, got {:?}", other),
    }
}

fn read(s: &String) -> u64 {
    s.parse::<f64>().unwrap_or(0.0).to_bits()
}

fn show(b: u64) -> String {
    let x = f64::from_bits(b);
    if x.fract() == 0.0 {
        format!("{:.0}", x)
    } else {
        format!("{}", x)
    }
}

/// Float arithmetic and ordering.
fn arith(op: BinaryOp, a: u64, b: u64) -> Value {
    let (l, r) = (f64::from_bits(a), f64::from_bits(b));
    match op {
        BinaryOp::Add => n(l + r),
        BinaryOp::Sub => n(l - r),
        BinaryOp::Mul => n(l * r),
        BinaryOp::Div => n(l / r),
        BinaryOp::Mod => n(l % r),
        BinaryOp::Greater => Value::Bool(l > r),
        BinaryOp::Less => Value::Bool(l < r),
        BinaryOp::GreaterEq => Value::Bool(l >= r),
        BinaryOp::LessEq => Value::Bool(l <= r),
        _ => panic!("not a numeric operator: {:?}", op),
    }
}

fn quiet(_: &Emit) {}

fn eval(env: &Env, e: &Expr) -> Value {
    eval_expr(env, e, &read, &show, &arith)
}

fn text(v: &Value) -> String {
    v.show(&show)
}

fn run(src: &str) -> (Interpreter, Vec<String>) {
    let program = Parser::new(Lexer::new(src).tokenize()).parse();
    let mut it = Interpreter::new();
    it.execute(&program, &read, &show, &arith, &quiet, u64::MAX);
    let out = it
        .output
        .iter()
        .map(|e| if e.diagnostic { format!("diag {}", text(&e.value)) } else { text(&e.value) })
        .collect();
    (it, out)
}

fn number_of(it: &Interpreter, name: &str) -> f64 {
    as_num(&it.variables.lookup(&name.to_string()))
}

#[test]
fn truthiness_of_values() {
    assert!(!n(0.0).is_truthy());
    assert!(!n(-0.0).is_truthy());
    assert!(n(-1.0).is_truthy());
    assert!(n(f64::NAN).is_truthy());
    assert!(!Value::Text(String::new()).is_truthy());
    assert!(Value::Text("a".to_string()).is_truthy());
    assert!(Value::Bool(true).is_truthy());
    assert!(!Value::Bool(false).is_truthy());
}

#[test]
fn equality_needs_same_kind() {
    assert!(n(1.0).equals(&n(1.0)));
    assert!(n(0.0).equals(&n(-0.0)));
    assert!(!n(f64::NAN).equals(&n(f64::NAN)));
    assert!(!n(1.0).equals(&Value::Bool(true)));
    assert!(!n(1.0).equals(&Value::Text("1".to_string())));
    assert!(Value::Text("a".to_string()).equals(&Value::Text("a".to_string())));
    assert!(!Value::Bool(true).equals(&Value::Bool(false)));
}

#[test]
fn unbound_name_is_zero() {
    let env = Env::new();
    assert!(matches!(env.lookup(&"ghost".to_string()), Value::Number(0)));
    let (_, out) = run("3mol nowhere");
    assert_eq!(out, vec!["0".to_string()]);
}

#[test]
fn redeclaration_keeps_latest_value() {
    let (it, _) = run("hayde x hiyye 1 hayde x hiyye 2");
    assert_eq!(number_of(&it, "x"), 2.0);
    assert_eq!(it.variables.entries.len(), 1);
}

#[test]
fn bind_overwrites_and_keeps_others() {
    let mut env = Env::new();
    env.bind("a".to_string(), n(1.0));
    env.bind("b".to_string(), n(2.0));
    env.bind("a".to_string(), Value::Text("t".to_string()));
    assert!(matches!(env.lookup(&"a".to_string()), Value::Text(s) if s == "t"));
    assert_eq!(as_num(&env.lookup(&"b".to_string())), 2.0);
}

#[test]
fn straight_program_is_deterministic() {
    let src = "hayde a hiyye 2 3mol a a = a * 3 3mol a lowkey a";
    let (_, first) = run(src);
    let (_, second) = run(src);
    assert_eq!(first, second);
    assert_eq!(first.len(), 3);
    assert!(first[2].starts_with("diag"));
}

#[test]
fn break_on_first_pass_runs_body_once() {
    let (_, out) = run("khalas ong_no_cap 3mol 1 waqif 3mol 2 deal 3mol 3");
    assert_eq!(out, vec!["1".to_string(), "3".to_string()]);
}

#[test]
fn continue_rechecks_condition_until_counter_passes() {
    let (it, out) = run("hayde i hiyye 0 khalas i < 5 i = i + 1 yalla 3mol 99 deal 3mol i");
    assert_eq!(number_of(&it, "i"), 5.0);
    assert_eq!(out, vec!["5".to_string()]);
}

#[test]
fn break_inside_conditional_ends_loop() {
    let (it, out) = run(
        "hayde i hiyye 0 khalas ong_no_cap i = i + 1 eza i == 3 waqif deal 3mol i deal 3mol 100",
    );
    assert_eq!(number_of(&it, "i"), 3.0);
    assert_eq!(
        out,
        vec!["1".to_string(), "2".to_string(), "100".to_string()]
    );
}

#[test]
fn conditional_picks_branch() {
    let (_, out) = run("eza 0 3mol 1 walla 3mol 2 deal eza \"s\" 3mol 3 deal");
    assert_eq!(out, vec!["2".to_string(), "3".to_string()]);
}

#[test]
fn names_bound_in_blocks_stay_visible() {
    let (it, _) = run("eza ong_no_cap hayde inner hiyye 7 deal");
    assert_eq!(number_of(&it, "inner"), 7.0);
}

#[test]
fn loop_pass_cap_stops_endless_loop() {
    let program = Parser::new(Lexer::new("hayde i hiyye 0 khalas ong_no_cap i = i + 1 deal").tokenize()).parse();
    let mut it = Interpreter::new();
    it.execute(&program, &read, &show, &arith, &quiet, 10);
    assert_eq!(number_of(&it, "i"), 10.0);
}

#[test]
fn top_level_break_stops_program_but_continue_does_not() {
    let (_, out) = run("3mol 1 yalla 3mol 2 waqif 3mol 3");
    assert_eq!(out, vec!["1".to_string(), "2".to_string()]);
}

#[test]
fn statement_signals() {
    let mut it = Interpreter::new();
    assert_eq!(it.execute_statement(&Statement::Break, &read, &show, &arith, &quiet, 1), FlowControl::Break);
    assert_eq!(it.execute_statement(&Statement::Continue, &read, &show, &arith, &quiet, 1), FlowControl::Continue);
    let w = Statement::While { condition: Expr::Bool(true), body: vec![Statement::Break] };
    assert_eq!(it.execute_statement(&w, &read, &show, &arith, &quiet, 5), FlowControl::Normal);
    let c = Statement::If {
        condition: Expr::Bool(true),
        then_body: vec![Statement::Continue],
        else_body: None,
    };
    assert_eq!(it.execute_statement(&c, &read, &show, &arith, &quiet, 5), FlowControl::Continue);
}

fn parse_expr(src: &str) -> Expr {
    match Parser::new(Lexer::new(&format!("3mol {}", src)).tokenize()).parse().pop() {
        Some(Statement::Print(e)) => e,
        other => panic!("expected a print, got {:?}", other),
    }
}

#[test]
fn evaluation_rules_of_the_library() {
    let mut env = Env::new();
    env.bind("t".to_string(), Value::Text(String::new()));
    // a name never bound reads as zero
    assert!(matches!(eval(&env, &parse_expr("missing")), Value::Number(0)));
    // logical operators use truthiness
    assert!(matches!(eval(&env, &parse_expr("!t")), Value::Bool(true)));
    assert!(matches!(eval(&env, &parse_expr("1 && t")), Value::Bool(false)));
    assert!(matches!(eval(&env, &parse_expr("0 || \"x\"")), Value::Bool(true)));
    // equality never crosses kinds
    assert!(matches!(eval(&env, &parse_expr("1 == ong_no_cap")), Value::Bool(false)));
    assert!(matches!(eval(&env, &parse_expr("\"a\" != \"a\"")), Value::Bool(false)));
    // numeric work goes to the host's closures
    assert_eq!(as_num(&eval(&env, &parse_expr("1 + 2 * 3"))), 7.0);
    assert_eq!(as_num(&eval(&env, &parse_expr("(1 + 2) * 3"))), 9.0);
    assert_eq!(as_num(&eval(&env, &parse_expr("--4"))), 4.0);
    assert_eq!(as_num(&eval(&env, &parse_expr("7 % 2"))), 1.0);
}

#[test]
fn text_joins_with_plus() {
    let env = Env::new();
    assert!(matches!(eval(&env, &parse_expr("\"a\" + 1")), Value::Text(t) if t == "a1"));
    assert!(matches!(eval(&env, &parse_expr("1 + \"a\"")), Value::Text(t) if t == "1a"));
    assert!(matches!(eval(&env, &parse_expr("\"x\" + ong_no_cap")), Value::Text(t) if t == "xong_no_cap"));
    assert!(matches!(eval(&env, &parse_expr("\"v\" + 2.5")), Value::Text(t) if t == "v2.5"));
    // neither side text and not both numbers: the number 0
    assert!(matches!(eval(&env, &parse_expr("ong_no_cap + 1")), Value::Number(0)));
}

#[test]
fn division_by_zero_is_positive_infinity() {
    let env = Env::new();
    assert_eq!(as_num(&eval(&env, &parse_expr("5 / 0"))), f64::INFINITY);
    assert_eq!(as_num(&eval(&env, &parse_expr("-5 / 0"))), f64::INFINITY);
    assert_eq!(as_num(&eval(&env, &parse_expr("5 / cap"))), f64::INFINITY);
    assert_eq!(as_num(&eval(&env, &parse_expr("6 / 4"))), 1.5);
    let r = eval_binary_op(n(1.0), BinaryOp::Div, Value::Text("0".to_string()), &read, &show, &arith);
    assert_eq!(as_num(&r), f64::INFINITY);
}

#[test]
fn coercion_to_numbers() {
    let env = Env::new();
    assert_eq!(as_num(&eval(&env, &parse_expr("ong_no_cap * 3"))), 3.0);
    assert_eq!(as_num(&eval(&env, &parse_expr("\"4\" - 1"))), 3.0);
    assert_eq!(as_num(&eval(&env, &parse_expr("\"abc\" - 1"))), -1.0);
    assert_eq!(as_num(&eval(&env, &parse_expr("-ong_no_cap"))), -1.0);
    assert!(matches!(eval(&env, &parse_expr("\"10\" > 9")), Value::Bool(true)));
    assert_eq!(n(2.0).to_number(&read), 2.0f64.to_bits());
    assert_eq!(Value::Bool(true).to_number(&read), 1.0f64.to_bits());
}

#[test]
fn printing_values() {
    assert_eq!(text(&n(7.0)), "7");
    assert_eq!(text(&n(0.5)), "0.5");
    assert_eq!(text(&Value::Bool(true)), "ong_no_cap");
    assert_eq!(text(&Value::Bool(false)), "cap");
    assert_eq!(text(&Value::Text("hi".to_string())), "hi");
    let (_, out) = run("3mol 1 / 2 3mol 2 * 2 3mol 1 == 1");
    assert_eq!(out, vec!["0.5", "4", "ong_no_cap"]);
}

#[test]
fn step_by_step_stops_on_break() {
    let program = Parser::new(Lexer::new("3mol 1 waqif 3mol 2").tokenize()).parse();
    let mut it = Interpreter::new();
    assert!(it.execute_step(&program, 0, &read, &show, &arith, &quiet, 5));
    assert!(!it.execute_step(&program, 1, &read, &show, &arith, &quiet, 5));
    assert_eq!(it.output.len(), 1);
}

#[test]
fn prints_reach_the_sink_as_they_happen() {
    let program = Parser::new(Lexer::new("hayde i hiyye 0 khalas i < 3 i = i + 1 3mol i lowkey \"d\" deal").tokenize()).parse();
    let seen = RefCell::new(Vec::new());
    let sink = |e: &Emit| seen.borrow_mut().push((e.diagnostic, text(&e.value)));
    let mut it = Interpreter::new();
    it.execute(&program, &read, &show, &arith, &sink, 100);
    let seen = seen.into_inner();
    assert_eq!(seen.len(), 6);
    assert_eq!(seen[0], (false, "1".to_string()));
    assert_eq!(seen[1], (true, "d".to_string()));
    assert_eq!(seen[4], (false, "3".to_string()));
    assert_eq!(it.output.len(), 6);
}

use faysal_lang::ast::{BinaryOp, Expr, Statement, UnaryOp};
use faysal_lang::lexer::Lexer;
use faysal_lang::parser::Parser;

fn parse(src: &str) -> Vec<Statement> {
    let tokens = Lexer::new(src).tokenize();
    Parser::new(tokens).parse()
}

fn print_expr(s: &Statement) -> &Expr {
    match s {
        Statement::Print(e) => e,
        other => panic!("expected a print, got {:?}", other),
    }
}

fn num(e: &Expr) -> &str {
    match e {
        Expr::Number(n) => n,
        other => panic!("expected a number, got {:?}", other),
    }
}

#[test]
fn multiplication_binds_tighter_than_addition() {
    let p = parse("3mol 1 + 2 * 3");
    assert_eq!(p.len(), 1);
    match print_expr(&p[0]) {
        Expr::Binary { left, op: BinaryOp::Add, right } => {
            assert_eq!(num(left), "1");
            match &**right {
                Expr::Binary { left, op: BinaryOp::Mul, right } => {
                    assert_eq!(num(left), "2");
                    assert_eq!(num(right), "3");
                }
                other => panic!("unexpected {:?}", other),
            }
        }
        other => panic!("unexpected {:?}", other),
    }
}

#[test]
fn parentheses_override_precedence() {
    let p = parse("3mol (1 + 2) * 3");
    match print_expr(&p[0]) {
        Expr::Binary { left, op: BinaryOp::Mul, right } => {
            assert!(matches!(&**left, Expr::Binary { op: BinaryOp::Add, .. }));
            assert_eq!(num(right), "3");
        }
        other => panic!("unexpected {:?}", other),
    }
}

#[test]
fn same_level_folds_left() {
    let p = parse("3mol 8 - 2 - 1");
    match print_expr(&p[0]) {
        Expr::Binary { left, op: BinaryOp::Sub, right } => {
            assert!(matches!(&**left, Expr::Binary { op: BinaryOp::Sub, .. }));
            assert_eq!(num(right), "1");
        }
        other => panic!("unexpected {:?}", other),
    }
}

#[test]
fn logical_levels_and_unary() {
    let p = parse("3mol !a || b && -c == d");
    match print_expr(&p[0]) {
        Expr::Binary { left, op: BinaryOp::Or, right } => {
            assert!(matches!(&**left, Expr::Unary { op: UnaryOp::Not, .. }));
            match &**right {
                Expr::Binary { op: BinaryOp::And, right, .. } => {
                    assert!(matches!(&**right, Expr::Binary { op: BinaryOp::Equals, .. }));
                }
                other => panic!("unexpected {:?}", other),
            }
        }
        other => panic!("unexpected {:?}", other),
    }
}

#[test]
fn missing_close_paren_is_tolerated() {
    let p = parse("3mol (1 + 2");
    assert_eq!(p.len(), 1);
    assert!(matches!(print_expr(&p[0]), Expr::Binary { op: BinaryOp::Add, .. }));
}

#[test]
fn statements_of_each_kind() {
    let p = parse("hayde x hiyye 1 x = 2 3mol highkey x lowkey x yalla waqif");
    assert_eq!(p.len(), 6);
    assert!(matches!(&p[0], Statement::VarDecl { name, .. } if name == "x"));
    assert!(matches!(&p[1], Statement::Assignment { name, .. } if name == "x"));
    assert!(matches!(&p[2], Statement::Print(Expr::Identifier(n)) if n == "x"));
    assert!(matches!(&p[3], Statement::Debug(_)));
    assert!(matches!(&p[4], Statement::Continue));
    assert!(matches!(&p[5], Statement::Break));
}

#[test]
fn conditional_with_markers_and_else() {
    let p = parse("eza betshil x > 1 lakan 3mol 1 walla 3mol 2 3mol 3 deal 3mol 4");
    assert_eq!(p.len(), 2);
    match &p[0] {
        Statement::If { condition, then_body, else_body } => {
            assert!(matches!(condition, Expr::Binary { op: BinaryOp::Greater, .. }));
            assert_eq!(then_body.len(), 1);
            assert_eq!(else_body.as_ref().map(|b| b.len()), Some(2));
        }
        other => panic!("unexpected {:?}", other),
    }
    assert!(matches!(&p[1], Statement::Print(_)));
}

#[test]
fn conditional_without_else_or_deal() {
    let p = parse("eza x 3mol 1");
    match &p[0] {
        Statement::If { then_body, else_body, .. } => {
            assert_eq!(then_body.len(), 1);
            assert!(else_body.is_none());
        }
        other => panic!("unexpected {:?}", other),
    }
}

#[test]
fn while_loop_body() {
    let p = parse("khalas i < 3 lakan i = i + 1 yalla deal 3mol i");
    assert_eq!(p.len(), 2);
    match &p[0] {
        Statement::While { condition, body } => {
            assert!(matches!(condition, Expr::Binary { op: BinaryOp::Less, .. }));
            assert_eq!(body.len(), 2);
        }
        other => panic!("unexpected {:?}", other),
    }
}

#[test]
fn unrecognized_leading_token_is_skipped() {
    let p = parse(") hayde x hiyye 1 3mol x");
    assert_eq!(p.len(), 2);
    assert!(matches!(&p[0], Statement::VarDecl { .. }));
    assert!(matches!(&p[1], Statement::Print(_)));
}

#[test]
fn malformed_tokens_between_statements_terminate() {
    let p = parse("deal walla hayde x hiyye 1 lakan 3mol x betshil");
    assert_eq!(p.len(), 2);
}

#[test]
fn assignment_without_binder_fails() {
    let p = parse("x 5 3mol 1");
    assert_eq!(p.len(), 1);
    assert!(matches!(&p[0], Statement::Print(_)));
}

#[test]
fn skipped_positions_are_reported() {
    let tokens = Lexer::new(") hayde x hiyye 1 deal 3mol x").tokenize();
    let mut p = Parser::new(tokens);
    let (statements, skipped) = p.parse_reporting();
    assert_eq!(statements.len(), 2);
    assert_eq!(skipped, vec![0, 5]);
}

#[test]
fn parse_statement_at_end_still_moves_on() {
    let mut p = Parser::new(Lexer::new("").tokenize());
    assert!(p.parse_statement().is_none());
    assert_eq!(p.position, 1);
    assert!(p.parse_statement().is_none());
    assert_eq!(p.position, 2);
}

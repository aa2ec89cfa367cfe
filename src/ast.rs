use vstd::prelude::*;

verus! {

#[derive(Debug, Clone, Copy, PartialEq, Eq, Structural)]
pub enum BinaryOp {
    Add,
    Sub,
    Mul,
    Div,
    Mod,
    Equals,
    NotEquals,
    Greater,
    Less,
    GreaterEq,
    LessEq,
    And,
    Or,
}

#[derive(Debug, Clone, Copy, PartialEq, Eq, Structural)]
pub enum UnaryOp {
    Not,
    Minus,
}

/// An expression tree; each node owns its operands.
#[derive(Debug)]
pub enum Expr {
    /// A number literal, as written.
    Number(String),
    Text(String),
    Bool(bool),
    Identifier(String),
    Binary { left: Box<Expr>, op: BinaryOp, right: Box<Expr> },
    Unary { op: UnaryOp, expr: Box<Expr> },
}

#[derive(Debug)]
pub enum Statement {
    VarDecl { name: String, value: Expr },
    Assignment { name: String, value: Expr },
    Print(Expr),
    Debug(Expr),
    If { condition: Expr, then_body: Vec<Statement>, else_body: Option<Vec<Statement>> },
    While { condition: Expr, body: Vec<Statement> },
    Break,
    Continue,
}

} // verus!

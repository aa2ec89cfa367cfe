use vstd::prelude::*;
use crate::ast::{BinaryOp, Expr, UnaryOp};
use crate::env::Env;
use crate::value::{
    Datum, Value, INFINITY, SIGN, is_zero_bits, join, read_meaning, reader, same_value,
    show_meaning, shower, shown, to_number, truthy, unbound,
};

verus! {

/// `f` may be called on any operator and operand bits, and gives one value for each.
pub open spec fn arith_fn<A: Fn(BinaryOp, u64, u64) -> Value>(f: A) -> bool {
    &&& forall|o: BinaryOp, a: u64, b: u64| call_requires(f, (o, a, b))
    &&& forall|o: BinaryOp, a: u64, b: u64, v1: Value, v2: Value|
        #[trigger] call_ensures(f, (o, a, b), v1) && #[trigger] call_ensures(f, (o, a, b), v2) ==> v1@ == v2@
}

/// What `f` gives for operator `o` on the numbers with bits `a` and `b`.
pub open spec fn arith_meaning<A: Fn(BinaryOp, u64, u64) -> Value>(f: A) -> spec_fn(BinaryOp, u64, u64) -> Datum {
    |o: BinaryOp, a: u64, b: u64| (choose|v: Value| call_ensures(f, (o, a, b), v))@
}

/// The numeric work an evaluator hands to its host, where numbers are floats: reading a number
/// from text, writing a number as text, and the arithmetic and ordering operators on two numbers.
pub open spec fn host_fns<R: Fn(&String) -> u64, S: Fn(u64) -> String, A: Fn(BinaryOp, u64, u64) -> Value>(read: R, show: S, arith: A) -> bool {
    reader(read) && shower(show) && arith_fn(arith)
}

/// A binary operator applied to two values.
/// - `==` and `!=` compare kind and content; `&&` and `||` combine truthiness (both sides are
///   always evaluated).
/// - `+` adds two numbers; with text on either side it joins the two printed values; any other
///   pair gives the number 0.
/// - `/` by a divisor that is zero gives positive infinity.
/// - The other operators work on both sides taken as numbers.
pub open spec fn combine(
    read: spec_fn(Seq<char>) -> u64,
    show: spec_fn(u64) -> Seq<char>,
    arith: spec_fn(BinaryOp, u64, u64) -> Datum,
    op: BinaryOp,
    l: Datum,
    r: Datum,
) -> Datum {
    match op {
        BinaryOp::Equals => Datum::Bool(same_value(l, r)),
        BinaryOp::NotEquals => Datum::Bool(!same_value(l, r)),
        BinaryOp::And => Datum::Bool(truthy(l) && truthy(r)),
        BinaryOp::Or => Datum::Bool(truthy(l) || truthy(r)),
        BinaryOp::Add => match (l, r) {
            (Datum::Number(a), Datum::Number(b)) => arith(op, a, b),
            (Datum::Text(_), _) => Datum::Text(shown(show, l) + shown(show, r)),
            (_, Datum::Text(_)) => Datum::Text(shown(show, l) + shown(show, r)),
            _ => Datum::Number(0),
        },
        BinaryOp::Div => {
            let d = to_number(read, r);
            if is_zero_bits(d) {
                Datum::Number(INFINITY)
            } else {
                arith(op, to_number(read, l), d)
            }
        },
        _ => arith(op, to_number(read, l), to_number(read, r)),
    }
}

/// A prefix operator applied to a value: `!` negates truthiness, `-` flips the sign of the
/// value taken as a number.
pub open spec fn apply_unary(read: spec_fn(Seq<char>) -> u64, op: UnaryOp, v: Datum) -> Datum {
    match op {
        UnaryOp::Not => Datum::Bool(!truthy(v)),
        UnaryOp::Minus => Datum::Number(to_number(read, v) ^ SIGN),
    }
}

/// The value of `e` where `env` binds the names; a name bound to nothing is zero.
pub open spec fn value_of(
    read: spec_fn(Seq<char>) -> u64,
    show: spec_fn(u64) -> Seq<char>,
    arith: spec_fn(BinaryOp, u64, u64) -> Datum,
    env: Map<Seq<char>, Datum>,
    e: Expr,
) -> Datum
    decreases e,
{
    match e {
        Expr::Number(n) => Datum::Number(read(n@)),
        Expr::Text(t) => Datum::Text(t@),
        Expr::Bool(b) => Datum::Bool(b),
        Expr::Identifier(n) => if env.contains_key(n@) {
            env[n@]
        } else {
            unbound()
        },
        Expr::Binary { left, op, right } => combine(
            read,
            show,
            arith,
            op,
            value_of(read, show, arith, env, *left),
            value_of(read, show, arith, env, *right),
        ),
        Expr::Unary { op, expr } => apply_unary(read, op, value_of(read, show, arith, env, *expr)),
    }
}

/// Evaluates `e` against `env`; `read`, `show` and `arith` do the work on floats.
pub fn eval_expr<R: Fn(&String) -> u64, S: Fn(u64) -> String, A: Fn(BinaryOp, u64, u64) -> Value>(
    env: &Env,
    e: &Expr,
    read: &R,
    show: &S,
    arith: &A,
) -> (r: Value)
    requires
        host_fns(*read, *show, *arith),
    ensures
        r@ == value_of(read_meaning(*read), show_meaning(*show), arith_meaning(*arith), env@, *e),
    decreases e,
{
    match e {
        Expr::Number(n) => {
            let t = Value::Text(n.clone());
            Value::Number(t.to_number(read))
        },
        Expr::Text(t) => Value::Text(t.clone()),
        Expr::Bool(b) => Value::Bool(*b),
        Expr::Identifier(n) => env.lookup(n),
        Expr::Binary { left, op, right } => {
            let l = eval_expr(env, left, read, show, arith);
            let r = eval_expr(env, right, read, show, arith);
            eval_binary_op(l, *op, r, read, show, arith)
        },
        Expr::Unary { op, expr } => {
            let v = eval_expr(env, expr, read, show, arith);
            eval_unary_op(*op, v, read)
        },
    }
}

/// Hands two numbers to `arith`.
fn numeric<A: Fn(BinaryOp, u64, u64) -> Value>(op: BinaryOp, a: u64, b: u64, arith: &A) -> (r: Value)
    requires
        arith_fn(*arith),
    ensures
        r@ == arith_meaning(*arith)(op, a, b),
{
    let v = arith(op, a, b);
    proof {
        let w = choose|w: Value| call_ensures(*arith, (op, a, b), w);
        assert(call_ensures(*arith, (op, a, b), w));
    }
    v
}

/// Applies a binary operator to two evaluated operands.
pub fn eval_binary_op<R: Fn(&String) -> u64, S: Fn(u64) -> String, A: Fn(BinaryOp, u64, u64) -> Value>(
    left: Value,
    op: BinaryOp,
    right: Value,
    read: &R,
    show: &S,
    arith: &A,
) -> (r: Value)
    requires
        host_fns(*read, *show, *arith),
    ensures
        r@ == combine(read_meaning(*read), show_meaning(*show), arith_meaning(*arith), op, left@, right@),
{
    match op {
        BinaryOp::Equals => Value::Bool(left.equals(&right)),
        BinaryOp::NotEquals => Value::Bool(!left.equals(&right)),
        BinaryOp::And => Value::Bool(left.is_truthy() && right.is_truthy()),
        BinaryOp::Or => Value::Bool(left.is_truthy() || right.is_truthy()),
        BinaryOp::Add => match (&left, &right) {
            (Value::Number(a), Value::Number(b)) => numeric(op, *a, *b, arith),
            (Value::Text(_), _) | (_, Value::Text(_)) => {
                let l = left.show(show);
                let r = right.show(show);
                Value::Text(join(&l, &r))
            },
            _ => Value::Number(0),
        },
        BinaryOp::Div => {
            let d = right.to_number(read);
            if d & 0x7fff_ffff_ffff_ffff == 0 {
                Value::Number(INFINITY)
            } else {
                numeric(op, left.to_number(read), d, arith)
            }
        },
        _ => numeric(op, left.to_number(read), right.to_number(read), arith),
    }
}

/// Applies a prefix operator to an evaluated operand.
pub fn eval_unary_op<R: Fn(&String) -> u64>(op: UnaryOp, v: Value, read: &R) -> (r: Value)
    requires
        reader(*read),
    ensures
        r@ == apply_unary(read_meaning(*read), op, v@),
{
    match op {
        UnaryOp::Not => Value::Bool(!v.is_truthy()),
        UnaryOp::Minus => Value::Number(v.to_number(read) ^ SIGN),
    }
}

} // verus!

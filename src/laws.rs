use vstd::prelude::*;
use crate::ast::{Expr, Statement};
use crate::interp::{FlowControl, Meaning, run_block, run_loop, run_program, run_stmt};
use crate::eval::{combine, value_of};
use crate::ast::BinaryOp;
use crate::value::{Datum, INFINITY, is_zero_bits, shown, to_number, truthy, unbound};

verus! {

/// A declaration, an assignment or a print: a statement that never signals and runs no loop.
pub open spec fn straight(s: Statement) -> bool {
    s is VarDecl || s is Assignment || s is Print || s is Debug
}

/// Every statement of `ss` is straight.
pub open spec fn all_straight(ss: Seq<Statement>) -> bool {
    forall|i: int| 0 <= i < ss.len() ==> straight(#[trigger] ss[i])
}

proof fn lemma_straight_stmt(ev: Meaning, s: Statement, env: Map<Seq<char>, Datum>, log: Seq<(bool, Datum)>, f1: nat, f2: nat)
    requires
        straight(s),
    ensures
        run_stmt(ev, s, env, log, f1) == run_stmt(ev, s, env, log, f2),
        run_stmt(ev, s, env, log, f1).2 == FlowControl::Normal,
{
}

/// Running statements that end with no signal and then `x` is running `x` after them.
proof fn lemma_normal_prefix(ev: Meaning, pre: Seq<Statement>, x: Seq<Statement>, env: Map<Seq<char>, Datum>, log: Seq<(bool, Datum)>, fuel: nat)
    requires
        run_block(ev, pre, env, log, fuel).2 == FlowControl::Normal,
    ensures
        run_block(ev, pre + x, env, log, fuel) == ({
            let (e, l, _) = run_block(ev, pre, env, log, fuel);
            run_block(ev, x, e, l, fuel)
        }),
    decreases pre.len(),
{
    if pre.len() == 0 {
        assert(pre + x =~= x);
    } else {
        let (e, l, _) = run_stmt(ev, pre[0], env, log, fuel);
        let tail = pre.subrange(1, pre.len() as int);
        assert((pre + x)[0] == pre[0]);
        assert((pre + x).subrange(1, (pre + x).len() as int) =~= tail + x);
        lemma_normal_prefix(ev, tail, x, e, l, fuel);
    }
}

/// Straight statements end with no signal.
proof fn lemma_straight_normal(ev: Meaning, pre: Seq<Statement>, env: Map<Seq<char>, Datum>, log: Seq<(bool, Datum)>, fuel: nat)
    requires
        all_straight(pre),
    ensures
        run_block(ev, pre, env, log, fuel).2 == FlowControl::Normal,
    decreases pre.len(),
{
    if pre.len() > 0 {
        let (e, l, _) = run_stmt(ev, pre[0], env, log, fuel);
        lemma_straight_stmt(ev, pre[0], env, log, fuel, fuel);
        let tail = pre.subrange(1, pre.len() as int);
        assert(all_straight(tail)) by {
            assert forall|i: int| 0 <= i < tail.len() implies straight(#[trigger] tail[i]) by {
                assert(tail[i] == pre[i + 1]);
            }
        }
        lemma_straight_normal(ev, tail, e, l, fuel);
    }
}

/// Statements that end with no signal, then a break or continue: the block runs them and hands
/// on that signal.
proof fn lemma_prefix_then(ev: Meaning, pre: Seq<Statement>, sig: Statement, rest: Seq<Statement>, env: Map<Seq<char>, Datum>, log: Seq<(bool, Datum)>, fuel: nat)
    requires
        run_block(ev, pre, env, log, fuel).2 == FlowControl::Normal,
        sig is Break || sig is Continue,
    ensures
        run_block(ev, pre + seq![sig] + rest, env, log, fuel) == ({
            let (e, l, _) = run_block(ev, pre, env, log, fuel);
            (e, l, if sig is Break { FlowControl::Break } else { FlowControl::Continue })
        }),
{
    let x = seq![sig] + rest;
    assert(pre + seq![sig] + rest =~= pre + x);
    lemma_normal_prefix(ev, pre, x, env, log, fuel);
    assert(x[0] == sig);
    let (e, l, _) = run_block(ev, pre, env, log, fuel);
    assert(run_block(ev, x, e, l, fuel) == run_stmt(ev, sig, e, l, fuel));
}

/// Determinism: a program of declarations, assignments and prints, run twice from a fresh
/// environment, emits the same values both times, whatever cap on loop passes each run has.
pub proof fn lemma_straight_program_deterministic(ev: Meaning, ss: Seq<Statement>, f1: nat, f2: nat)
    requires
        all_straight(ss),
    ensures
        run_program(ev, ss, Map::empty(), Seq::empty(), f1) == run_program(ev, ss, Map::empty(), Seq::empty(), f2),
{
    lemma_straight_program(ev, ss, Map::empty(), Seq::empty(), f1, f2);
}

proof fn lemma_straight_program(ev: Meaning, ss: Seq<Statement>, env: Map<Seq<char>, Datum>, log: Seq<(bool, Datum)>, f1: nat, f2: nat)
    requires
        all_straight(ss),
    ensures
        run_program(ev, ss, env, log, f1) == run_program(ev, ss, env, log, f2),
    decreases ss.len(),
{
    if ss.len() > 0 {
        lemma_straight_stmt(ev, ss[0], env, log, f1, f2);
        let (e, l, _) = run_stmt(ev, ss[0], env, log, f1);
        let tail = ss.subrange(1, ss.len() as int);
        assert(all_straight(tail)) by {
            assert forall|i: int| 0 <= i < tail.len() implies straight(#[trigger] tail[i]) by {
                assert(tail[i] == ss[i + 1]);
            }
        }
        lemma_straight_program(ev, tail, e, l, f1, f2);
    }
}

/// Declaring a name twice leaves it bound to the value of the second expression only; every
/// other name keeps its binding.
pub proof fn lemma_redeclare(ev: Meaning, name: String, first: Expr, second: Expr, env: Map<Seq<char>, Datum>, log: Seq<(bool, Datum)>, fuel: nat)
    ensures
        ({
            let s1 = Statement::VarDecl { name: name, value: first };
            let s2 = Statement::VarDecl { name: name, value: second };
            let after = run_block(ev, seq![s1, s2], env, log, fuel).0;
            let mid = env.insert(name@, ev(env, first));
            &&& after == env.insert(name@, ev(mid, second))
            &&& after[name@] == ev(mid, second)
            &&& after.remove(name@) == env.remove(name@)
        }),
{
    let s1 = Statement::VarDecl { name: name, value: first };
    let s2 = Statement::VarDecl { name: name, value: second };
    let ss = seq![s1, s2];
    let mid = env.insert(name@, ev(env, first));
    assert(ss[0] == s1);
    assert(ss.subrange(1, 2) =~= seq![s2]);
    assert(seq![s2].subrange(1, 1) =~= Seq::<Statement>::empty());
    let last = mid.insert(name@, ev(mid, second));
    assert(run_stmt(ev, s1, env, log, fuel) == (mid, log, FlowControl::Normal));
    assert(run_stmt(ev, s2, mid, log, fuel) == (last, log, FlowControl::Normal));
    assert(run_block(ev, Seq::<Statement>::empty(), last, log, fuel) == (last, log, FlowControl::Normal));
    assert(run_block(ev, seq![s2], mid, log, fuel) == (last, log, FlowControl::Normal));
    assert(run_block(ev, ss, env, log, fuel) == (last, log, FlowControl::Normal));
    assert(last =~= env.insert(name@, ev(mid, second)));
    assert(last.remove(name@) =~= env.remove(name@));
}

/// A loop whose body breaks on its first pass, after statements that end with no signal, runs
/// the body once: those statements take effect once, the rest of the body never runs, and the
/// loop ends with no signal.
pub proof fn lemma_break_ends_loop(ev: Meaning, cond: Expr, pre: Seq<Statement>, rest: Seq<Statement>, env: Map<Seq<char>, Datum>, log: Seq<(bool, Datum)>, fuel: nat)
    requires
        run_block(ev, pre, env, log, fuel).2 == FlowControl::Normal,
        fuel > 0,
        truthy(ev(env, cond)),
    ensures
        run_loop(ev, cond, pre + seq![Statement::Break] + rest, env, log, fuel) == ({
            let (e, l, _) = run_block(ev, pre, env, log, fuel);
            (e, l)
        }),
{
    lemma_prefix_then(ev, pre, Statement::Break, rest, env, log, fuel);
}

/// A pass that reaches a continue skips the rest of the body and goes back to the condition.
pub proof fn lemma_continue_rechecks(ev: Meaning, cond: Expr, pre: Seq<Statement>, rest: Seq<Statement>, env: Map<Seq<char>, Datum>, log: Seq<(bool, Datum)>, fuel: nat)
    requires
        run_block(ev, pre, env, log, fuel).2 == FlowControl::Normal,
        fuel > 0,
        truthy(ev(env, cond)),
    ensures
        ({
            let body = pre + seq![Statement::Continue] + rest;
            let (e, l, _) = run_block(ev, pre, env, log, fuel);
            run_loop(ev, cond, body, env, log, fuel) == run_loop(ev, cond, body, e, l, (fuel - 1) as nat)
        }),
{
    lemma_prefix_then(ev, pre, Statement::Continue, rest, env, log, fuel);
}

/// A break inside a conditional inside a loop ends that loop, not only the conditional: what
/// follows the conditional in the body does not run, and no later pass starts.
pub proof fn lemma_break_through_conditional(ev: Meaning, cond: Expr, body: Vec<Statement>, pre: Seq<Statement>, then_rest: Seq<Statement>, env: Map<Seq<char>, Datum>, log: Seq<(bool, Datum)>, fuel: nat)
    requires
        run_block(ev, pre, env, log, fuel).2 == FlowControl::Normal,
        fuel > 0,
        truthy(ev(env, cond)),
        body@.len() > 0,
        body@[0] matches Statement::If { condition, then_body, else_body } && truthy(ev(env, condition))
            && then_body@ == pre + seq![Statement::Break] + then_rest,
    ensures
        run_stmt(ev, Statement::While { condition: cond, body: body }, env, log, fuel) == ({
            let (e, l, _) = run_block(ev, pre, env, log, fuel);
            (e, l, FlowControl::Normal)
        }),
{
    let first = body@[0];
    if let Statement::If { condition, then_body, else_body } = first {
        lemma_prefix_then(ev, pre, Statement::Break, then_rest, env, log, fuel);
        let (e, l, _) = run_block(ev, pre, env, log, fuel);
        assert(run_stmt(ev, first, env, log, fuel) == run_block(ev, then_body@, env, log, fuel));
        assert(run_stmt(ev, first, env, log, fuel) == (e, l, FlowControl::Break));
        assert(run_block(ev, body@, env, log, fuel) == (e, l, FlowControl::Break));
        assert(run_loop(ev, cond, body@, env, log, fuel) == (e, l));
    }
}

/// A name that was never bound evaluates to the number zero, whatever the numeric work is.
pub proof fn lemma_unbound_name(
    read: spec_fn(Seq<char>) -> u64,
    show: spec_fn(u64) -> Seq<char>,
    arith: spec_fn(BinaryOp, u64, u64) -> Datum,
    env: Map<Seq<char>, Datum>,
    name: String,
)
    requires
        !env.contains_key(name@),
    ensures
        value_of(read, show, arith, env, Expr::Identifier(name)) == unbound(),
        unbound() == Datum::Number(0),
{
}

/// `+` with text on either side gives text: the printed left operand followed by the printed
/// right one.
pub proof fn lemma_plus_joins_text(
    read: spec_fn(Seq<char>) -> u64,
    show: spec_fn(u64) -> Seq<char>,
    arith: spec_fn(BinaryOp, u64, u64) -> Datum,
    l: Datum,
    r: Datum,
)
    requires
        l is Text || r is Text,
    ensures
        combine(read, show, arith, BinaryOp::Add, l, r) == Datum::Text(shown(show, l) + shown(show, r)),
{
}

/// Dividing by a value whose number is zero gives positive infinity, whatever the dividend.
pub proof fn lemma_divide_by_zero(
    read: spec_fn(Seq<char>) -> u64,
    show: spec_fn(u64) -> Seq<char>,
    arith: spec_fn(BinaryOp, u64, u64) -> Datum,
    l: Datum,
    r: Datum,
)
    requires
        is_zero_bits(to_number(read, r)),
    ensures
        combine(read, show, arith, BinaryOp::Div, l, r) == Datum::Number(INFINITY),
{
}

} // verus!

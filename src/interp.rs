use vstd::prelude::*;
use crate::ast::{BinaryOp, Expr, Statement};
use crate::eval::{arith_meaning, eval_expr, host_fns, value_of};
use crate::env::Env;
use crate::value::{Datum, Value, read_meaning, show_meaning, truthy};

verus! {

/// What executing a statement tells the code around it.
#[derive(Debug, Clone, Copy, PartialEq, Eq, Structural)]
pub enum FlowControl {
    /// Go on with the next statement.
    Normal,
    /// Leave the nearest enclosing loop.
    Break,
    /// End this pass of the nearest enclosing loop.
    Continue,
}

/// A value emitted by a print: on the primary channel, or on the diagnostic one.
#[derive(Debug)]
pub struct Emit {
    pub diagnostic: bool,
    pub value: Value,
}

impl View for Emit {
    type V = (bool, Datum);

    open spec fn view(&self) -> (bool, Datum) {
        (self.diagnostic, self.value@)
    }
}

/// The meaning of expressions: the value of an expression in an environment.
pub type Meaning = spec_fn(Map<Seq<char>, Datum>, Expr) -> Datum;

/// Runs one statement from environment `env` with emitted values `log`; each loop makes at
/// most `fuel` passes. Gives the environment, the emitted values and the signal after it.
pub open spec fn run_stmt(ev: Meaning, s: Statement, env: Map<Seq<char>, Datum>, log: Seq<(bool, Datum)>, fuel: nat) -> (Map<Seq<char>, Datum>, Seq<(bool, Datum)>, FlowControl)
    decreases fuel, s, 0nat,
{
    match s {
        Statement::VarDecl { name, value } => (env.insert(name@, ev(env, value)), log, FlowControl::Normal),
        Statement::Assignment { name, value } => (env.insert(name@, ev(env, value)), log, FlowControl::Normal),
        Statement::Print(e) => (env, log.push((false, ev(env, e))), FlowControl::Normal),
        Statement::Debug(e) => (env, log.push((true, ev(env, e))), FlowControl::Normal),
        Statement::If { condition, then_body, else_body } => if truthy(ev(env, condition)) {
            run_block(ev, then_body@, env, log, fuel)
        } else {
            match else_body {
                Some(b) => run_block(ev, b@, env, log, fuel),
                None => (env, log, FlowControl::Normal),
            }
        },
        Statement::While { condition, body } => {
            let (e, l) = run_loop(ev, condition, body@, env, log, fuel);
            (e, l, FlowControl::Normal)
        },
        Statement::Break => (env, log, FlowControl::Break),
        Statement::Continue => (env, log, FlowControl::Continue),
    }
}

/// Runs statements in order until one signals break or continue; that signal is handed on.
pub open spec fn run_block(ev: Meaning, ss: Seq<Statement>, env: Map<Seq<char>, Datum>, log: Seq<(bool, Datum)>, fuel: nat) -> (Map<Seq<char>, Datum>, Seq<(bool, Datum)>, FlowControl)
    decreases fuel, ss, 0nat,
{
    if ss.len() == 0 {
        (env, log, FlowControl::Normal)
    } else {
        let (e, l, f) = run_stmt(ev, ss[0], env, log, fuel);
        if f == FlowControl::Normal {
            run_block(ev, ss.subrange(1, ss.len() as int), e, l, fuel)
        } else {
            (e, l, f)
        }
    }
}

/// A loop: while passes are left and the condition is truthy, run the body; break ends the
/// loop, continue ends the pass.
pub open spec fn run_loop(ev: Meaning, cond: Expr, body: Seq<Statement>, env: Map<Seq<char>, Datum>, log: Seq<(bool, Datum)>, fuel: nat) -> (Map<Seq<char>, Datum>, Seq<(bool, Datum)>)
    decreases fuel, body, 1nat,
{
    if fuel == 0 || !truthy(ev(env, cond)) {
        (env, log)
    } else {
        let (e, l, f) = run_block(ev, body, env, log, fuel);
        if f == FlowControl::Break {
            (e, l)
        } else {
            run_loop(ev, cond, body, e, l, (fuel - 1) as nat)
        }
    }
}

/// A whole program: statements in order, stopping early only on a break.
pub open spec fn run_program(ev: Meaning, ss: Seq<Statement>, env: Map<Seq<char>, Datum>, log: Seq<(bool, Datum)>, fuel: nat) -> (Map<Seq<char>, Datum>, Seq<(bool, Datum)>)
    decreases ss.len(),
{
    if ss.len() == 0 {
        (env, log)
    } else {
        let (e, l, f) = run_stmt(ev, ss[0], env, log, fuel);
        if f == FlowControl::Break {
            (e, l)
        } else {
            run_program(ev, ss.subrange(1, ss.len() as int), e, l, fuel)
        }
    }
}

/// The meaning of expressions when `read`, `show` and `arith` do the work on floats.
pub open spec fn meaning_of<R: Fn(&String) -> u64, S: Fn(u64) -> String, A: Fn(BinaryOp, u64, u64) -> Value>(read: R, show: S, arith: A) -> Meaning {
    |m: Map<Seq<char>, Datum>, x: Expr| value_of(read_meaning(read), show_meaning(show), arith_meaning(arith), m, x)
}

/// `f` may be called on anything emitted: it is where prints go as they happen.
pub open spec fn sink<E: Fn(&Emit)>(f: E) -> bool {
    forall|e: &Emit| call_requires(f, (e,))
}

/// Executes statements against one environment; emitted values are collected in `output`.
pub struct Interpreter {
    pub variables: Env,
    pub output: Vec<Emit>,
}

impl Interpreter {
    /// What has been emitted, in order.
    pub open spec fn emitted(&self) -> Seq<(bool, Datum)> {
        self.output@.map_values(|e: Emit| e@)
    }

    pub fn new() -> (r: Interpreter)
        ensures
            r.variables@ == Map::<Seq<char>, Datum>::empty(),
            r.emitted() =~= Seq::<(bool, Datum)>::empty(),
    {
        Interpreter { variables: Env::new(), output: Vec::new() }
    }

    fn eval<R: Fn(&String) -> u64, S: Fn(u64) -> String, A: Fn(BinaryOp, u64, u64) -> Value>(&self, x: &Expr, read: &R, show: &S, arith: &A) -> (r: Value)
        requires
            host_fns(*read, *show, *arith),
        ensures
            r@ == meaning_of(*read, *show, *arith)(self.variables@, *x),
    {
        eval_expr(&self.variables, x, read, show, arith)
    }

    /// Runs statements in order; stops only when one signals break.
    pub fn execute<R: Fn(&String) -> u64, S: Fn(u64) -> String, A: Fn(BinaryOp, u64, u64) -> Value, E: Fn(&Emit)>(&mut self, statements: &Vec<Statement>, read: &R, show: &S, arith: &A, emit: &E, fuel: u64)
        requires
            host_fns(*read, *show, *arith),
            sink(*emit),
        ensures
            (final(self).variables@, final(self).emitted()) == run_program(
                meaning_of(*read, *show, *arith),
                statements@,
                old(self).variables@,
                old(self).emitted(),
                fuel as nat,
            ),
    {
        let ghost ev = meaning_of(*read, *show, *arith);
        let ghost ss = statements@;
        let mut i: usize = 0;
        assert(ss.subrange(0, ss.len() as int) =~= ss);
        while i < statements.len()
            invariant
                i <= ss.len(),
                ss == statements@,
                ev == meaning_of(*read, *show, *arith),
                host_fns(*read, *show, *arith),
                sink(*emit),
                run_program(ev, ss, old(self).variables@, old(self).emitted(), fuel as nat) == run_program(
                    ev,
                    ss.subrange(i as int, ss.len() as int),
                    self.variables@,
                    self.emitted(),
                    fuel as nat,
                ),
            decreases ss.len() - i,
        {
            let ghost rest = ss.subrange(i as int, ss.len() as int);
            assert(rest[0] == ss[i as int]);
            assert(rest.subrange(1, rest.len() as int) =~= ss.subrange(i + 1, ss.len() as int));
            let f = self.execute_statement(&statements[i], read, show, arith, emit, fuel);
            if f == FlowControl::Break {
                return;
            }
            i = i + 1;
        }
        assert(ss.subrange(i as int, ss.len() as int).len() == 0);
    }

    /// Runs statement `i` of a program and says whether the program goes on after it: it stops
    /// only on a break. Running a program step by step this way runs it as `execute` does.
    pub fn execute_step<R: Fn(&String) -> u64, S: Fn(u64) -> String, A: Fn(BinaryOp, u64, u64) -> Value, E: Fn(&Emit)>(&mut self, statements: &Vec<Statement>, i: usize, read: &R, show: &S, arith: &A, emit: &E, fuel: u64) -> (go: bool)
        requires
            host_fns(*read, *show, *arith),
            sink(*emit),
            i < statements@.len(),
        ensures
            ({
                let (e, l, f) = run_stmt(meaning_of(*read, *show, *arith), statements@[i as int], old(self).variables@, old(self).emitted(), fuel as nat);
                &&& final(self).variables@ == e
                &&& final(self).emitted() == l
                &&& go == (f != FlowControl::Break)
            }),
            go ==> run_program(
                meaning_of(*read, *show, *arith),
                statements@.subrange(i as int, statements@.len() as int),
                old(self).variables@,
                old(self).emitted(),
                fuel as nat,
            ) == run_program(
                meaning_of(*read, *show, *arith),
                statements@.subrange(i + 1, statements@.len() as int),
                final(self).variables@,
                final(self).emitted(),
                fuel as nat,
            ),
            !go ==> run_program(
                meaning_of(*read, *show, *arith),
                statements@.subrange(i as int, statements@.len() as int),
                old(self).variables@,
                old(self).emitted(),
                fuel as nat,
            ) == (final(self).variables@, final(self).emitted()),
    {
        let ghost ss = statements@;
        let ghost rest = ss.subrange(i as int, ss.len() as int);
        assert(rest[0] == ss[i as int]);
        assert(rest.subrange(1, rest.len() as int) =~= ss.subrange(i + 1, ss.len() as int));
        let f = self.execute_statement(&statements[i], read, show, arith, emit, fuel);
        f != FlowControl::Break
    }

    /// Runs one statement; each loop in it makes at most `fuel` passes.
    pub fn execute_statement<R: Fn(&String) -> u64, S: Fn(u64) -> String, A: Fn(BinaryOp, u64, u64) -> Value, E: Fn(&Emit)>(&mut self, stmt: &Statement, read: &R, show: &S, arith: &A, emit: &E, fuel: u64) -> (r: FlowControl)
        requires
            host_fns(*read, *show, *arith),
            sink(*emit),
        ensures
            (final(self).variables@, final(self).emitted(), r) == run_stmt(
                meaning_of(*read, *show, *arith),
                *stmt,
                old(self).variables@,
                old(self).emitted(),
                fuel as nat,
            ),
        decreases fuel, *stmt, 0nat,
    {
        match stmt {
            Statement::VarDecl { name, value } => {
                let v = self.eval(value, read, show, arith);
                self.variables.bind(name.clone(), v);
                FlowControl::Normal
            },
            Statement::Assignment { name, value } => {
                let v = self.eval(value, read, show, arith);
                self.variables.bind(name.clone(), v);
                FlowControl::Normal
            },
            Statement::Print(e) => {
                let v = self.eval(e, read, show, arith);
                let item = Emit { diagnostic: false, value: v };
                emit(&item);
                self.output.push(item);
                FlowControl::Normal
            },
            Statement::Debug(e) => {
                let v = self.eval(e, read, show, arith);
                let item = Emit { diagnostic: true, value: v };
                emit(&item);
                self.output.push(item);
                FlowControl::Normal
            },
            Statement::If { condition, then_body, else_body } => {
                let c = self.eval(condition, read, show, arith);
                if c.is_truthy() {
                    self.execute_block(then_body, read, show, arith, emit, fuel)
                } else {
                    match else_body {
                        Some(b) => self.execute_block(b, read, show, arith, emit, fuel),
                        None => FlowControl::Normal,
                    }
                }
            },
            Statement::While { condition, body } => {
                self.execute_loop(condition, body, read, show, arith, emit, fuel);
                FlowControl::Normal
            },
            Statement::Break => FlowControl::Break,
            Statement::Continue => FlowControl::Continue,
        }
    }

    /// Runs statements in order until one signals break or continue, and hands that signal on.
    fn execute_block<R: Fn(&String) -> u64, S: Fn(u64) -> String, A: Fn(BinaryOp, u64, u64) -> Value, E: Fn(&Emit)>(&mut self, stmts: &Vec<Statement>, read: &R, show: &S, arith: &A, emit: &E, fuel: u64) -> (r: FlowControl)
        requires
            host_fns(*read, *show, *arith),
            sink(*emit),
        ensures
            (final(self).variables@, final(self).emitted(), r) == run_block(
                meaning_of(*read, *show, *arith),
                stmts@,
                old(self).variables@,
                old(self).emitted(),
                fuel as nat,
            ),
        decreases fuel, stmts@, 0nat,
    {
        let ghost ev = meaning_of(*read, *show, *arith);
        let ghost ss = stmts@;
        let mut i: usize = 0;
        assert(ss.subrange(0, ss.len() as int) =~= ss);
        while i < stmts.len()
            invariant
                i <= ss.len(),
                ss == stmts@,
                ev == meaning_of(*read, *show, *arith),
                host_fns(*read, *show, *arith),
                sink(*emit),
                run_block(ev, ss, old(self).variables@, old(self).emitted(), fuel as nat) == run_block(
                    ev,
                    ss.subrange(i as int, ss.len() as int),
                    self.variables@,
                    self.emitted(),
                    fuel as nat,
                ),
            decreases ss.len() - i,
        {
            let ghost rest = ss.subrange(i as int, ss.len() as int);
            assert(rest[0] == ss[i as int]);
            assert(rest.subrange(1, rest.len() as int) =~= ss.subrange(i + 1, ss.len() as int));
            let f = self.execute_statement(&stmts[i], read, show, arith, emit, fuel);
            if f != FlowControl::Normal {
                return f;
            }
            i = i + 1;
        }
        assert(ss.subrange(i as int, ss.len() as int).len() == 0);
        FlowControl::Normal
    }

    /// Runs a loop: at most `fuel` passes, each while the condition is truthy.
    fn execute_loop<R: Fn(&String) -> u64, S: Fn(u64) -> String, A: Fn(BinaryOp, u64, u64) -> Value, E: Fn(&Emit)>(&mut self, cond: &Expr, body: &Vec<Statement>, read: &R, show: &S, arith: &A, emit: &E, fuel: u64)
        requires
            host_fns(*read, *show, *arith),
            sink(*emit),
        ensures
            (final(self).variables@, final(self).emitted()) == run_loop(
                meaning_of(*read, *show, *arith),
                *cond,
                body@,
                old(self).variables@,
                old(self).emitted(),
                fuel as nat,
            ),
        decreases fuel, body@, 1nat,
    {
        let ghost ev = meaning_of(*read, *show, *arith);
        let mut passes = fuel;
        loop
            invariant
                passes <= fuel,
                ev == meaning_of(*read, *show, *arith),
                host_fns(*read, *show, *arith),
                sink(*emit),
                run_loop(ev, *cond, body@, old(self).variables@, old(self).emitted(), fuel as nat) == run_loop(
                    ev,
                    *cond,
                    body@,
                    self.variables@,
                    self.emitted(),
                    passes as nat,
                ),
            decreases passes,
        {
            if passes == 0 {
                return;
            }
            let c = self.eval(cond, read, show, arith);
            if !c.is_truthy() {
                return;
            }
            let f = self.execute_block(body, read, show, arith, emit, passes);
            if f == FlowControl::Break {
                return;
            }
            passes = passes - 1;
        }
    }
}

} // verus!

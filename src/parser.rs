use vstd::prelude::*;
use crate::token::Token;
use crate::ast::{BinaryOp, Expr, Statement, UnaryOp};

verus! {

/// The token at index `p` of `ts`; `Eof` past the end.
pub open spec fn tok(ts: Seq<Token>, p: int) -> Token {
    if 0 <= p < ts.len() {
        ts[p]
    } else {
        Token::Eof
    }
}

/// The binary operator that `t` writes at precedence level `level`: 4 is `||`, 3 is `&&`, 2 the
/// comparisons, 1 `+` and `-`, 0 `*`, `/` and `%`.
pub open spec fn level_op(level: nat, t: Token) -> Option<BinaryOp> {
    if level == 4 {
        match t {
            Token::Or => Some(BinaryOp::Or),
            _ => None,
        }
    } else if level == 3 {
        match t {
            Token::And => Some(BinaryOp::And),
            _ => None,
        }
    } else if level == 2 {
        match t {
            Token::EqualEqual => Some(BinaryOp::Equals),
            Token::NotEquals => Some(BinaryOp::NotEquals),
            Token::Greater => Some(BinaryOp::Greater),
            Token::Less => Some(BinaryOp::Less),
            Token::GreaterEq => Some(BinaryOp::GreaterEq),
            Token::LessEq => Some(BinaryOp::LessEq),
            _ => None,
        }
    } else if level == 1 {
        match t {
            Token::Plus => Some(BinaryOp::Add),
            Token::Minus => Some(BinaryOp::Sub),
            _ => None,
        }
    } else {
        match t {
            Token::Star => Some(BinaryOp::Mul),
            Token::Slash => Some(BinaryOp::Div),
            Token::Percent => Some(BinaryOp::Mod),
            _ => None,
        }
    }
}

/// The expression of precedence `level` or tighter that starts at `p`, and where parsing
/// stopped; `None` where no expression could be read.
pub open spec fn binary_at(ts: Seq<Token>, level: nat, p: int) -> (Option<Expr>, int)
    decreases ts.len() - p, 3 * level + 4,
{
    let (l, q) = operand_at(ts, level, p);
    match l {
        Some(e) => if p < q <= ts.len() {
            fold_at(ts, level, e, q)
        } else {
            (None, q)
        },
        None => (None, q),
    }
}

/// An operand of an operator of precedence `level`.
pub open spec fn operand_at(ts: Seq<Token>, level: nat, p: int) -> (Option<Expr>, int)
    decreases ts.len() - p, 3 * level + 3,
{
    if level == 0 {
        unary_at(ts, p)
    } else {
        binary_at(ts, (level - 1) as nat, p)
    }
}

/// Operators of precedence `level` and their right operands, from `q` on, each folded onto
/// `left` as the left operand.
pub open spec fn fold_at(ts: Seq<Token>, level: nat, left: Expr, q: int) -> (Option<Expr>, int)
    decreases ts.len() - q, 3 * level + 2,
{
    match level_op(level, tok(ts, q)) {
        None => (Some(left), q),
        Some(op) => {
            let (r, q2) = operand_at(ts, level, q + 1);
            match r {
                Some(re) => if q < q2 <= ts.len() {
                    fold_at(ts, level, Expr::Binary { left: Box::new(left), op, right: Box::new(re) }, q2)
                } else {
                    (None, q2)
                },
                None => (None, q2),
            }
        },
    }
}

/// Prefix `!` and `-`, stacked, over a primary expression.
pub open spec fn unary_at(ts: Seq<Token>, p: int) -> (Option<Expr>, int)
    decreases ts.len() - p, 1nat,
{
    let op = match tok(ts, p) {
        Token::Not => Some(UnaryOp::Not),
        Token::Minus => Some(UnaryOp::Minus),
        _ => None,
    };
    match op {
        Some(o) => if 0 <= p < ts.len() {
            let (e, q) = unary_at(ts, p + 1);
            match e {
                Some(x) => (Some(Expr::Unary { op: o, expr: Box::new(x) }), q),
                None => (None, q),
            }
        } else {
            (None, p)
        },
        None => primary_at(ts, p),
    }
}

/// A literal, a name, or an expression in parentheses whose `)` may be missing.
pub open spec fn primary_at(ts: Seq<Token>, p: int) -> (Option<Expr>, int)
    decreases ts.len() - p, 0nat,
{
    match tok(ts, p) {
        Token::Number(n) => (Some(Expr::Number(n)), p + 1),
        Token::Text(t) => (Some(Expr::Text(t)), p + 1),
        Token::OngNoCap => (Some(Expr::Bool(true)), p + 1),
        Token::Cap => (Some(Expr::Bool(false)), p + 1),
        Token::Identifier(n) => (Some(Expr::Identifier(n)), p + 1),
        Token::LeftParen => if 0 <= p < ts.len() {
            let (e, q) = binary_at(ts, 4, p + 1);
            match e {
                Some(x) => (Some(x), if tok(ts, q) is RightParen {
                    q + 1
                } else {
                    q
                }),
                None => (None, q),
            }
        } else {
            (None, p)
        },
        _ => (None, p),
    }
}

/// Whether `t` closes a block: `deal`, the end, or `walla` where an else branch may follow.
pub open spec fn ends_block(t: Token, stop_at_else: bool) -> bool {
    t is Deal || t is Eof || (stop_at_else && t is Walla)
}

/// Past the optional marker at `p`: `lakan` when `then_marker`, else `betshil`.
pub open spec fn skip_marker_at(ts: Seq<Token>, p: int, then_marker: bool) -> int {
    if (then_marker && tok(ts, p) is Lakan) || (!then_marker && tok(ts, p) is Betshil) {
        p + 1
    } else {
        p
    }
}

/// `name hiyye expr` at `p`: the name and expression read, and where reading stopped.
pub open spec fn binding_at(ts: Seq<Token>, p: int) -> (Option<(String, Expr)>, int) {
    match tok(ts, p) {
        Token::Identifier(n) => if tok(ts, p + 1) is Hiyye {
            let (e, q) = binary_at(ts, 4, p + 2);
            (
                match e {
                    Some(x) => Some((n, x)),
                    None => None,
                },
                q,
            )
        } else {
            (None, p + 1)
        },
        _ => (None, p),
    }
}

/// Where the expression of a print starts: past `3mol` and an optional `highkey`.
pub open spec fn print_expr_start(ts: Seq<Token>, p: int) -> int {
    if tok(ts, p + 1) is Highkey {
        p + 2
    } else {
        p + 1
    }
}

/// Where a conditional or loop at `p` has its condition parsed: the expression and where it
/// stops.
pub open spec fn condition_at(ts: Seq<Token>, p: int) -> (Option<Expr>, int) {
    binary_at(ts, 4, skip_marker_at(ts, p + 1, false))
}

/// Where the attempt to read a statement at `p` stops (a failed attempt included).
pub open spec fn stmt_end(ts: Seq<Token>, p: int) -> int
    decreases ts.len() - p, 1nat,
{
    match tok(ts, p) {
        Token::Hayde => binding_at(ts, p + 1).1,
        Token::ThreeMol => binary_at(ts, 4, print_expr_start(ts, p)).1,
        Token::Lowkey => binary_at(ts, 4, p + 1).1,
        Token::Identifier(_) => binding_at(ts, p).1,
        Token::Eza => {
            let (c, q) = condition_at(ts, p);
            let b = skip_marker_at(ts, q, true);
            if c is None {
                q
            } else if p < b <= ts.len() {
                let q1 = block_end(ts, b, true);
                let q2 = if tok(ts, q1) is Walla && p < q1 < ts.len() {
                    block_end(ts, q1 + 1, false)
                } else {
                    q1
                };
                if tok(ts, q2) is Deal {
                    q2 + 1
                } else {
                    q2
                }
            } else {
                b
            }
        },
        Token::Khalas => {
            let (c, q) = condition_at(ts, p);
            let b = skip_marker_at(ts, q, true);
            if c is None {
                q
            } else if p < b <= ts.len() {
                let q1 = block_end(ts, b, false);
                if tok(ts, q1) is Deal {
                    q1 + 1
                } else {
                    q1
                }
            } else {
                b
            }
        },
        _ => p + 1,
    }
}

/// Where a block that starts at `p` ends: at the token that closes it.
pub open spec fn block_end(ts: Seq<Token>, p: int, stop_at_else: bool) -> int
    decreases ts.len() - p, 2nat,
{
    if ends_block(tok(ts, p), stop_at_else) {
        p
    } else {
        let q = stmt_end(ts, p);
        if p < q <= ts.len() {
            block_end(ts, q, stop_at_else)
        } else {
            p
        }
    }
}

/// Whether the attempt at `p` yields a statement.
pub open spec fn stmt_ok(ts: Seq<Token>, p: int) -> bool {
    match tok(ts, p) {
        Token::Hayde => binding_at(ts, p + 1).0 is Some,
        Token::ThreeMol => binary_at(ts, 4, print_expr_start(ts, p)).0 is Some,
        Token::Lowkey => binary_at(ts, 4, p + 1).0 is Some,
        Token::Identifier(_) => binding_at(ts, p).0 is Some,
        Token::Eza => condition_at(ts, p).0 is Some,
        Token::Khalas => condition_at(ts, p).0 is Some,
        Token::Yalla => true,
        Token::Waqif => true,
        _ => false,
    }
}

/// `s` is the statement read at `p`.
pub open spec fn stmt_is(ts: Seq<Token>, p: int, s: Statement) -> bool
    decreases ts.len() - p, 1nat,
{
    match tok(ts, p) {
        Token::Hayde => binding_at(ts, p + 1).0 matches Some((n, e)) && s == Statement::VarDecl {
            name: n,
            value: e,
        },
        Token::Identifier(_) => binding_at(ts, p).0 matches Some((n, e)) && s == Statement::Assignment {
            name: n,
            value: e,
        },
        Token::ThreeMol => binary_at(ts, 4, print_expr_start(ts, p)).0 matches Some(e) && s == Statement::Print(e),
        Token::Lowkey => binary_at(ts, 4, p + 1).0 matches Some(e) && s == Statement::Debug(e),
        Token::Yalla => s == Statement::Continue,
        Token::Waqif => s == Statement::Break,
        Token::Eza => {
            let (c, q) = condition_at(ts, p);
            let b = skip_marker_at(ts, q, true);
            &&& p < b <= ts.len()
            &&& s matches Statement::If { condition, then_body, else_body }
            &&& c == Some(condition)
            &&& block_is(ts, b, true, then_body@)
            &&& ({
                let q1 = block_end(ts, b, true);
                if tok(ts, q1) is Walla && p < q1 < ts.len() {
                    else_body matches Some(eb) && block_is(ts, q1 + 1, false, eb@)
                } else {
                    else_body is None
                }
            })
        },
        Token::Khalas => {
            let (c, q) = condition_at(ts, p);
            let b = skip_marker_at(ts, q, true);
            &&& p < b <= ts.len()
            &&& s matches Statement::While { condition, body }
            &&& c == Some(condition)
            &&& block_is(ts, b, false, body@)
        },
        _ => false,
    }
}

/// `ss` are the statements of the block that starts at `p`, failed attempts left out.
pub open spec fn block_is(ts: Seq<Token>, p: int, stop_at_else: bool, ss: Seq<Statement>) -> bool
    decreases ts.len() - p, 2nat,
{
    if ends_block(tok(ts, p), stop_at_else) {
        ss.len() == 0
    } else {
        let q = stmt_end(ts, p);
        &&& p < q <= ts.len()
        &&& if stmt_ok(ts, p) {
            ss.len() > 0 && stmt_is(ts, p, ss[0]) && block_is(ts, q, stop_at_else, ss.drop_first())
        } else {
            block_is(ts, q, stop_at_else, ss)
        }
    }
}

/// `ss` are the statements read from `p` to the end, failed attempts left out.
pub open spec fn program_is(ts: Seq<Token>, p: int, ss: Seq<Statement>) -> bool
    decreases ts.len() - p,
{
    if tok(ts, p) is Eof {
        ss.len() == 0
    } else {
        let q = stmt_end(ts, p);
        &&& p < q <= ts.len()
        &&& if stmt_ok(ts, p) {
            ss.len() > 0 && stmt_is(ts, p, ss[0]) && program_is(ts, q, ss.drop_first())
        } else {
            program_is(ts, q, ss)
        }
    }
}

/// `r` is what the attempt at `p` yields, and `q` where it stops.
pub open spec fn attempt_is(ts: Seq<Token>, p: int, r: Option<Statement>, q: int) -> bool {
    &&& q == stmt_end(ts, p)
    &&& r is Some == stmt_ok(ts, p)
    &&& r matches Some(s) ==> stmt_is(ts, p, s)
}

/// The positions, from `p` on, of the tokens where reading a statement failed.
pub open spec fn failed_at(ts: Seq<Token>, p: int) -> Seq<int>
    decreases ts.len() - p,
{
    if tok(ts, p) is Eof {
        Seq::empty()
    } else {
        let q = stmt_end(ts, p);
        if p < q <= ts.len() {
            (if stmt_ok(ts, p) {
                Seq::empty()
            } else {
                seq![p]
            }) + failed_at(ts, q)
        } else {
            Seq::empty()
        }
    }
}

/// Statements read from `p` on are no more than the tokens left.
pub proof fn lemma_program_length(ts: Seq<Token>, p: int, ss: Seq<Statement>)
    requires
        0 <= p <= ts.len(),
        program_is(ts, p, ss),
    ensures
        ss.len() <= ts.len() - p,
    decreases ts.len() - p,
{
    if !(tok(ts, p) is Eof) {
        let q = stmt_end(ts, p);
        if stmt_ok(ts, p) {
            lemma_program_length(ts, q, ss.drop_first());
        } else {
            lemma_program_length(ts, q, ss);
        }
    }
}

/// Whether `t` can start no statement.
pub open spec fn starts_no_statement(t: Token) -> bool {
    !(t is Hayde || t is ThreeMol || t is Lowkey || t is Eza || t is Khalas || t is Yalla
        || t is Waqif || t is Identifier || t is Eof)
}

/// A token that starts no statement is dropped alone: what is read from it on is exactly what
/// is read from the token after it.
pub proof fn lemma_skip_unparsable(ts: Seq<Token>, p: int, ss: Seq<Statement>)
    requires
        0 <= p < ts.len(),
        starts_no_statement(ts[p]),
    ensures
        program_is(ts, p, ss) == program_is(ts, p + 1, ss),
{
}

/// Builds statements from a token sequence by recursive descent.
pub struct Parser {
    pub tokens: Vec<Token>,
    pub position: usize,
    /// Stands for every position past the last token.
    pub end: Token,
}

impl Parser {
    /// Cursor within bounds.
    pub open spec fn wf(&self) -> bool {
        &&& self.position <= self.tokens.len()
        &&& self.end is Eof
    }

    /// The token under the cursor; `Eof` past the end.
    pub open spec fn at(&self) -> Token {
        if self.position < self.tokens.len() {
            self.tokens@[self.position as int]
        } else {
            self.end
        }
    }

    /// How many tokens are left from the cursor.
    pub open spec fn left(&self) -> int {
        self.tokens.len() - self.position
    }

    /// `next` is `prev` after parsing: same tokens, cursor not moved back.
    pub open spec fn moved_on(prev: &Parser, next: &Parser) -> bool {
        &&& next.wf()
        &&& next.tokens == prev.tokens
        &&& next.end == prev.end
        &&& prev.position <= next.position
    }

    pub fn new(tokens: Vec<Token>) -> (r: Parser)
        ensures
            r.wf(),
            r.tokens == tokens,
            r.position == 0,
    {
        Parser { tokens, position: 0, end: Token::Eof }
    }

    pub fn current_token(&self) -> (r: &Token)
        requires
            self.wf(),
        ensures
            *r == self.at(),
            *r == tok(self.tokens@, self.position as int),
    {
        if self.position < self.tokens.len() {
            &self.tokens[self.position]
        } else {
            &self.end
        }
    }

    pub fn advance(&mut self)
        requires
            old(self).wf(),
            old(self).position < old(self).tokens.len(),
        ensures
            Parser::moved_on(old(self), final(self)),
            final(self).position == old(self).position + 1,
    {
        self.position = self.position + 1;
    }

    fn at_eof(&self) -> (r: bool)
        requires
            self.wf(),
        ensures
            r == self.at() is Eof,
            !r ==> self.position < self.tokens.len(),
    {
        matches!(self.current_token(), Token::Eof)
    }

    /// Parses every statement up to `Eof`, skipping each token that starts none.
    pub fn parse(&mut self) -> (r: Vec<Statement>)
        requires
            old(self).wf(),
        ensures
            Parser::moved_on(old(self), final(self)),
            final(self).at() is Eof,
            program_is(old(self).tokens@, old(self).position as int, r@),
            r@.len() <= old(self).tokens.len() - old(self).position,
    {
        self.parse_reporting().0
    }

    /// Parses as `parse` does, and also gives the position of each token where reading a
    /// statement failed, in order.
    pub fn parse_reporting(&mut self) -> (r: (Vec<Statement>, Vec<usize>))
        requires
            old(self).wf(),
        ensures
            Parser::moved_on(old(self), final(self)),
            final(self).at() is Eof,
            program_is(old(self).tokens@, old(self).position as int, r.0@),
            r.0@.len() <= old(self).tokens.len() - old(self).position,
            r.1@.map_values(|i: usize| i as int) == failed_at(old(self).tokens@, old(self).position as int),
    {
        let ghost ts = self.tokens@;
        let ghost p0 = self.position as int;
        let mut statements: Vec<Statement> = Vec::new();
        let mut skipped: Vec<usize> = Vec::new();
        while !self.at_eof()
            invariant
                Parser::moved_on(old(self), self),
                ts == self.tokens@,
                p0 == old(self).position,
                forall|rest: Seq<Statement>| #[trigger] program_is(ts, self.position as int, rest)
                    ==> program_is(ts, p0, statements@ + rest),
                failed_at(ts, p0) == skipped@.map_values(|i: usize| i as int) + failed_at(ts, self.position as int),
            decreases self.left(),
        {
            let ghost p = self.position as int;
            let ghost before = statements@;
            let ghost skipped_before = skipped@.map_values(|i: usize| i as int);
            let start = self.position;
            let r = self.parse_statement();
            match r {
                Some(stmt) => statements.push(stmt),
                None => skipped.push(start),
            }
            proof {
                assert forall|rest: Seq<Statement>| #[trigger] program_is(ts, self.position as int, rest)
                    implies program_is(ts, p0, statements@ + rest) by {
                    if r is Some {
                        let s1 = seq![statements@.last()] + rest;
                        assert(s1.drop_first() =~= rest);
                        assert(program_is(ts, p, s1));
                        assert(before + s1 =~= statements@ + rest);
                    } else {
                        assert(program_is(ts, p, rest));
                    }
                }
                let q = self.position as int;
                if r is Some {
                    assert(skipped@.map_values(|i: usize| i as int) =~= skipped_before);
                    assert(failed_at(ts, p) =~= failed_at(ts, q));
                } else {
                    assert(skipped@.map_values(|i: usize| i as int) =~= skipped_before.push(p));
                    assert(failed_at(ts, p) =~= seq![p] + failed_at(ts, q));
                    assert(skipped_before + (seq![p] + failed_at(ts, q)) =~= skipped_before.push(p) + failed_at(ts, q));
                }
            }
        }
        proof {
            assert(program_is(ts, self.position as int, Seq::<Statement>::empty()));
            assert(statements@ + Seq::<Statement>::empty() =~= statements@);
            lemma_program_length(ts, p0, statements@);
            assert(skipped@.map_values(|i: usize| i as int) + Seq::<int>::empty() =~= skipped@.map_values(|i: usize| i as int));
        }
        (statements, skipped)
    }

    /// At the end of the tokens nothing is read and the cursor still moves on by one.
    pub fn parse_statement(&mut self) -> (r: Option<Statement>)
        requires
            old(self).end is Eof,
            old(self).position < usize::MAX,
        ensures
            final(self).tokens == old(self).tokens,
            final(self).end == old(self).end,
            old(self).position < final(self).position,
            old(self).position < old(self).tokens.len() ==> Parser::moved_on(old(self), final(self)),
            attempt_is(old(self).tokens@, old(self).position as int, r, final(self).position as int),
        decreases old(self).left(), 3nat,
    {
        if self.position >= self.tokens.len() {
            self.position = self.position + 1;
            return None;
        }
        match self.current_token() {
            Token::Hayde => self.parse_var_decl(),
            Token::ThreeMol => self.parse_print(),
            Token::Lowkey => self.parse_debug(),
            Token::Eza => self.parse_if(),
            Token::Khalas => self.parse_while(),
            Token::Yalla => {
                self.advance();
                Some(Statement::Continue)
            },
            Token::Waqif => {
                self.advance();
                Some(Statement::Break)
            },
            Token::Identifier(_) => self.parse_assignment(),
            _ => {
                self.advance();
                None
            },
        }
    }

    /// Reads an identifier, then `hiyye`, then an expression.
    fn binding(&mut self) -> (r: Option<(String, Expr)>)
        requires
            old(self).wf(),
        ensures
            Parser::moved_on(old(self), final(self)),
                old(self).at() is Identifier ==> old(self).position < final(self).position,
            (r, final(self).position as int) == binding_at(old(self).tokens@, old(self).position as int),
        decreases old(self).left(), 1nat,
    {
        let name = match self.current_token() {
            Token::Identifier(n) => n.clone(),
            _ => {
                return None;
            },
        };
        self.advance();
        if !matches!(self.current_token(), Token::Hiyye) {
            return None;
        }
        self.advance();
        match self.parse_or_expr() {
            Some(value) => Some((name, value)),
            None => None,
        }
    }

    /// `hayde name hiyye expr`.
    pub fn parse_var_decl(&mut self) -> (r: Option<Statement>)
        requires
            old(self).wf(),
            old(self).at() is Hayde,
        ensures
            Parser::moved_on(old(self), final(self)),
            old(self).position < final(self).position,
            attempt_is(old(self).tokens@, old(self).position as int, r, final(self).position as int),
        decreases old(self).left(), 2nat,
    {
        self.advance();
        match self.binding() {
            Some((name, value)) => Some(Statement::VarDecl { name, value }),
            None => None,
        }
    }

    /// `name hiyye expr`.
    pub fn parse_assignment(&mut self) -> (r: Option<Statement>)
        requires
            old(self).wf(),
            old(self).at() is Identifier,
        ensures
            Parser::moved_on(old(self), final(self)),
            old(self).position < final(self).position,
            attempt_is(old(self).tokens@, old(self).position as int, r, final(self).position as int),
        decreases old(self).left(), 2nat,
    {
        match self.binding() {
            Some((name, value)) => Some(Statement::Assignment { name, value }),
            None => None,
        }
    }

    /// `3mol [highkey] expr`.
    pub fn parse_print(&mut self) -> (r: Option<Statement>)
        requires
            old(self).wf(),
            old(self).at() is ThreeMol,
        ensures
            Parser::moved_on(old(self), final(self)),
            old(self).position < final(self).position,
            attempt_is(old(self).tokens@, old(self).position as int, r, final(self).position as int),
        decreases old(self).left(), 2nat,
    {
        self.advance();
        if matches!(self.current_token(), Token::Highkey) {
            self.advance();
        }
        match self.parse_or_expr() {
            Some(e) => Some(Statement::Print(e)),
            None => None,
        }
    }

    /// `lowkey expr`.
    pub fn parse_debug(&mut self) -> (r: Option<Statement>)
        requires
            old(self).wf(),
            old(self).at() is Lowkey,
        ensures
            Parser::moved_on(old(self), final(self)),
            old(self).position < final(self).position,
            attempt_is(old(self).tokens@, old(self).position as int, r, final(self).position as int),
        decreases old(self).left(), 2nat,
    {
        self.advance();
        match self.parse_or_expr() {
            Some(e) => Some(Statement::Debug(e)),
            None => None,
        }
    }

    /// Statements up to the first `deal`, `Eof`, or (when `stop_at_else`) `walla`.
    fn parse_block(&mut self, stop_at_else: bool) -> (r: Vec<Statement>)
        requires
            old(self).wf(),
        ensures
            Parser::moved_on(old(self), final(self)),
            final(self).position == block_end(old(self).tokens@, old(self).position as int, stop_at_else),
            block_is(old(self).tokens@, old(self).position as int, stop_at_else, r@),
            ends_block(final(self).at(), stop_at_else),
        decreases old(self).left(), 4nat,
    {
        let ghost ts = self.tokens@;
        let ghost p0 = self.position as int;
        let mut body: Vec<Statement> = Vec::new();
        while !(matches!(self.current_token(), Token::Deal) || self.at_eof() || (stop_at_else
            && matches!(self.current_token(), Token::Walla)))
            invariant
                Parser::moved_on(old(self), self),
                ts == self.tokens@,
                p0 == old(self).position,
                block_end(ts, p0, stop_at_else) == block_end(ts, self.position as int, stop_at_else),
                forall|rest: Seq<Statement>| #[trigger] block_is(ts, self.position as int, stop_at_else, rest)
                    ==> block_is(ts, p0, stop_at_else, body@ + rest),
            decreases self.left(),
        {
            let ghost p = self.position as int;
            let ghost before = body@;
            let r = self.parse_statement();
            match r {
                Some(stmt) => body.push(stmt),
                None => {},
            }
            proof {
                assert forall|rest: Seq<Statement>| #[trigger] block_is(ts, self.position as int, stop_at_else, rest)
                    implies block_is(ts, p0, stop_at_else, body@ + rest) by {
                    if r is Some {
                        let s1 = seq![body@.last()] + rest;
                        assert(s1.drop_first() =~= rest);
                        assert(block_is(ts, p, stop_at_else, s1));
                        assert(before + s1 =~= body@ + rest);
                    } else {
                        assert(block_is(ts, p, stop_at_else, rest));
                    }
                }
            }
        }
        proof {
            assert(block_is(ts, self.position as int, stop_at_else, Seq::<Statement>::empty()));
            assert(body@ + Seq::<Statement>::empty() =~= body@);
        }
        body
    }

    /// Skips the token under the cursor when it is `Betshil` (`lakan` when `then_marker`).
    fn skip_marker(&mut self, then_marker: bool)
        requires
            old(self).wf(),
        ensures
            Parser::moved_on(old(self), final(self)),
            final(self).position == skip_marker_at(old(self).tokens@, old(self).position as int, then_marker),
    {
        let hit = if then_marker {
            matches!(self.current_token(), Token::Lakan)
        } else {
            matches!(self.current_token(), Token::Betshil)
        };
        if hit {
            self.advance();
        }
    }

    /// `eza [betshil] cond [lakan] stmts [walla stmts] [deal]`.
    pub fn parse_if(&mut self) -> (r: Option<Statement>)
        requires
            old(self).wf(),
            old(self).at() is Eza,
        ensures
            Parser::moved_on(old(self), final(self)),
            old(self).position < final(self).position,
            attempt_is(old(self).tokens@, old(self).position as int, r, final(self).position as int),
        decreases old(self).left(), 2nat,
    {
        self.advance();
        self.skip_marker(false);
        let condition = match self.parse_or_expr() {
            Some(c) => c,
            None => {
                return None;
            },
        };
        self.skip_marker(true);
        let then_body = self.parse_block(true);
        let else_body = if matches!(self.current_token(), Token::Walla) {
            self.advance();
            Some(self.parse_block(false))
        } else {
            None
        };
        if matches!(self.current_token(), Token::Deal) {
            self.advance();
        }
        Some(Statement::If { condition, then_body, else_body })
    }

    /// `khalas [betshil] cond [lakan] stmts [deal]`.
    pub fn parse_while(&mut self) -> (r: Option<Statement>)
        requires
            old(self).wf(),
            old(self).at() is Khalas,
        ensures
            Parser::moved_on(old(self), final(self)),
            old(self).position < final(self).position,
            attempt_is(old(self).tokens@, old(self).position as int, r, final(self).position as int),
        decreases old(self).left(), 2nat,
    {
        self.advance();
        self.skip_marker(false);
        let condition = match self.parse_or_expr() {
            Some(c) => c,
            None => {
                return None;
            },
        };
        self.skip_marker(true);
        let body = self.parse_block(false);
        if matches!(self.current_token(), Token::Deal) {
            self.advance();
        }
        Some(Statement::While { condition, body })
    }

    /// Operands joined by `||`, folded to the left.
    pub fn parse_or_expr(&mut self) -> (r: Option<Expr>)
        requires
            old(self).wf(),
        ensures
            Parser::moved_on(old(self), final(self)),
            r is Some ==> old(self).position < final(self).position,
            (r, final(self).position as int) == binary_at(old(self).tokens@, 4, old(self).position as int),
        decreases old(self).left(), 12nat,
    {
        let ghost ts = self.tokens@;
        let ghost p0 = self.position as int;
        assert(operand_at(ts, 4, p0) == binary_at(ts, 3, p0));
        let mut left = match self.parse_and_expr() {
            Some(e) => e,
            None => {
                return None;
            },
        };
        loop
            invariant
                Parser::moved_on(old(self), self),
                ts == self.tokens@,
                ts == old(self).tokens@,
                p0 == old(self).position,
                old(self).position < self.position,
                binary_at(ts, 4, p0) == fold_at(ts, 4, left, self.position as int),
            decreases self.left(),
        {
            proof {
                assert(operand_at(ts, 4, self.position + 1) == binary_at(ts, 3, self.position + 1));
            }
            let op = match or_op(self.current_token()) {
                Some(op) => op,
                None => {
                    return Some(left);
                },
            };
            self.advance();
            let right = match self.parse_and_expr() {
                Some(e) => e,
                None => {
                    return None;
                },
            };
            left = Expr::Binary { left: Box::new(left), op, right: Box::new(right) };
        }
    }

    /// Operands joined by `&&`, folded to the left.
    pub fn parse_and_expr(&mut self) -> (r: Option<Expr>)
        requires
            old(self).wf(),
        ensures
            Parser::moved_on(old(self), final(self)),
            r is Some ==> old(self).position < final(self).position,
            (r, final(self).position as int) == binary_at(old(self).tokens@, 3, old(self).position as int),
        decreases old(self).left(), 10nat,
    {
        let ghost ts = self.tokens@;
        let ghost p0 = self.position as int;
        assert(operand_at(ts, 3, p0) == binary_at(ts, 2, p0));
        let mut left = match self.parse_comparison_expr() {
            Some(e) => e,
            None => {
                return None;
            },
        };
        loop
            invariant
                Parser::moved_on(old(self), self),
                ts == self.tokens@,
                ts == old(self).tokens@,
                p0 == old(self).position,
                old(self).position < self.position,
                binary_at(ts, 3, p0) == fold_at(ts, 3, left, self.position as int),
            decreases self.left(),
        {
            proof {
                assert(operand_at(ts, 3, self.position + 1) == binary_at(ts, 2, self.position + 1));
            }
            let op = match and_op(self.current_token()) {
                Some(op) => op,
                None => {
                    return Some(left);
                },
            };
            self.advance();
            let right = match self.parse_comparison_expr() {
                Some(e) => e,
                None => {
                    return None;
                },
            };
            left = Expr::Binary { left: Box::new(left), op, right: Box::new(right) };
        }
    }

    /// Operands joined by comparisons, all of one precedence, folded to the left.
    pub fn parse_comparison_expr(&mut self) -> (r: Option<Expr>)
        requires
            old(self).wf(),
        ensures
            Parser::moved_on(old(self), final(self)),
            r is Some ==> old(self).position < final(self).position,
            (r, final(self).position as int) == binary_at(old(self).tokens@, 2, old(self).position as int),
        decreases old(self).left(), 8nat,
    {
        let ghost ts = self.tokens@;
        let ghost p0 = self.position as int;
        assert(operand_at(ts, 2, p0) == binary_at(ts, 1, p0));
        let mut left = match self.parse_additive_expr() {
            Some(e) => e,
            None => {
                return None;
            },
        };
        loop
            invariant
                Parser::moved_on(old(self), self),
                ts == self.tokens@,
                ts == old(self).tokens@,
                p0 == old(self).position,
                old(self).position < self.position,
                binary_at(ts, 2, p0) == fold_at(ts, 2, left, self.position as int),
            decreases self.left(),
        {
            proof {
                assert(operand_at(ts, 2, self.position + 1) == binary_at(ts, 1, self.position + 1));
            }
            let op = match comparison_op(self.current_token()) {
                Some(op) => op,
                None => {
                    return Some(left);
                },
            };
            self.advance();
            let right = match self.parse_additive_expr() {
                Some(e) => e,
                None => {
                    return None;
                },
            };
            left = Expr::Binary { left: Box::new(left), op, right: Box::new(right) };
        }
    }

    /// Operands joined by `+` and `-`, folded to the left.
    pub fn parse_additive_expr(&mut self) -> (r: Option<Expr>)
        requires
            old(self).wf(),
        ensures
            Parser::moved_on(old(self), final(self)),
            r is Some ==> old(self).position < final(self).position,
            (r, final(self).position as int) == binary_at(old(self).tokens@, 1, old(self).position as int),
        decreases old(self).left(), 6nat,
    {
        let ghost ts = self.tokens@;
        let ghost p0 = self.position as int;
        assert(operand_at(ts, 1, p0) == binary_at(ts, 0, p0));
        let mut left = match self.parse_multiplicative_expr() {
            Some(e) => e,
            None => {
                return None;
            },
        };
        loop
            invariant
                Parser::moved_on(old(self), self),
                ts == self.tokens@,
                ts == old(self).tokens@,
                p0 == old(self).position,
                old(self).position < self.position,
                binary_at(ts, 1, p0) == fold_at(ts, 1, left, self.position as int),
            decreases self.left(),
        {
            proof {
                assert(operand_at(ts, 1, self.position + 1) == binary_at(ts, 0, self.position + 1));
            }
            let op = match additive_op(self.current_token()) {
                Some(op) => op,
                None => {
                    return Some(left);
                },
            };
            self.advance();
            let right = match self.parse_multiplicative_expr() {
                Some(e) => e,
                None => {
                    return None;
                },
            };
            left = Expr::Binary { left: Box::new(left), op, right: Box::new(right) };
        }
    }

    /// Operands joined by `*`, `/` and `%`, folded to the left.
    pub fn parse_multiplicative_expr(&mut self) -> (r: Option<Expr>)
        requires
            old(self).wf(),
        ensures
            Parser::moved_on(old(self), final(self)),
            r is Some ==> old(self).position < final(self).position,
            (r, final(self).position as int) == binary_at(old(self).tokens@, 0, old(self).position as int),
        decreases old(self).left(), 4nat,
    {
        let ghost ts = self.tokens@;
        let ghost p0 = self.position as int;
        assert(operand_at(ts, 0, p0) == unary_at(ts, p0));
        let mut left = match self.parse_unary_expr() {
            Some(e) => e,
            None => {
                return None;
            },
        };
        loop
            invariant
                Parser::moved_on(old(self), self),
                ts == self.tokens@,
                ts == old(self).tokens@,
                p0 == old(self).position,
                old(self).position < self.position,
                binary_at(ts, 0, p0) == fold_at(ts, 0, left, self.position as int),
            decreases self.left(),
        {
            proof {
                assert(operand_at(ts, 0, self.position + 1) == unary_at(ts, self.position + 1));
            }
            let op = match multiplicative_op(self.current_token()) {
                Some(op) => op,
                None => {
                    return Some(left);
                },
            };
            self.advance();
            let right = match self.parse_unary_expr() {
                Some(e) => e,
                None => {
                    return None;
                },
            };
            left = Expr::Binary { left: Box::new(left), op, right: Box::new(right) };
        }
    }

    /// Prefix `!` and `-`, stacked, over a primary expression.
    pub fn parse_unary_expr(&mut self) -> (r: Option<Expr>)
        requires
            old(self).wf(),
        ensures
            Parser::moved_on(old(self), final(self)),
            r is Some ==> old(self).position < final(self).position,
            (r, final(self).position as int) == unary_at(old(self).tokens@, old(self).position as int),
        decreases old(self).left(), 3nat,
    {
        let op = match self.current_token() {
            Token::Not => UnaryOp::Not,
            Token::Minus => UnaryOp::Minus,
            _ => {
                return self.parse_primary_expr();
            },
        };
        self.advance();
        match self.parse_unary_expr() {
            Some(e) => Some(Expr::Unary { op, expr: Box::new(e) }),
            None => None,
        }
    }

    /// A literal, an identifier, or a parenthesised expression whose `)` may be missing.
    pub fn parse_primary_expr(&mut self) -> (r: Option<Expr>)
        requires
            old(self).wf(),
        ensures
            Parser::moved_on(old(self), final(self)),
            r is Some ==> old(self).position < final(self).position,
            (r, final(self).position as int) == primary_at(old(self).tokens@, old(self).position as int),
        decreases old(self).left(), 2nat,
    {
        let e = match self.current_token() {
            Token::Number(n) => Expr::Number(n.clone()),
            Token::Text(s) => Expr::Text(s.clone()),
            Token::OngNoCap => Expr::Bool(true),
            Token::Cap => Expr::Bool(false),
            Token::Identifier(n) => Expr::Identifier(n.clone()),
            Token::LeftParen => {
                self.advance();
                let inner = match self.parse_or_expr() {
                    Some(e) => e,
                    None => {
                        return None;
                    },
                };
                if matches!(self.current_token(), Token::RightParen) {
                    self.advance();
                }
                return Some(inner);
            },
            _ => {
                return None;
            },
        };
        self.advance();
        Some(e)
    }
}

fn or_op(t: &Token) -> (r: Option<BinaryOp>)
    ensures
        r == level_op(4, *t),
{
    match t {
        Token::Or => Some(BinaryOp::Or),
        _ => None,
    }
}

fn and_op(t: &Token) -> (r: Option<BinaryOp>)
    ensures
        r == level_op(3, *t),
{
    match t {
        Token::And => Some(BinaryOp::And),
        _ => None,
    }
}

fn comparison_op(t: &Token) -> (r: Option<BinaryOp>)
    ensures
        r == level_op(2, *t),
{
    match t {
        Token::EqualEqual => Some(BinaryOp::Equals),
        Token::NotEquals => Some(BinaryOp::NotEquals),
        Token::Greater => Some(BinaryOp::Greater),
        Token::Less => Some(BinaryOp::Less),
        Token::GreaterEq => Some(BinaryOp::GreaterEq),
        Token::LessEq => Some(BinaryOp::LessEq),
        _ => None,
    }
}

fn additive_op(t: &Token) -> (r: Option<BinaryOp>)
    ensures
        r == level_op(1, *t),
{
    match t {
        Token::Plus => Some(BinaryOp::Add),
        Token::Minus => Some(BinaryOp::Sub),
        _ => None,
    }
}

fn multiplicative_op(t: &Token) -> (r: Option<BinaryOp>)
    ensures
        r == level_op(0, *t),
{
    match t {
        Token::Star => Some(BinaryOp::Mul),
        Token::Slash => Some(BinaryOp::Div),
        Token::Percent => Some(BinaryOp::Mod),
        _ => None,
    }
}

} // verus!

//! The parser: consumes the token stream and produces statements, with
//! precedence-climbing expression parsing. Equal precedence folds
//! immediately, so operators of the same rank group to the left; only a
//! strictly tighter-binding operator defers folding.
//!
//! Each parsing function is specified by a grammar function over the token
//! list (`parse_spec`, `stmt_spec`, `expr_spec`, `atom_spec`, `call_loop_spec`,
//! `op_loop_spec`): on success it returns exactly the tree the grammar
//! derives, with the cursor on the derivation's last token, and on failure
//! exactly the error the grammar assigns, aborting the whole parse with no
//! partial result. Parsing is bounded by a nesting budget, reported as
//! `TooDeep` when exhausted.

use vstd::prelude::*;

verus! {

use crate::ast::{
    Expression,
    Statement,
    Operand,
    operand,
    operand_spec,
    AbsExpr,
    AbsStmt,
    expr_view,
    stmt_view,
    exprs_view,
    stmts_view,
};
use crate::error::ParseError;
use crate::lexer::is_digit;
use crate::strutil::str_eq;
use crate::token::{Token, TokenType};
use crate::traveler::Traveler;
use crate::value::{Value, AbsValue};
use vstd::string::StrSliceExecFns;

broadcast use {
    crate::ast::lemma_exprs_view_len,
    crate::ast::lemma_exprs_view_index,
    crate::ast::lemma_stmts_view_len,
    crate::ast::lemma_stmts_view_index,
};

/// The nesting budget of a parse.
pub const PARSER_FUEL: u64 = 100_000;

/// Folds the decimal digits of `s` from position `i` onto `acc`: `None` on a
/// non-digit or when the value outgrows the 64-bit integer type.
pub open spec fn digits_fold(s: Seq<char>, i: int, acc: int) -> Option<int>
    decreases s.len() - i,
{
    if i < 0 || i >= s.len() {
        Some(acc)
    } else if !is_digit(s[i]) {
        None
    } else {
        let acc2 = acc * 10 + (s[i] as int - 48);
        if acc2 > i64::MAX {
            None
        } else {
            digits_fold(s, i + 1, acc2)
        }
    }
}

/// The integer an integer-literal token denotes: its digits folded in base
/// ten, defined only for non-empty all-digit text whose value fits.
pub open spec fn parse_int_spec(s: Seq<char>) -> Option<int> {
    if s.len() == 0 {
        None
    } else {
        digits_fold(s, 0, 0)
    }
}

/// Reads a non-negative decimal integer literal.
fn parse_int(s: &str) -> (r: Option<i64>)
    ensures
        match r {
            Some(n) => parse_int_spec(s@) == Some(n as int),
            None => parse_int_spec(s@) is None,
        },
{
    let len = s.unicode_len();
    if len == 0 {
        return None;
    }
    let mut acc: i64 = 0;
    let mut i: usize = 0;
    while i < len
        invariant
            0 <= i <= len,
            len == s@.len(),
            0 <= acc,
            digits_fold(s@, 0, 0) == digits_fold(s@, i as int, acc as int),
        decreases len - i,
    {
        let c = s.get_char(i);
        if !('0' <= c && c <= '9') {
            return None;
        }
        let d: u32 = c as u32 - 48;
        let acc2: i128 = acc as i128 * 10 + d as i128;
        if acc2 > i64::MAX as i128 {
            return None;
        }
        acc = acc2 as i64;
        i = i + 1;
    }
    Some(acc)
}

/// One step less of fuel, stopping at zero.
pub open spec fn sub1(n: nat) -> nat {
    if n > 0 {
        (n - 1) as nat
    } else {
        0
    }
}

/// Where the cursor stands after one forward step: it refuses to step past
/// the last token.
pub open spec fn tnext(len: int, p: int) -> int {
    if p + 1 < len {
        p + 1
    } else {
        p
    }
}

/// Where the cursor stands after one backward step.
pub open spec fn tprev(p: int) -> int {
    if p > 0 {
        p - 1
    } else {
        0
    }
}

/// The statement the grammar derives at `p`: a `var` definition — keyword,
/// identifier, `=`, expression — or an expression statement; any other
/// keyword is a fatal error.
pub open spec fn stmt_spec(ts: Seq<Token>, p: int, fuel: nat) -> Result<(AbsStmt, int), ParseError>
    decreases fuel, 0nat,
{
    let len = ts.len() as int;
    if fuel == 0 {
        Err(ParseError::TooDeep)
    } else if ts[p].token_type == TokenType::Keyword {
        if ts[p].content@ == "var"@ {
            let p1 = tnext(len, p);
            if ts[p1].token_type != TokenType::Identifier {
                Err(ParseError::UnexpectedToken(p1 as usize))
            } else {
                let id = ts[p1].content@;
                let p2 = tnext(len, p1);
                if !(ts[p2].token_type == TokenType::Operator && ts[p2].content@ == "="@) {
                    Err(ParseError::UnexpectedSymbol(p2 as usize))
                } else {
                    match expr_spec(ts, tnext(len, p2), (fuel - 1) as nat) {
                        Ok((e, p4)) => Ok((AbsStmt::Definition(id, Box::new(e)), p4)),
                        Err(er) => Err(er),
                    }
                }
            }
        } else {
            Err(ParseError::UnknownKeyword(p as usize))
        }
    } else {
        match expr_spec(ts, p, (fuel - 1) as nat) {
            Ok((e, p1)) => Ok((AbsStmt::Expression(Box::new(e)), p1)),
            Err(er) => Err(er),
        }
    }
}

/// The expression the grammar derives at `p`: an atom, continued as an
/// operator chain when an operator token follows it.
pub open spec fn expr_spec(ts: Seq<Token>, p: int, fuel: nat) -> Result<(AbsExpr, int), ParseError>
    decreases fuel, 0nat,
{
    let len = ts.len() as int;
    if fuel == 0 {
        Err(ParseError::TooDeep)
    } else {
        match atom_spec(ts, p, (fuel - 1) as nat) {
            Err(er) => Err(er),
            Ok((a, p1)) => {
                let p2 = tnext(len, p1);
                if 0 <= p2 < len {
                    if ts[p2].token_type == TokenType::Operator {
                        op_entry_spec(ts, p2, a, (fuel - 1) as nat)
                    } else {
                        Ok((a, tprev(p2)))
                    }
                } else {
                    Ok((a, p2))
                }
            },
        }
    }
}

/// The primary expression the grammar derives at `p`: a literal (boolean
/// text other than `yes` is false; a float literal has no runtime value and
/// is a fatal error), an identifier — possibly a call or the `~` zero-
/// argument call sugar — or a parenthesized expression, possibly called.
pub open spec fn atom_spec(ts: Seq<Token>, p: int, fuel: nat) -> Result<(AbsExpr, int), ParseError>
    decreases fuel, 0nat,
{
    let len = ts.len() as int;
    if fuel == 0 {
        Err(ParseError::TooDeep)
    } else {
        match ts[p].token_type {
            TokenType::IntLiteral => match parse_int_spec(ts[p].content@) {
                Some(n) => Ok((AbsExpr::Atom(AbsValue::Int(n)), p)),
                None => Err(ParseError::BadLiteral(p as usize)),
            },
            TokenType::FloatLiteral => Err(ParseError::BadLiteral(p as usize)),
            TokenType::BoolLiteral => Ok(
                (AbsExpr::Atom(AbsValue::Bool(ts[p].content@ == "yes"@)), p),
            ),
            TokenType::StringLiteral => Ok((AbsExpr::Atom(AbsValue::Str(ts[p].content@)), p)),
            TokenType::CharLiteral => if ts[p].content@.len() > 0 {
                Ok((AbsExpr::Atom(AbsValue::Char(ts[p].content@[0])), p))
            } else {
                Err(ParseError::BadLiteral(p as usize))
            },
            TokenType::Identifier => {
                let name = ts[p].content@;
                if p + 1 < len {
                    let p1 = p + 1;
                    if ts[p1].token_type == TokenType::Symbol {
                        if ts[p1].content@ == "("@ {
                            call_entry_spec(ts, p1, AbsExpr::Ident(name), (fuel - 1) as nat)
                        } else if ts[p1].content@ == "~"@ {
                            Ok((AbsExpr::Call(seq![AbsExpr::Ident(name)]), p1))
                        } else if ts[p1].content@ == ","@ || ts[p1].content@ == ")"@ {
                            Ok((AbsExpr::Ident(name), tprev(p1)))
                        } else {
                            Err(ParseError::UnexpectedSymbol(p1 as usize))
                        }
                    } else {
                        Ok((AbsExpr::Ident(name), tprev(p1)))
                    }
                } else {
                    Ok((AbsExpr::Ident(name), p))
                }
            },
            TokenType::Symbol => if ts[p].content@ == "("@ {
                match expr_spec(ts, tnext(len, p), (fuel - 1) as nat) {
                    Err(er) => Err(er),
                    Ok((e, p2)) => {
                        let p3 = tnext(len, p2);
                        if !(ts[p3].token_type == TokenType::Symbol && ts[p3].content@ == ")"@) {
                            Err(ParseError::UnexpectedSymbol(p3 as usize))
                        } else if p3 + 1 < len {
                            let p4 = p3 + 1;
                            if ts[p4].token_type == TokenType::Symbol && ts[p4].content@
                                == "("@ {
                                call_entry_spec(ts, p4, e, (fuel - 1) as nat)
                            } else {
                                Ok((e, tprev(p4)))
                            }
                        } else {
                            Ok((e, p3))
                        }
                    },
                }
            } else {
                Err(ParseError::UnexpectedSymbol(p as usize))
            },
            _ => Err(ParseError::UnexpectedToken(p as usize)),
        }
    }
}

/// The call the grammar derives with the cursor on the opening parenthesis:
/// the callee-first argument list gathered up to the closing parenthesis.
pub open spec fn call_entry_spec(ts: Seq<Token>, p: int, callee: AbsExpr, fuel: nat) -> Result<
    (AbsExpr, int),
    ParseError,
>
    decreases fuel, fuel + 1nat,
{
    if fuel == 0 {
        Err(ParseError::TooDeep)
    } else {
        call_loop_spec(ts, tnext(ts.len() as int, p), seq![callee], fuel, fuel)
    }
}

/// One round of argument gathering: stop on `)` with the list built so far,
/// otherwise derive one argument expression, skip a comma if one follows,
/// and continue.
pub open spec fn call_loop_spec(
    ts: Seq<Token>,
    p: int,
    args: Seq<AbsExpr>,
    fuel: nat,
    lf: nat,
) -> Result<(AbsExpr, int), ParseError>
    decreases fuel, lf,
{
    let len = ts.len() as int;
    if ts[p].token_type == TokenType::Symbol && ts[p].content@ == ")"@ {
        Ok((AbsExpr::Call(args), p))
    } else if lf == 0 {
        Err(ParseError::TooDeep)
    } else {
        match expr_spec(ts, p, sub1(fuel)) {
            Err(er) => Err(er),
            Ok((e, p2)) => {
                let p3 = tnext(len, p2);
                let p4 = if ts[p3].token_type == TokenType::Symbol && ts[p3].content@ == ","@ {
                    tnext(len, p3)
                } else {
                    p3
                };
                call_loop_spec(ts, p4, args.push(e), fuel, (lf - 1) as nat)
            },
        }
    }
}

/// Folds the top of the two climbing stacks while the incoming precedence
/// rank does not bind strictly tighter than the pending one: the immediate
/// equal-precedence fold that makes equal ranks group to the left.
pub open spec fn fold_ge(ex: Seq<AbsExpr>, ops: Seq<(Operand, u8)>, prec: u8) -> (
    Seq<AbsExpr>,
    Seq<(Operand, u8)>,
)
    decreases ops.len(),
{
    if ops.len() > 0 && ex.len() >= 2 && prec >= ops.last().1 {
        let n = ex.len() as int;
        fold_ge(
            ex.take(n - 2).push(
                AbsExpr::Operation(Box::new(ex[n - 2]), ops.last().0, Box::new(ex[n - 1])),
            ),
            ops.drop_last(),
            prec,
        )
    } else {
        (ex, ops)
    }
}

/// Folds every remaining pending operation, left-to-right.
pub open spec fn fold_all(ex: Seq<AbsExpr>, ops: Seq<(Operand, u8)>) -> Seq<AbsExpr>
    decreases ops.len(),
{
    if ops.len() > 0 && ex.len() >= 2 {
        let n = ex.len() as int;
        fold_all(
            ex.take(n - 2).push(
                AbsExpr::Operation(Box::new(ex[n - 2]), ops.last().0, Box::new(ex[n - 1])),
            ),
            ops.drop_last(),
        )
    } else {
        ex
    }
}

/// The operator chain the grammar derives with the cursor on the first
/// operator after `first`.
pub open spec fn op_entry_spec(ts: Seq<Token>, p: int, first: AbsExpr, fuel: nat) -> Result<
    (AbsExpr, int),
    ParseError,
>
    decreases fuel, fuel + 1nat,
{
    if fuel == 0 {
        Err(ParseError::TooDeep)
    } else {
        match operand_spec(ts[p].content@) {
            None => Err(ParseError::UnknownOperator(p as usize)),
            Some(cur) => op_loop_spec(ts, p, seq![first], Seq::empty(), cur, fuel, fuel),
        }
    }
}

/// One round of precedence climbing with the cursor on an operator token:
/// fold what the incoming rank permits, derive the next atom, and either
/// continue at the next operator or fold everything and stop with the
/// cursor on the chain's last token.
pub open spec fn op_loop_spec(
    ts: Seq<Token>,
    p: int,
    ex: Seq<AbsExpr>,
    ops: Seq<(Operand, u8)>,
    cur: (Operand, u8),
    fuel: nat,
    lf: nat,
) -> Result<(AbsExpr, int), ParseError>
    decreases fuel, lf,
{
    let len = ts.len() as int;
    if lf == 0 {
        Err(ParseError::TooDeep)
    } else {
        let folded = fold_ge(ex, ops, cur.1);
        let ops2 = folded.1.push(cur);
        match atom_spec(ts, tnext(len, p), sub1(fuel)) {
            Err(er) => Err(er),
            Ok((a, pa)) => {
                let ex2 = folded.0.push(a);
                if pa + 1 < len {
                    let pb = pa + 1;
                    if ts[pb].token_type == TokenType::Operator {
                        match operand_spec(ts[pb].content@) {
                            Some(c2) => op_loop_spec(ts, pb, ex2, ops2, c2, fuel, (lf - 1) as nat),
                            None => Err(ParseError::UnknownOperator(pb as usize)),
                        }
                    } else {
                        Ok((fold_all(ex2, ops2).last(), tprev(pb)))
                    }
                } else {
                    Ok((fold_all(ex2, ops2).last(), pa))
                }
            },
        }
    }
}

/// The statement list the grammar derives from `p` on: one statement per
/// step, the cursor advanced one token past each, until at most the
/// trailing sentinel token remains.
pub open spec fn parse_spec(ts: Seq<Token>, p: int, budget: nat, lf: nat) -> Result<
    (Seq<AbsStmt>, int),
    ParseError,
>
    decreases budget + 1nat, lf,
{
    let len = ts.len() as int;
    if p <= len && len - p > 1 {
        if lf == 0 {
            Err(ParseError::TooDeep)
        } else {
            match stmt_spec(ts, p, budget) {
                Err(er) => Err(er),
                Ok((s, p1)) => match parse_spec(ts, tnext(len, p1), budget, (lf - 1) as nat) {
                    Err(er) => Err(er),
                    Ok((rest, pf)) => Ok((seq![s] + rest, pf)),
                },
            }
        }
    } else {
        Ok((Seq::empty(), p))
    }
}

/// Prepends already-parsed statements to the outcome of the rest of the
/// parse.
pub open spec fn parse_prepend(
    done: Seq<AbsStmt>,
    cont: Result<(Seq<AbsStmt>, int), ParseError>,
) -> Result<(Seq<AbsStmt>, int), ParseError> {
    match cont {
        Ok((rest, pf)) => Ok((done + rest, pf)),
        Err(er) => Err(er),
    }
}

/// The parser over a token cursor.
pub struct Parser {
    pub traveler: Traveler,
}

impl Parser {
    /// A parser over a token cursor.
    pub fn new(traveler: Traveler) -> (p: Parser)
        ensures
            p.traveler == traveler,
    {
        Parser { traveler }
    }

    /// Parses the whole stream into statements, exactly as `parse_spec`
    /// derives them under the default nesting budget. Any malformed token
    /// sequence aborts the parse with no partial result.
    pub fn parse(&mut self) -> (r: Result<Vec<Statement>, ParseError>)
        ensures
            final(self).traveler.tokens == old(self).traveler.tokens,
            ({
                let r0 = parse_spec(
                    old(self).traveler.tokens@,
                    old(self).traveler.pos as int,
                    PARSER_FUEL as nat,
                    PARSER_FUEL as nat,
                );
                match r {
                    Ok(ss) => r0 == Ok::<(Seq<AbsStmt>, int), ParseError>(
                        (stmts_view(ss@), final(self).traveler.pos as int),
                    ),
                    Err(e) => r0 == Err::<(Seq<AbsStmt>, int), ParseError>(e),
                }
            }),
    {
        self.parse_with_budget(PARSER_FUEL)
    }

    /// Parses the whole stream on a caller-chosen nesting budget, exactly as
    /// `parse_spec` derives it.
    pub fn parse_with_budget(&mut self, budget: u64) -> (r: Result<Vec<Statement>, ParseError>)
        ensures
            final(self).traveler.tokens == old(self).traveler.tokens,
            ({
                let r0 = parse_spec(
                    old(self).traveler.tokens@,
                    old(self).traveler.pos as int,
                    budget as nat,
                    budget as nat,
                );
                match r {
                    Ok(ss) => r0 == Ok::<(Seq<AbsStmt>, int), ParseError>(
                        (stmts_view(ss@), final(self).traveler.pos as int),
                    ),
                    Err(e) => r0 == Err::<(Seq<AbsStmt>, int), ParseError>(e),
                }
            }),
    {
        let ghost ts0 = self.traveler.tokens@;
        let ghost p0 = self.traveler.pos as int;
        let mut stack: Vec<Statement> = Vec::new();
        let mut lf: u64 = budget;
        proof {
            assert(stmts_view(stack@) =~= Seq::<AbsStmt>::empty());
        }
        while self.traveler.remaining() > 1
            invariant
                self.traveler.tokens == old(self).traveler.tokens,
                ts0 == self.traveler.tokens@,
                p0 == old(self).traveler.pos as int,
                parse_spec(ts0, p0, budget as nat, budget as nat) == parse_prepend(
                    stmts_view(stack@),
                    parse_spec(ts0, self.traveler.pos as int, budget as nat, lf as nat),
                ),
            decreases lf,
        {
            let ghost pc = self.traveler.pos as int;
            let ghost sv = stmts_view(stack@);
            if lf == 0 {
                proof {
                    assert(parse_spec(ts0, pc, budget as nat, 0nat) == Err::<
                        (Seq<AbsStmt>, int),
                        ParseError,
                    >(ParseError::TooDeep));
                }
                return Err(ParseError::TooDeep);
            }
            lf = lf - 1;
            let s = match self.statement(budget) {
                Ok(s) => s,
                Err(e) => {
                    proof {
                        assert(parse_spec(ts0, pc, budget as nat, (lf + 1) as nat) == Err::<
                            (Seq<AbsStmt>, int),
                            ParseError,
                        >(e));
                    }
                    return Err(e);
                },
            };
            let ghost stk0 = stack@;
            stack.push(s);
            self.traveler.next();
            proof {
                assert(stack@.drop_last() =~= stk0);
                assert(stmts_view(stack@) == stmts_view(stk0).push(stmt_view(s)));
                assert(parse_spec(ts0, pc, budget as nat, (lf + 1) as nat) == parse_prepend(
                    seq![stmt_view(s)],
                    parse_spec(ts0, self.traveler.pos as int, budget as nat, lf as nat),
                ));
                match parse_spec(ts0, self.traveler.pos as int, budget as nat, lf as nat) {
                    Ok(okr) => {
                        assert(sv + (seq![stmt_view(s)] + okr.0) =~= stmts_view(stack@) + okr.0);
                    },
                    Err(er) => {},
                }
            }
        }
        proof {
            assert(parse_spec(ts0, self.traveler.pos as int, budget as nat, lf as nat) == Ok::<
                (Seq<AbsStmt>, int),
                ParseError,
            >((Seq::empty(), self.traveler.pos as int)));
            assert(stmts_view(stack@) + Seq::<AbsStmt>::empty() =~= stmts_view(stack@));
        }
        Ok(stack)
    }

    /// Parses one statement, exactly as `stmt_spec` derives it.
    fn statement(&mut self, fuel: u64) -> (r: Result<Statement, ParseError>)
        requires
            old(self).traveler.pos < old(self).traveler.tokens@.len(),
        ensures
            final(self).traveler.tokens == old(self).traveler.tokens,
            final(self).traveler.pos < final(self).traveler.tokens@.len(),
            ({
                let r0 = stmt_spec(
                    old(self).traveler.tokens@,
                    old(self).traveler.pos as int,
                    fuel as nat,
                );
                match r {
                    Ok(s) => r0 == Ok::<(AbsStmt, int), ParseError>(
                        (stmt_view(s), final(self).traveler.pos as int),
                    ),
                    Err(e) => r0 == Err::<(AbsStmt, int), ParseError>(e),
                }
            }),
        decreases fuel,
    {
        if fuel == 0 {
            return Err(ParseError::TooDeep);
        }
        let tt = self.traveler.current().token_type;
        match tt {
            TokenType::Keyword => {
                let kw = self.traveler.current_content();
                if str_eq(kw.as_str(), "var") {
                    self.traveler.next();
                    if !matches!(self.traveler.current().token_type, TokenType::Identifier) {
                        return Err(ParseError::UnexpectedToken(self.traveler.pos));
                    }
                    let id = self.traveler.current_content();
                    self.traveler.next();
                    let eq = self.traveler.current_content();
                    if !(matches!(self.traveler.current().token_type, TokenType::Operator)
                        && str_eq(eq.as_str(), "=")) {
                        return Err(ParseError::UnexpectedSymbol(self.traveler.pos));
                    }
                    self.traveler.next();
                    let expr = self.expression((fuel - 1) as u64)?;
                    Ok(Statement::Definition(id, Box::new(expr)))
                } else {
                    Err(ParseError::UnknownKeyword(self.traveler.pos))
                }
            },
            _ => {
                let expr = self.expression((fuel - 1) as u64)?;
                Ok(Statement::Expression(Box::new(expr)))
            },
        }
    }

    /// Parses one expression, exactly as `expr_spec` derives it.
    fn expression(&mut self, fuel: u64) -> (r: Result<Expression, ParseError>)
        requires
            old(self).traveler.pos < old(self).traveler.tokens@.len(),
        ensures
            final(self).traveler.tokens == old(self).traveler.tokens,
            final(self).traveler.pos < final(self).traveler.tokens@.len(),
            ({
                let r0 = expr_spec(
                    old(self).traveler.tokens@,
                    old(self).traveler.pos as int,
                    fuel as nat,
                );
                match r {
                    Ok(e) => r0 == Ok::<(AbsExpr, int), ParseError>(
                        (expr_view(e), final(self).traveler.pos as int),
                    ),
                    Err(e) => r0 == Err::<(AbsExpr, int), ParseError>(e),
                }
            }),
        decreases fuel,
    {
        if fuel == 0 {
            return Err(ParseError::TooDeep);
        }
        let expr = self.atom((fuel - 1) as u64)?;
        self.traveler.next();
        if self.traveler.remaining() > 0 {
            if matches!(self.traveler.current().token_type, TokenType::Operator) {
                return self.operation(expr, (fuel - 1) as u64);
            }
            self.traveler.prev();
        }
        Ok(expr)
    }

    /// Parses a primary expression, exactly as `atom_spec` derives it.
    fn atom(&mut self, fuel: u64) -> (r: Result<Expression, ParseError>)
        requires
            old(self).traveler.pos < old(self).traveler.tokens@.len(),
        ensures
            final(self).traveler.tokens == old(self).traveler.tokens,
            final(self).traveler.pos < final(self).traveler.tokens@.len(),
            ({
                let r0 = atom_spec(
                    old(self).traveler.tokens@,
                    old(self).traveler.pos as int,
                    fuel as nat,
                );
                match r {
                    Ok(e) => r0 == Ok::<(AbsExpr, int), ParseError>(
                        (expr_view(e), final(self).traveler.pos as int),
                    ),
                    Err(e) => r0 == Err::<(AbsExpr, int), ParseError>(e),
                }
            }),
        decreases fuel,
    {
        if fuel == 0 {
            return Err(ParseError::TooDeep);
        }
        let tt = self.traveler.current().token_type;
        match tt {
            TokenType::IntLiteral => {
                let c = self.traveler.current_content();
                match parse_int(c.as_str()) {
                    Some(n) => Ok(Expression::Atom(Value::IntLiteral(n))),
                    None => Err(ParseError::BadLiteral(self.traveler.pos)),
                }
            },
            TokenType::FloatLiteral => {
                // the machine has no floating-point value to hold it
                Err(ParseError::BadLiteral(self.traveler.pos))
            },
            TokenType::BoolLiteral => {
                let c = self.traveler.current_content();
                Ok(Expression::Atom(Value::BoolLiteral(str_eq(c.as_str(), "yes"))))
            },
            TokenType::StringLiteral => {
                Ok(Expression::Atom(Value::StringLiteral(self.traveler.current_content())))
            },
            TokenType::CharLiteral => {
                let c = self.traveler.current_content();
                if c.as_str().unicode_len() > 0 {
                    Ok(Expression::Atom(Value::CharLiteral(c.as_str().get_char(0))))
                } else {
                    Err(ParseError::BadLiteral(self.traveler.pos))
                }
            },
            TokenType::Identifier => {
                let name = self.traveler.current_content();
                if self.traveler.next() {
                    if matches!(self.traveler.current().token_type, TokenType::Symbol) {
                        let sc = self.traveler.current_content();
                        if str_eq(sc.as_str(), "(") {
                            return self.call(Expression::Identifier(name), (fuel - 1) as u64);
                        } else if str_eq(sc.as_str(), "~") {
                            let mut args: Vec<Expression> = Vec::new();
                            args.push(Expression::Identifier(name));
                            proof {
                                assert(exprs_view(args@) =~= seq![
                                    AbsExpr::Ident(args@[0]->Identifier_0@),
                                ]);
                            }
                            return Ok(Expression::Call(Box::new(args)));
                        } else if str_eq(sc.as_str(), ",") || str_eq(sc.as_str(), ")") {
                        } else {
                            return Err(ParseError::UnexpectedSymbol(self.traveler.pos));
                        }
                    }
                    self.traveler.prev();
                }
                Ok(Expression::Identifier(name))
            },
            TokenType::Symbol => {
                let sc = self.traveler.current_content();
                if str_eq(sc.as_str(), "(") {
                    self.traveler.next();
                    let expr = self.expression((fuel - 1) as u64)?;
                    self.traveler.next();
                    let close = self.traveler.current_content();
                    if !(matches!(self.traveler.current().token_type, TokenType::Symbol) && str_eq(
                        close.as_str(),
                        ")",
                    )) {
                        return Err(ParseError::UnexpectedSymbol(self.traveler.pos));
                    }
                    if self.traveler.next() {
                        let open = self.traveler.current_content();
                        if matches!(self.traveler.current().token_type, TokenType::Symbol)
                            && str_eq(open.as_str(), "(") {
                            return self.call(expr, (fuel - 1) as u64);
                        }
                        self.traveler.prev();
                    }
                    Ok(expr)
                } else {
                    Err(ParseError::UnexpectedSymbol(self.traveler.pos))
                }
            },
            _ => Err(ParseError::UnexpectedToken(self.traveler.pos)),
        }
    }

    /// Parses a call with the cursor on the opening parenthesis, exactly as
    /// `call_entry_spec` derives it: the callee is the first element of the
    /// argument list.
    fn call(&mut self, callee: Expression, fuel: u64) -> (r: Result<Expression, ParseError>)
        requires
            old(self).traveler.pos < old(self).traveler.tokens@.len(),
        ensures
            final(self).traveler.tokens == old(self).traveler.tokens,
            final(self).traveler.pos < final(self).traveler.tokens@.len(),
            ({
                let r0 = call_entry_spec(
                    old(self).traveler.tokens@,
                    old(self).traveler.pos as int,
                    expr_view(callee),
                    fuel as nat,
                );
                match r {
                    Ok(e) => r0 == Ok::<(AbsExpr, int), ParseError>(
                        (expr_view(e), final(self).traveler.pos as int),
                    ),
                    Err(e) => r0 == Err::<(AbsExpr, int), ParseError>(e),
                }
            }),
        decreases fuel,
    {
        let ghost ts0 = self.traveler.tokens@;
        let ghost cv = expr_view(callee);
        if fuel == 0 {
            return Err(ParseError::TooDeep);
        }
        self.traveler.next();
        let mut args: Vec<Expression> = Vec::new();
        args.push(callee);
        let mut lf: u64 = fuel;
        proof {
            assert(exprs_view(args@) =~= seq![cv]);
        }
        loop
            invariant_except_break
                fuel >= 1,
                self.traveler.tokens == old(self).traveler.tokens,
                ts0 == self.traveler.tokens@,
                cv == expr_view(callee),
                self.traveler.pos < self.traveler.tokens@.len(),
                call_entry_spec(ts0, old(self).traveler.pos as int, cv, fuel as nat)
                    == call_loop_spec(
                    ts0,
                    self.traveler.pos as int,
                    exprs_view(args@),
                    fuel as nat,
                    lf as nat,
                ),
            ensures
                self.traveler.tokens == old(self).traveler.tokens,
                ts0 == self.traveler.tokens@,
                cv == expr_view(callee),
                self.traveler.pos < self.traveler.tokens@.len(),
                call_entry_spec(ts0, old(self).traveler.pos as int, cv, fuel as nat) == Ok::<
                    (AbsExpr, int),
                    ParseError,
                >((AbsExpr::Call(exprs_view(args@)), self.traveler.pos as int)),
            decreases lf,
        {
            let ghost pc = self.traveler.pos as int;
            let ghost av = exprs_view(args@);
            let close = self.traveler.current_content();
            if matches!(self.traveler.current().token_type, TokenType::Symbol) && str_eq(
                close.as_str(),
                ")",
            ) {
                proof {
                    assert(call_loop_spec(ts0, pc, av, fuel as nat, lf as nat) == Ok::<
                        (AbsExpr, int),
                        ParseError,
                    >((AbsExpr::Call(av), pc)));
                }
                break ;
            }
            if lf == 0 {
                proof {
                    assert(call_loop_spec(ts0, pc, av, fuel as nat, 0nat) == Err::<
                        (AbsExpr, int),
                        ParseError,
                    >(ParseError::TooDeep));
                }
                return Err(ParseError::TooDeep);
            }
            lf = lf - 1;
            let e = match self.expression((fuel - 1) as u64) {
                Ok(e) => e,
                Err(er) => {
                    proof {
                        assert(call_loop_spec(ts0, pc, av, fuel as nat, (lf + 1) as nat) == Err::<
                            (AbsExpr, int),
                            ParseError,
                        >(er));
                    }
                    return Err(er);
                },
            };
            args.push(e);
            proof {
                assert(args@.drop_last() =~= args@.subrange(0, args@.len() - 1));
                assert(exprs_view(args@) =~= av.push(expr_view(e)));
            }
            self.traveler.next();
            let comma = self.traveler.current_content();
            if matches!(self.traveler.current().token_type, TokenType::Symbol) && str_eq(
                comma.as_str(),
                ",",
            ) {
                self.traveler.next();
            }
            proof {
                assert(call_loop_spec(ts0, pc, av, fuel as nat, (lf + 1) as nat) == call_loop_spec(
                    ts0,
                    self.traveler.pos as int,
                    exprs_view(args@),
                    fuel as nat,
                    lf as nat,
                ));
            }
        }
        Ok(Expression::Call(Box::new(args)))
    }

    /// Parses an operator chain by precedence climbing with two explicit
    /// stacks, exactly as `op_entry_spec` derives it. The expression stack
    /// is folded whenever the incoming operator's precedence is not strictly
    /// tighter than the one on top of the operator stack, which makes equal
    /// precedence left-associative; remaining entries fold left-to-right at
    /// the end.
    fn operation(&mut self, first: Expression, fuel: u64) -> (r: Result<Expression, ParseError>)
        requires
            old(self).traveler.pos < old(self).traveler.tokens@.len(),
        ensures
            final(self).traveler.tokens == old(self).traveler.tokens,
            final(self).traveler.pos < final(self).traveler.tokens@.len(),
            ({
                let r0 = op_entry_spec(
                    old(self).traveler.tokens@,
                    old(self).traveler.pos as int,
                    expr_view(first),
                    fuel as nat,
                );
                match r {
                    Ok(e) => r0 == Ok::<(AbsExpr, int), ParseError>(
                        (expr_view(e), final(self).traveler.pos as int),
                    ),
                    Err(e) => r0 == Err::<(AbsExpr, int), ParseError>(e),
                }
            }),
        decreases fuel,
    {
        let ghost ts0 = self.traveler.tokens@;
        let ghost fv = expr_view(first);
        if fuel == 0 {
            return Err(ParseError::TooDeep);
        }
        let mut ex_stack: Vec<Expression> = Vec::new();
        ex_stack.push(first);
        let mut op_stack: Vec<(Operand, u8)> = Vec::new();
        let c = self.traveler.current_content();
        let mut cur: (Operand, u8) = match operand(c.as_str()) {
            Some(p) => p,
            None => {
                return Err(ParseError::UnknownOperator(self.traveler.pos));
            },
        };
        let mut lf: u64 = fuel;
        proof {
            assert(exprs_view(ex_stack@) =~= seq![fv]);
            assert(op_stack@ =~= Seq::<(Operand, u8)>::empty());
        }
        loop
            invariant_except_break
                fuel >= 1,
                self.traveler.tokens == old(self).traveler.tokens,
                ts0 == self.traveler.tokens@,
                fv == expr_view(first),
                self.traveler.pos < self.traveler.tokens@.len(),
                ex_stack@.len() == op_stack@.len() + 1,
                op_entry_spec(ts0, old(self).traveler.pos as int, fv, fuel as nat)
                    == op_loop_spec(
                    ts0,
                    self.traveler.pos as int,
                    exprs_view(ex_stack@),
                    op_stack@,
                    cur,
                    fuel as nat,
                    lf as nat,
                ),
            ensures
                self.traveler.tokens == old(self).traveler.tokens,
                ts0 == self.traveler.tokens@,
                fv == expr_view(first),
                self.traveler.pos < self.traveler.tokens@.len(),
                ex_stack@.len() == op_stack@.len() + 1,
                op_entry_spec(ts0, old(self).traveler.pos as int, fv, fuel as nat) == Ok::<
                    (AbsExpr, int),
                    ParseError,
                >((fold_all(exprs_view(ex_stack@), op_stack@).last(), self.traveler.pos as int)),
            decreases lf,
        {
            let ghost pc = self.traveler.pos as int;
            let ghost exv0 = exprs_view(ex_stack@);
            let ghost ops0 = op_stack@;
            if lf == 0 {
                proof {
                    assert(op_loop_spec(ts0, pc, exv0, ops0, cur, fuel as nat, 0nat) == Err::<
                        (AbsExpr, int),
                        ParseError,
                    >(ParseError::TooDeep));
                }
                return Err(ParseError::TooDeep);
            }
            lf = lf - 1;
            // a new operator that does not bind strictly tighter folds the
            // pending operation first: equal precedence groups to the left
            while op_stack.len() > 0 && cur.1 >= op_stack[op_stack.len() - 1].1
                invariant
                    ex_stack@.len() == op_stack@.len() + 1,
                    fold_ge(exv0, ops0, cur.1) == fold_ge(
                        exprs_view(ex_stack@),
                        op_stack@,
                        cur.1,
                    ),
                decreases op_stack@.len(),
            {
                let ghost exv = exprs_view(ex_stack@);
                let ghost opv = op_stack@;
                let right = ex_stack.pop().unwrap();
                let left = ex_stack.pop().unwrap();
                let folded = op_stack.pop().unwrap();
                ex_stack.push(Expression::Operation(Box::new(left), folded.0, Box::new(right)));
                proof {
                    let n = exv.len() as int;
                    assert(exprs_view(ex_stack@) =~= exv.take(n - 2).push(
                        AbsExpr::Operation(Box::new(exv[n - 2]), opv.last().0, Box::new(exv[n - 1])),
                    ));
                    assert(op_stack@ =~= opv.drop_last());
                }
            }
            op_stack.push(cur);
            let ghost ops2 = op_stack@;
            self.traveler.next();
            let a = match self.atom((fuel - 1) as u64) {
                Ok(a) => a,
                Err(er) => {
                    proof {
                        assert(op_loop_spec(ts0, pc, exv0, ops0, cur, fuel as nat, (lf + 1) as nat)
                            == Err::<(AbsExpr, int), ParseError>(er));
                    }
                    return Err(er);
                },
            };
            ex_stack.push(a);
            proof {
                assert(ex_stack@.len() == op_stack@.len() + 1);
                assert(exprs_view(ex_stack@) =~= fold_ge(exv0, ops0, cur.1).0.push(expr_view(a)));
                assert(op_stack@ =~= fold_ge(exv0, ops0, cur.1).1.push(cur));
            }
            if self.traveler.next() {
                if matches!(self.traveler.current().token_type, TokenType::Operator) {
                    let c2 = self.traveler.current_content();
                    match operand(c2.as_str()) {
                        Some(p2) => {
                            proof {
                                assert(op_loop_spec(
                                    ts0,
                                    pc,
                                    exv0,
                                    ops0,
                                    cur,
                                    fuel as nat,
                                    (lf + 1) as nat,
                                ) == op_loop_spec(
                                    ts0,
                                    self.traveler.pos as int,
                                    exprs_view(ex_stack@),
                                    op_stack@,
                                    p2,
                                    fuel as nat,
                                    lf as nat,
                                ));
                            }
                            cur = p2;
                        },
                        None => {
                            proof {
                                assert(op_loop_spec(
                                    ts0,
                                    pc,
                                    exv0,
                                    ops0,
                                    cur,
                                    fuel as nat,
                                    (lf + 1) as nat,
                                ) == Err::<(AbsExpr, int), ParseError>(
                                    ParseError::UnknownOperator(self.traveler.pos),
                                ));
                            }
                            return Err(ParseError::UnknownOperator(self.traveler.pos));
                        },
                    }
                } else {
                    self.traveler.prev();
                    proof {
                        assert(op_loop_spec(ts0, pc, exv0, ops0, cur, fuel as nat, (lf + 1) as nat)
                            == Ok::<(AbsExpr, int), ParseError>(
                            (
                                fold_all(exprs_view(ex_stack@), op_stack@).last(),
                                self.traveler.pos as int,
                            ),
                        ));
                    }
                    break ;
                }
            } else {
                proof {
                    assert(op_loop_spec(ts0, pc, exv0, ops0, cur, fuel as nat, (lf + 1) as nat)
                        == Ok::<(AbsExpr, int), ParseError>(
                        (
                            fold_all(exprs_view(ex_stack@), op_stack@).last(),
                            self.traveler.pos as int,
                        ),
                    ));
                }
                break ;
            }
        }
        while op_stack.len() > 0
            invariant
                self.traveler.pos < self.traveler.tokens@.len(),
                self.traveler.tokens == old(self).traveler.tokens,
                ts0 == self.traveler.tokens@,
                fv == expr_view(first),
                ex_stack@.len() == op_stack@.len() + 1,
                op_entry_spec(ts0, old(self).traveler.pos as int, fv, fuel as nat) == Ok::<
                    (AbsExpr, int),
                    ParseError,
                >((fold_all(exprs_view(ex_stack@), op_stack@).last(), self.traveler.pos as int)),
            decreases op_stack@.len(),
        {
            let ghost exv = exprs_view(ex_stack@);
            let ghost opv = op_stack@;
            let right = ex_stack.pop().unwrap();
            let left = ex_stack.pop().unwrap();
            let folded = op_stack.pop().unwrap();
            ex_stack.push(Expression::Operation(Box::new(left), folded.0, Box::new(right)));
            proof {
                let n = exv.len() as int;
                assert(exprs_view(ex_stack@) =~= exv.take(n - 2).push(
                    AbsExpr::Operation(Box::new(exv[n - 2]), opv.last().0, Box::new(exv[n - 1])),
                ));
                assert(op_stack@ =~= opv.drop_last());
            }
        }
        let ghost exf = ex_stack@;
        let result = ex_stack.pop().unwrap();
        proof {
            assert(exf =~= ex_stack@.push(result));
            assert(fold_all(exprs_view(exf), op_stack@) == exprs_view(exf));
            assert(exprs_view(exf) == exprs_view(ex_stack@).push(expr_view(result)));
        }
        Ok(result)
    }
}

} // verus!

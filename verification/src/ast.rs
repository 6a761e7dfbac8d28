//! The abstract syntax tree shared by the parser and the compiler.

use vstd::prelude::*;

verus! {

use crate::strutil::str_eq;
use crate::value::{Value, AbsValue, value_view, strs_view};

/// An expression. An `Operation` stores the syntactically left operand
/// first; a `Call` stores its callee as the first element of the list.
#[derive(Debug, PartialEq)]
pub enum Expression {
    Atom(Value),
    Identifier(String),
    Operation(Box<Expression>, Operand, Box<Expression>),
    Call(Box<Vec<Expression>>),
    Function(Function),
    Return(Option<Box<Expression>>),
}

/// A statement. `Definition` and `Assignment` both bind a name in the global
/// scope; the language does not distinguish first binding from rebinding.
#[derive(Debug, PartialEq)]
pub enum Statement {
    Block(Box<Vec<Statement>>),
    Definition(String, Box<Expression>),
    Expression(Box<Expression>),
    Assignment(String, Box<Expression>),
    If(Box<Expression>, Box<Vec<Statement>>),
    IfElse(Box<Expression>, Box<Vec<Statement>>, Box<Vec<Statement>>),
}

/// A function literal: an optional name, parameter names, and an optional
/// body.
#[derive(Debug, PartialEq)]
pub struct Function {
    pub name: Option<String>,
    pub args: Vec<String>,
    pub body: Option<Vec<Statement>>,
}

impl Function {
    /// Bundles the pieces of a function literal.
    pub fn new(name: Option<String>, args: Vec<String>, body: Option<Vec<Statement>>) -> (f:
        Function)
        ensures
            f.name == name,
            f.args == args,
            f.body == body,
    {
        Function { name, args, body }
    }
}

/// A binary operator of the language.
#[derive(Debug, Clone, Copy, PartialEq, Eq, Structural)]
pub enum Operand {
    Mul,
    Div,
    Plus,
    Minus,
    Equals,
    NEquals,
    Lt,
    Gt,
    LtEquals,
    GtEquals,
}

/// The operator named by an operator token, with its precedence rank:
/// rank 1 binds tightest (`*`, `/`), rank 4 loosest (the comparisons).
pub open spec fn operand_spec(v: Seq<char>) -> Option<(Operand, u8)> {
    if v == "*"@ {
        Some((Operand::Mul, 1u8))
    } else if v == "/"@ {
        Some((Operand::Div, 1u8))
    } else if v == "+"@ {
        Some((Operand::Plus, 2u8))
    } else if v == "-"@ {
        Some((Operand::Minus, 2u8))
    } else if v == "=="@ {
        Some((Operand::Equals, 3u8))
    } else if v == "!="@ {
        Some((Operand::NEquals, 3u8))
    } else if v == "<"@ {
        Some((Operand::Lt, 4u8))
    } else if v == ">"@ {
        Some((Operand::Gt, 4u8))
    } else if v == "<="@ {
        Some((Operand::LtEquals, 4u8))
    } else if v == ">="@ {
        Some((Operand::GtEquals, 4u8))
    } else {
        None
    }
}

/// Maps an operator token to its operator and precedence rank.
pub fn operand(v: &str) -> (r: Option<(Operand, u8)>)
    ensures
        r == operand_spec(v@),
{
    proof {
        reveal_strlit("*");
        reveal_strlit("/");
        reveal_strlit("+");
        reveal_strlit("-");
        reveal_strlit("==");
        reveal_strlit("!=");
        reveal_strlit("<");
        reveal_strlit(">");
        reveal_strlit("<=");
        reveal_strlit(">=");
    }
    if str_eq(v, "*") {
        Some((Operand::Mul, 1))
    } else if str_eq(v, "/") {
        Some((Operand::Div, 1))
    } else if str_eq(v, "+") {
        Some((Operand::Plus, 2))
    } else if str_eq(v, "-") {
        Some((Operand::Minus, 2))
    } else if str_eq(v, "==") {
        Some((Operand::Equals, 3))
    } else if str_eq(v, "!=") {
        Some((Operand::NEquals, 3))
    } else if str_eq(v, "<") {
        Some((Operand::Lt, 4))
    } else if str_eq(v, ">") {
        Some((Operand::Gt, 4))
    } else if str_eq(v, "<=") {
        Some((Operand::LtEquals, 4))
    } else if str_eq(v, ">=") {
        Some((Operand::GtEquals, 4))
    } else {
        None
    }
}

/// The mathematical view of an expression.
pub ghost enum AbsExpr {
    Atom(AbsValue),
    Ident(Seq<char>),
    Operation(Box<AbsExpr>, Operand, Box<AbsExpr>),
    Call(Seq<AbsExpr>),
    Function { name: Option<Seq<char>>, params: Seq<Seq<char>>, body: Option<Seq<AbsStmt>> },
    Return(Option<Box<AbsExpr>>),
}

/// The mathematical view of a statement.
pub ghost enum AbsStmt {
    Block(Seq<AbsStmt>),
    Definition(Seq<char>, Box<AbsExpr>),
    Expression(Box<AbsExpr>),
    Assignment(Seq<char>, Box<AbsExpr>),
    If(Box<AbsExpr>, Seq<AbsStmt>),
    IfElse(Box<AbsExpr>, Seq<AbsStmt>, Seq<AbsStmt>),
}

/// The deep view of an expression.
pub open spec fn expr_view(e: Expression) -> AbsExpr
    decreases e,
{
    match e {
        Expression::Atom(v) => AbsExpr::Atom(value_view(v)),
        Expression::Identifier(n) => AbsExpr::Ident(n@),
        Expression::Operation(l, o, r) => AbsExpr::Operation(
            Box::new(expr_view(*l)),
            o,
            Box::new(expr_view(*r)),
        ),
        Expression::Call(args) => AbsExpr::Call(exprs_view(args@)),
        Expression::Function(f) => AbsExpr::Function {
            name: match f.name {
                Some(n) => Some(n@),
                None => None,
            },
            params: strs_view(f.args@),
            body: match f.body {
                Some(b) => Some(stmts_view(b@)),
                None => None,
            },
        },
        Expression::Return(oe) => AbsExpr::Return(
            match oe {
                Some(e2) => Some(Box::new(expr_view(*e2))),
                None => None,
            },
        ),
    }
}

/// The deep view of an expression list.
pub open spec fn exprs_view(s: Seq<Expression>) -> Seq<AbsExpr>
    decreases s,
{
    if s.len() == 0 {
        Seq::empty()
    } else {
        exprs_view(s.drop_last()).push(expr_view(s.last()))
    }
}

/// The deep view of a statement.
pub open spec fn stmt_view(s: Statement) -> AbsStmt
    decreases s,
{
    match s {
        Statement::Block(ss) => AbsStmt::Block(stmts_view(ss@)),
        Statement::Definition(n, e) => AbsStmt::Definition(n@, Box::new(expr_view(*e))),
        Statement::Expression(e) => AbsStmt::Expression(Box::new(expr_view(*e))),
        Statement::Assignment(n, e) => AbsStmt::Assignment(n@, Box::new(expr_view(*e))),
        Statement::If(c, body) => AbsStmt::If(Box::new(expr_view(*c)), stmts_view(body@)),
        Statement::IfElse(c, body, els) => AbsStmt::IfElse(
            Box::new(expr_view(*c)),
            stmts_view(body@),
            stmts_view(els@),
        ),
    }
}

/// The deep view of a statement list.
pub open spec fn stmts_view(s: Seq<Statement>) -> Seq<AbsStmt>
    decreases s,
{
    if s.len() == 0 {
        Seq::empty()
    } else {
        stmts_view(s.drop_last()).push(stmt_view(s.last()))
    }
}

/// An expression list and its view have the same length.
pub broadcast proof fn lemma_exprs_view_len(s: Seq<Expression>)
    ensures
        (#[trigger] exprs_view(s)).len() == s.len(),
    decreases s.len(),
{
    if s.len() > 0 {
        lemma_exprs_view_len(s.drop_last());
    }
}

/// The view of an expression list is the elementwise view.
pub broadcast proof fn lemma_exprs_view_index(s: Seq<Expression>, i: int)
    requires
        0 <= i < s.len(),
    ensures
        #[trigger] exprs_view(s)[i] == expr_view(s[i]),
    decreases s.len(),
{
    lemma_exprs_view_len(s);
    if i < s.len() - 1 {
        lemma_exprs_view_index(s.drop_last(), i);
        lemma_exprs_view_len(s.drop_last());
    }
}

/// A statement list and its view have the same length.
pub broadcast proof fn lemma_stmts_view_len(s: Seq<Statement>)
    ensures
        (#[trigger] stmts_view(s)).len() == s.len(),
    decreases s.len(),
{
    if s.len() > 0 {
        lemma_stmts_view_len(s.drop_last());
    }
}

/// The view of a statement list is the elementwise view.
pub broadcast proof fn lemma_stmts_view_index(s: Seq<Statement>, i: int)
    requires
        0 <= i < s.len(),
    ensures
        #[trigger] stmts_view(s)[i] == stmt_view(s[i]),
    decreases s.len(),
{
    lemma_stmts_view_len(s);
    if i < s.len() - 1 {
        lemma_stmts_view_index(s.drop_last(), i);
        lemma_stmts_view_len(s.drop_last());
    }
}

} // verus!

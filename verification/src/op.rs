//! Bytecode instructions and their mathematical view.

use vstd::prelude::*;

verus! {

use crate::value::{Value, AbsValue, value_view};

/// A bytecode instruction. A compiled program is an immutable ordered
/// sequence of these. A jump offset is added to the index of the jump
/// instruction itself, so an offset of one reaches the next instruction;
/// the compiler's `body length + 1` offsets only work under this rule.
#[derive(Debug, PartialEq)]
pub enum Op {
    Value(Value),
    Add,
    Sub,
    Mul,
    Div,
    Equals,
    NEquals,
    Lt,
    Gt,
    LtEquals,
    GtEquals,
    Return,
    Define,
    Call,
    JumpUnless(i32),
    JumpIf(i32),
    Jump(i32),
    Name(String),
}

/// The mathematical view of an instruction.
pub ghost enum AbsOp {
    Value(AbsValue),
    Add,
    Sub,
    Mul,
    Div,
    Equals,
    NEquals,
    Lt,
    Gt,
    LtEquals,
    GtEquals,
    Return,
    Define,
    Call,
    JumpUnless(int),
    JumpIf(int),
    Jump(int),
    Name(Seq<char>),
}

/// The deep view of an instruction.
pub open spec fn op_view(op: Op) -> AbsOp
    decreases op,
{
    match op {
        Op::Value(v) => AbsOp::Value(value_view(v)),
        Op::Add => AbsOp::Add,
        Op::Sub => AbsOp::Sub,
        Op::Mul => AbsOp::Mul,
        Op::Div => AbsOp::Div,
        Op::Equals => AbsOp::Equals,
        Op::NEquals => AbsOp::NEquals,
        Op::Lt => AbsOp::Lt,
        Op::Gt => AbsOp::Gt,
        Op::LtEquals => AbsOp::LtEquals,
        Op::GtEquals => AbsOp::GtEquals,
        Op::Return => AbsOp::Return,
        Op::Define => AbsOp::Define,
        Op::Call => AbsOp::Call,
        Op::JumpUnless(n) => AbsOp::JumpUnless(n as int),
        Op::JumpIf(n) => AbsOp::JumpIf(n as int),
        Op::Jump(n) => AbsOp::Jump(n as int),
        Op::Name(s) => AbsOp::Name(s@),
    }
}

/// The deep view of a program.
pub open spec fn ops_view(s: Seq<Op>) -> Seq<AbsOp>
    decreases s,
{
    if s.len() == 0 {
        Seq::empty()
    } else {
        ops_view(s.drop_last()).push(op_view(s.last()))
    }
}

/// A program and its view have the same length.
pub broadcast proof fn lemma_ops_view_len(s: Seq<Op>)
    ensures
        (#[trigger] ops_view(s)).len() == s.len(),
    decreases s.len(),
{
    if s.len() > 0 {
        lemma_ops_view_len(s.drop_last());
    }
}

/// The view of a program is the elementwise view.
pub broadcast proof fn lemma_ops_view_index(s: Seq<Op>, i: int)
    requires
        0 <= i < s.len(),
    ensures
        #[trigger] ops_view(s)[i] == op_view(s[i]),
    decreases s.len(),
{
    lemma_ops_view_len(s);
    if i < s.len() - 1 {
        lemma_ops_view_index(s.drop_last(), i);
        lemma_ops_view_len(s.drop_last());
    }
}

/// The view of a concatenation is the concatenation of the views.
pub proof fn lemma_ops_view_concat(a: Seq<Op>, b: Seq<Op>)
    ensures
        ops_view(a + b) == ops_view(a) + ops_view(b),
    decreases b.len(),
{
    if b.len() == 0 {
        assert(a + b =~= a);
        lemma_ops_view_len(a);
        assert(ops_view(a) + ops_view(b) =~= ops_view(a));
    } else {
        lemma_ops_view_concat(a, b.drop_last());
        assert((a + b).drop_last() =~= a + b.drop_last());
        assert((a + b).last() == b.last());
        assert(ops_view(a) + ops_view(b) =~= (ops_view(a) + ops_view(b.drop_last())).push(
            op_view(b.last()),
        ));
    }
}

impl Clone for Op {
    /// A clone keeps the instruction's view.
    fn clone(&self) -> (r: Op)
        ensures
            op_view(r) == op_view(*self),
        decreases *self,
    {
        match self {
            Op::Value(v) => Op::Value(v.clone()),
            Op::Add => Op::Add,
            Op::Sub => Op::Sub,
            Op::Mul => Op::Mul,
            Op::Div => Op::Div,
            Op::Equals => Op::Equals,
            Op::NEquals => Op::NEquals,
            Op::Lt => Op::Lt,
            Op::Gt => Op::Gt,
            Op::LtEquals => Op::LtEquals,
            Op::GtEquals => Op::GtEquals,
            Op::Return => Op::Return,
            Op::Define => Op::Define,
            Op::Call => Op::Call,
            Op::JumpUnless(n) => Op::JumpUnless(*n),
            Op::JumpIf(n) => Op::JumpIf(*n),
            Op::Jump(n) => Op::Jump(*n),
            Op::Name(s) => Op::Name(s.clone()),
        }
    }
}

} // verus!

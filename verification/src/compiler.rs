//! The compiler: lowers the AST to a linear bytecode program with relative
//! jump offsets, specified exactly by `compile_expr` / `compile_stmts`.
//!
//! Expression compilation is post-order with right-then-left operand order:
//! the syntactically right operand's code is emitted first, so at run time
//! the left operand sits on top of the stack.

use vstd::prelude::*;

verus! {

use crate::ast::{Expression, Statement, Function, Operand};
use crate::op::{Op, AbsOp, op_view, ops_view, lemma_ops_view_concat, lemma_ops_view_len};
use crate::value::{Value, Object, AbsValue, AbsObject, value_view, strs_view, clone_strings};

/// The instruction a binary operator compiles to.
pub open spec fn op_of_operand(o: Operand) -> AbsOp {
    match o {
        Operand::Plus => AbsOp::Add,
        Operand::Minus => AbsOp::Sub,
        Operand::Mul => AbsOp::Mul,
        Operand::Div => AbsOp::Div,
        Operand::Equals => AbsOp::Equals,
        Operand::NEquals => AbsOp::NEquals,
        Operand::Lt => AbsOp::Lt,
        Operand::Gt => AbsOp::Gt,
        Operand::LtEquals => AbsOp::LtEquals,
        Operand::GtEquals => AbsOp::GtEquals,
    }
}

/// The argument count a call pushes: one less than the list length (the
/// callee is the first element), clipped to the integer instruction type.
pub open spec fn call_count(len: int) -> int {
    if len == 0 {
        -1
    } else if len - 1 <= i64::MAX {
        len - 1
    } else {
        i64::MAX as int
    }
}

/// A forward jump offset: the body length plus one, clipped to the offset
/// type.
pub open spec fn jump_off(len: int) -> int {
    if len + 1 <= i32::MAX {
        len + 1
    } else {
        i32::MAX as int
    }
}

/// The code an expression compiles to.
pub open spec fn compile_expr(e: Expression) -> Seq<AbsOp>
    decreases e,
{
    match e {
        Expression::Atom(v) => seq![AbsOp::Value(value_view(v))],
        Expression::Identifier(n) => seq![AbsOp::Name(n@)],
        Expression::Operation(l, o, r) => compile_expr(*r) + compile_expr(*l) + seq![
            op_of_operand(o),
        ],
        Expression::Call(args) => compile_exprs(args@) + seq![
            AbsOp::Value(AbsValue::Int(call_count(args@.len() as int))),
            AbsOp::Call,
        ],
        Expression::Function(f) => {
            let body = match f.body {
                Some(b) => compile_stmts(b@),
                None => seq![AbsOp::Value(AbsValue::Nil)],
            };
            let obj = AbsOp::Value(
                AbsValue::Obj(AbsObject::Function { params: strs_view(f.args@), body }),
            );
            match f.name {
                Some(nm) => seq![obj, AbsOp::Value(AbsValue::Str(nm@)), AbsOp::Define],
                None => seq![obj],
            }
        },
        Expression::Return(oe) => (match oe {
            Some(e2) => compile_expr(*e2),
            None => seq![AbsOp::Value(AbsValue::Nil)],
        }) + seq![AbsOp::Return],
    }
}

/// The code a list of expressions compiles to, in order.
pub open spec fn compile_exprs(es: Seq<Expression>) -> Seq<AbsOp>
    decreases es,
{
    if es.len() == 0 {
        Seq::empty()
    } else {
        compile_exprs(es.drop_last()) + compile_expr(es.last())
    }
}

/// The code one statement compiles to. An `If` re-emits its condition after
/// the body; an `IfElse` additionally guards the else branch with a `JumpIf`
/// over the re-evaluated condition.
pub open spec fn compile_stmt(s: Statement) -> Seq<AbsOp>
    decreases s,
{
    match s {
        Statement::Expression(e) => compile_expr(*e),
        Statement::Block(ss) => compile_stmts(ss@),
        Statement::Definition(nm, e) => compile_expr(*e) + seq![
            AbsOp::Value(AbsValue::Str(nm@)),
            AbsOp::Define,
        ],
        Statement::Assignment(nm, e) => compile_expr(*e) + seq![
            AbsOp::Value(AbsValue::Str(nm@)),
            AbsOp::Define,
        ],
        Statement::If(c, body) => {
            let cv = compile_expr(*c);
            let b = compile_stmts(body@);
            cv + seq![AbsOp::JumpUnless(jump_off(b.len() as int))] + b + cv
        },
        Statement::IfElse(c, body, els) => {
            let cv = compile_expr(*c);
            let b = compile_stmts(body@);
            let eb = compile_stmts(els@);
            cv + seq![AbsOp::JumpUnless(jump_off(b.len() as int))] + b + cv + seq![
                AbsOp::JumpIf(jump_off(eb.len() as int)),
            ] + eb
        },
    }
}

/// The code a statement list compiles to, in order.
pub open spec fn compile_stmts(ss: Seq<Statement>) -> Seq<AbsOp>
    decreases ss,
{
    if ss.len() == 0 {
        Seq::empty()
    } else {
        compile_stmts(ss.drop_last()) + compile_stmt(ss.last())
    }
}

/// Appends one instruction.
fn emit(script: &mut Vec<Op>, op: Op)
    ensures
        ops_view(final(script)@) == ops_view(old(script)@).push(op_view(op)),
{
    let ghost s0 = script@;
    let ghost ov = op_view(op);
    script.push(op);
    proof {
        assert(script@.drop_last() =~= s0);
    }
}

/// Compiles one expression, appending its code to `script`.
#[verifier::rlimit(100)]
pub fn expression(script: &mut Vec<Op>, expr: &Expression)
    ensures
        ops_view(final(script)@) == ops_view(old(script)@) + compile_expr(*expr),
    decreases *expr, 0nat,
{
    let ghost s0 = ops_view(script@);
    match expr {
        Expression::Atom(v) => {
            emit(script, Op::Value(v.clone()));
            proof {
                assert(s0.push(AbsOp::Value(value_view(*v))) =~= s0 + compile_expr(*expr));
            }
        },
        Expression::Identifier(n) => {
            emit(script, Op::Name(n.clone()));
            proof {
                assert(s0.push(AbsOp::Name(n@)) =~= s0 + compile_expr(*expr));
            }
        },
        Expression::Operation(l, o, r) => {
            expression(script, r);
            expression(script, l);
            let instr = match o {
                Operand::Plus => Op::Add,
                Operand::Minus => Op::Sub,
                Operand::Mul => Op::Mul,
                Operand::Div => Op::Div,
                Operand::Equals => Op::Equals,
                Operand::NEquals => Op::NEquals,
                Operand::Lt => Op::Lt,
                Operand::Gt => Op::Gt,
                Operand::LtEquals => Op::LtEquals,
                Operand::GtEquals => Op::GtEquals,
            };
            emit(script, instr);
            proof {
                assert(((s0 + compile_expr(**r)) + compile_expr(**l)).push(op_of_operand(*o)) =~= s0
                    + (compile_expr(**r) + compile_expr(**l) + seq![op_of_operand(*o)]));
            }
        },
        Expression::Call(args) => {
            let mut i: usize = 0;
            proof {
                assert(compile_exprs(args@.take(0)).len() == 0);
                assert(s0 + compile_exprs(args@.take(0)) =~= s0);
                assert(decreases_to!(*expr => **args));
                assert(decreases_to!(**args => args@));
            }
            while i < args.len()
                invariant
                    i <= args@.len(),
                    ops_view(script@) == s0 + compile_exprs(args@.take(i as int)),
                    decreases_to!(*expr => args@),
                decreases args@.len() - i,
            {
                proof {
                    assert(decreases_to!(args@ => args@[i as int]));
                }
                expression(script, &args[i]);
                proof {
                    assert(args@.take(i as int + 1).drop_last() =~= args@.take(i as int));
                    assert(args@.take(i as int + 1).last() == args@[i as int]);
                    assert(s0 + compile_exprs(args@.take(i as int)) + compile_expr(args@[i as int])
                        =~= s0 + compile_exprs(args@.take(i as int + 1)));
                }
                i = i + 1;
            }
            proof {
                assert(args@.take(args@.len() as int) =~= args@);
            }
            let m = args.len();
            let cnt: i64 = if m == 0 {
                -1
            } else if (m as u64) - 1 <= i64::MAX as u64 {
                (m - 1) as i64
            } else {
                i64::MAX
            };
            emit(script, Op::Value(Value::IntLiteral(cnt)));
            emit(script, Op::Call);
            proof {
                assert((s0 + compile_exprs(args@)).push(
                    AbsOp::Value(AbsValue::Int(call_count(args@.len() as int))),
                ).push(AbsOp::Call) =~= s0 + compile_expr(*expr));
            }
        },
        Expression::Function(f) => {
            let mut body_ops: Vec<Op> = Vec::new();
            match &f.body {
                Some(b) => {
                    proof {
                        assert(ops_view(body_ops@).len() == 0);
                        assert(ops_view(body_ops@) =~= Seq::<AbsOp>::empty() + ops_view(
                            body_ops@,
                        ));
                        assert(decreases_to!(*expr => *f));
                        assert(decreases_to!(*f => f.body));
                        assert(decreases_to!(f.body => *b));
                        assert(decreases_to!(*b => b@));
                    }
                    statements_into(&mut body_ops, b);
                    proof {
                        assert(Seq::<AbsOp>::empty() + compile_stmts(b@) =~= compile_stmts(b@));
                    }
                },
                None => {
                    emit(&mut body_ops, Op::Value(Value::Nil));
                    proof {
                        assert(ops_view(body_ops@) =~= seq![AbsOp::Value(AbsValue::Nil)]);
                    }
                },
            }
            let obj = Object::Function { args: clone_strings(&f.args), body: body_ops };
            emit(script, Op::Value(Value::Object(obj)));
            match &f.name {
                Some(nm) => {
                    emit(script, Op::Value(Value::StringLiteral(nm.clone())));
                    emit(script, Op::Define);
                },
                None => {},
            }
            proof {
                assert(ops_view(script@) =~= s0 + compile_expr(*expr));
            }
        },
        Expression::Return(oe) => {
            match oe {
                Some(e2) => {
                    expression(script, e2);
                },
                None => {
                    emit(script, Op::Value(Value::Nil));
                    proof {
                        assert(s0.push(AbsOp::Value(AbsValue::Nil)) =~= s0 + seq![
                            AbsOp::Value(AbsValue::Nil),
                        ]);
                    }
                },
            }
            emit(script, Op::Return);
            proof {
                assert(ops_view(script@) =~= s0 + compile_expr(*expr));
            }
        },
    }
}

/// Compiles a name binding: the expression's code, the name as a string
/// literal, then `Define`.
fn assignment(script: &mut Vec<Op>, name: &String, expr: &Expression)
    ensures
        ops_view(final(script)@) == ops_view(old(script)@) + compile_expr(*expr) + seq![
            AbsOp::Value(AbsValue::Str(name@)),
            AbsOp::Define,
        ],
    decreases *expr, 1nat,
{
    let ghost s0 = ops_view(script@);
    expression(script, expr);
    emit(script, Op::Value(Value::StringLiteral(name.clone())));
    emit(script, Op::Define);
    proof {
        assert(ops_view(script@) =~= s0 + compile_expr(*expr) + seq![
            AbsOp::Value(AbsValue::Str(name@)),
            AbsOp::Define,
        ]);
    }
}

/// Compiles a statement list, appending its code to `script`.
#[verifier::rlimit(100)]
fn statements_into(script: &mut Vec<Op>, stream: &Vec<Statement>)
    ensures
        ops_view(final(script)@) == ops_view(old(script)@) + compile_stmts(stream@),
    decreases stream@, 0nat,
{
    let ghost s0 = ops_view(script@);
    let mut i: usize = 0;
    proof {
        assert(compile_stmts(stream@.take(0)).len() == 0);
        assert(s0 + compile_stmts(stream@.take(0)) =~= s0);
    }
    while i < stream.len()
        invariant
            i <= stream@.len(),
            ops_view(script@) == s0 + compile_stmts(stream@.take(i as int)),
        decreases stream@.len() - i,
    {
        let ghost pre = ops_view(script@);
        let s = &stream[i];
        proof {
            assert(decreases_to!(stream@ => stream@[i as int]));
        }
        match s {
            Statement::Expression(e) => {
                proof {
                    assert(decreases_to!(stream@[i as int] => **e));
                }
                expression(script, e);
            },
            Statement::Block(ss) => {
                proof {
                    assert(decreases_to!(stream@[i as int] => **ss));
                    assert(decreases_to!(**ss => ss@));
                }
                statements_into(script, ss);
            },
            Statement::Definition(nm, e) => {
                proof {
                    assert(decreases_to!(stream@[i as int] => **e));
                }
                assignment(script, nm, e);
                proof {
                    assert(pre + compile_expr(**e) + seq![
                        AbsOp::Value(AbsValue::Str(nm@)),
                        AbsOp::Define,
                    ] =~= pre + compile_stmt(stream@[i as int]));
                }
            },
            Statement::Assignment(nm, e) => {
                proof {
                    assert(decreases_to!(stream@[i as int] => **e));
                }
                assignment(script, nm, e);
                proof {
                    assert(pre + compile_expr(**e) + seq![
                        AbsOp::Value(AbsValue::Str(nm@)),
                        AbsOp::Define,
                    ] =~= pre + compile_stmt(stream@[i as int]));
                }
            },
            Statement::If(cond, body) => {
                proof {
                    assert(decreases_to!(stream@[i as int] => **cond));
                    assert(decreases_to!(stream@[i as int] => **body));
                    assert(decreases_to!(**body => body@));
                }
                expression(script, cond);
                let mut body_ops: Vec<Op> = Vec::new();
                proof {
                    assert(ops_view(body_ops@).len() == 0);
                    assert(ops_view(body_ops@) + compile_stmts(body@) =~= compile_stmts(body@));
                }
                statements_into(&mut body_ops, body);
                let ghost bv = ops_view(body_ops@);
                let blen = body_ops.len();
                proof {
                    crate::op::lemma_ops_view_len(body_ops@);
                }
                let off: i32 = if blen < i32::MAX as usize {
                    (blen + 1) as i32
                } else {
                    i32::MAX
                };
                emit(script, Op::JumpUnless(off));
                let ghost mid = ops_view(script@);
                self_append(script, body_ops);
                expression(script, cond);
                proof {
                    let cv = compile_expr(**cond);
                    assert(pre + cv =~= pre + cv);
                    assert(((pre + cv).push(AbsOp::JumpUnless(jump_off(bv.len() as int))) + bv) + cv
                        =~= pre + compile_stmt(stream@[i as int]));
                }
            },
            Statement::IfElse(cond, body, els) => {
                proof {
                    assert(decreases_to!(stream@[i as int] => **cond));
                    assert(decreases_to!(stream@[i as int] => **body));
                    assert(decreases_to!(**body => body@));
                    assert(decreases_to!(stream@[i as int] => **els));
                    assert(decreases_to!(**els => els@));
                }
                expression(script, cond);
                let mut body_ops: Vec<Op> = Vec::new();
                proof {
                    assert(ops_view(body_ops@).len() == 0);
                    assert(ops_view(body_ops@) + compile_stmts(body@) =~= compile_stmts(body@));
                }
                statements_into(&mut body_ops, body);
                let ghost bv = ops_view(body_ops@);
                let blen = body_ops.len();
                proof {
                    crate::op::lemma_ops_view_len(body_ops@);
                }
                let off: i32 = if blen < i32::MAX as usize {
                    (blen + 1) as i32
                } else {
                    i32::MAX
                };
                emit(script, Op::JumpUnless(off));
                self_append(script, body_ops);
                expression(script, cond);
                let mut else_ops: Vec<Op> = Vec::new();
                proof {
                    assert(ops_view(else_ops@).len() == 0);
                    assert(ops_view(else_ops@) + compile_stmts(els@) =~= compile_stmts(els@));
                }
                statements_into(&mut else_ops, els);
                let ghost ev = ops_view(else_ops@);
                let elen = else_ops.len();
                proof {
                    crate::op::lemma_ops_view_len(else_ops@);
                }
                let eoff: i32 = if elen < i32::MAX as usize {
                    (elen + 1) as i32
                } else {
                    i32::MAX
                };
                emit(script, Op::JumpIf(eoff));
                self_append(script, else_ops);
                proof {
                    let cv = compile_expr(**cond);
                    assert(((((pre + cv).push(AbsOp::JumpUnless(jump_off(bv.len() as int))) + bv)
                        + cv).push(AbsOp::JumpIf(jump_off(ev.len() as int))) + ev) =~= pre
                        + compile_stmt(stream@[i as int]));
                }
            },
        }
        proof {
            assert(stream@.take(i as int + 1).drop_last() =~= stream@.take(i as int));
            assert(stream@.take(i as int + 1).last() == stream@[i as int]);
            assert(s0 + compile_stmts(stream@.take(i as int)) + compile_stmt(stream@[i as int])
                =~= s0 + compile_stmts(stream@.take(i as int + 1)));
        }
        i = i + 1;
    }
    proof {
        assert(stream@.take(stream@.len() as int) =~= stream@);
    }
}

/// Appends a compiled block to the script.
fn self_append(script: &mut Vec<Op>, mut other: Vec<Op>)
    ensures
        ops_view(final(script)@) == ops_view(old(script)@) + ops_view(other@),
{
    let ghost s0 = script@;
    let ghost o0 = other@;
    script.append(&mut other);
    proof {
        lemma_ops_view_concat(s0, o0);
    }
}

/// Compiles a statement list into a fresh bytecode program.
pub fn statements(stream: Vec<Statement>) -> (r: Vec<Op>)
    ensures
        ops_view(r@) == compile_stmts(stream@),
{
    let mut script: Vec<Op> = Vec::new();
    proof {
        assert(ops_view(script@).len() == 0);
        assert(ops_view(script@) + compile_stmts(stream@) =~= compile_stmts(stream@));
    }
    statements_into(&mut script, &stream);
    script
}

} // verus!

//! The virtual machine: a stack-based interpreter for compiled programs,
//! verified against `run_spec`, a mathematical small-step interpreter over
//! the deep views of programs, stacks and scopes.
//!
//! Execution is bounded by a step budget (fuel): every instruction costs one
//! unit and a nested call runs on the remaining budget, so the machine always
//! terminates, reporting `OutOfFuel` when the budget runs out.

use vstd::prelude::*;

verus! {

use crate::error::{VmError, AbsVmError, err_view};
use crate::op::{Op, AbsOp, op_view, ops_view};
use crate::render::{join_abs, join_values};
use crate::strutil::push_char;
use crate::scope::Scope;
use crate::value::{
    Value,
    Object,
    Native,
    AbsValue,
    AbsObject,
    value_view,
    object_view,
    vals_view,
    strs_view,
    abs_add,
    abs_sub,
    abs_mul,
    abs_div,
    abs_eq,
    abs_lt,
    abs_le,
    abs_gt,
    abs_ge,
    abs_to_bool,
    Cmp,
};

broadcast use {crate::op::lemma_ops_view_len, crate::op::lemma_ops_view_index};

/// The default step budget of a machine run.
pub const DEFAULT_FUEL: u64 = 10_000_000;

/// The outcome of running a program from a given state: the reported result,
/// the final operand stack and scope, and the remaining step budget.
pub ghost struct RunOut {
    pub result: Result<Option<AbsValue>, AbsVmError>,
    pub stack: Seq<AbsValue>,
    pub scope: Map<Seq<char>, AbsValue>,
    pub fuel: nat,
    pub out: Seq<char>,
}

/// The final result of a halted run: the top of the operand stack, if any.
pub open spec fn top_opt(stack: Seq<AbsValue>) -> Option<AbsValue> {
    if stack.len() == 0 {
        None
    } else {
        Some(stack.last())
    }
}

/// Binds parameter names to argument values, in order, into the scope;
/// missing trailing arguments bind to `Nil`.
pub open spec fn bind_params(
    scope: Map<Seq<char>, AbsValue>,
    params: Seq<Seq<char>>,
    vals: Seq<AbsValue>,
) -> Map<Seq<char>, AbsValue>
    decreases params.len(),
{
    if params.len() == 0 {
        scope
    } else if vals.len() > 0 {
        bind_params(scope.insert(params[0], vals[0]), params.drop_first(), vals.drop_first())
    } else {
        bind_params(scope.insert(params[0], AbsValue::Nil), params.drop_first(), vals)
    }
}

/// The mathematical interpreter. One instruction costs one unit of fuel; a
/// nested call runs on the remaining budget. Execution halts normally when
/// the pointer runs past the end or a `Return` executes; the result is then
/// the top of the operand stack, if any.
///
/// Binary instructions read `a` from the second stack slot and `b` from the
/// top; since the compiler pushes the syntactically right operand first,
/// `a` holds the right operand and `b` the left one, so `Sub` computes
/// `right - left`.
#[verifier::opaque]
pub open spec fn run_spec(
    prog: Seq<AbsOp>,
    stack: Seq<AbsValue>,
    p: int,
    scope: Map<Seq<char>, AbsValue>,
    acc: Seq<char>,
    fuel: nat,
) -> RunOut
    decreases fuel,
{
    if p < 0 || p >= prog.len() {
        RunOut { result: Ok(top_opt(stack)), stack, scope, fuel, out: acc }
    } else if fuel == 0 {
        RunOut { result: Err(AbsVmError::OutOfFuel), stack, scope, fuel: 0, out: acc }
    } else {
        let f2 = (fuel - 1) as nat;
        let n = stack.len() as int;
        match prog[p] {
            AbsOp::Value(v) => run_spec(prog, stack.push(v), p + 1, scope, acc, f2),
            AbsOp::Add => if n < 2 {
                RunOut { result: Err(AbsVmError::StackUnderflow), stack, scope, fuel: f2, out: acc }
            } else {
                match abs_add(stack[n - 2], stack[n - 1]) {
                    Ok(v) => run_spec(prog, stack.take(n - 2).push(v), p + 1, scope, acc, f2),
                    Err(e) => RunOut { result: Err(e), stack: stack.take(n - 2), scope, fuel: f2, out: acc },
                }
            },
            AbsOp::Sub => if n < 2 {
                RunOut { result: Err(AbsVmError::StackUnderflow), stack, scope, fuel: f2, out: acc }
            } else {
                match abs_sub(stack[n - 2], stack[n - 1]) {
                    Ok(v) => run_spec(prog, stack.take(n - 2).push(v), p + 1, scope, acc, f2),
                    Err(e) => RunOut { result: Err(e), stack: stack.take(n - 2), scope, fuel: f2, out: acc },
                }
            },
            AbsOp::Mul => if n < 2 {
                RunOut { result: Err(AbsVmError::StackUnderflow), stack, scope, fuel: f2, out: acc }
            } else {
                match abs_mul(stack[n - 2], stack[n - 1]) {
                    Ok(v) => run_spec(prog, stack.take(n - 2).push(v), p + 1, scope, acc, f2),
                    Err(e) => RunOut { result: Err(e), stack: stack.take(n - 2), scope, fuel: f2, out: acc },
                }
            },
            AbsOp::Div => if n < 2 {
                RunOut { result: Err(AbsVmError::StackUnderflow), stack, scope, fuel: f2, out: acc }
            } else {
                match abs_div(stack[n - 2], stack[n - 1]) {
                    Ok(v) => run_spec(prog, stack.take(n - 2).push(v), p + 1, scope, acc, f2),
                    Err(e) => RunOut { result: Err(e), stack: stack.take(n - 2), scope, fuel: f2, out: acc },
                }
            },
            AbsOp::Equals => if n < 2 {
                RunOut { result: Err(AbsVmError::StackUnderflow), stack, scope, fuel: f2, out: acc }
            } else {
                run_spec(
                    prog,
                    stack.take(n - 2).push(AbsValue::Bool(abs_eq(stack[n - 2], stack[n - 1]))),
                    p + 1,
                    scope,
                    acc,
                    f2,
                )
            },
            AbsOp::NEquals => if n < 2 {
                RunOut { result: Err(AbsVmError::StackUnderflow), stack, scope, fuel: f2, out: acc }
            } else {
                run_spec(
                    prog,
                    stack.take(n - 2).push(AbsValue::Bool(!abs_eq(stack[n - 2], stack[n - 1]))),
                    p + 1,
                    scope,
                    acc,
                    f2,
                )
            },
            AbsOp::Lt => if n < 2 {
                RunOut { result: Err(AbsVmError::StackUnderflow), stack, scope, fuel: f2, out: acc }
            } else {
                run_spec(
                    prog,
                    stack.take(n - 2).push(AbsValue::Bool(abs_lt(stack[n - 2], stack[n - 1]))),
                    p + 1,
                    scope,
                    acc,
                    f2,
                )
            },
            AbsOp::Gt => if n < 2 {
                RunOut { result: Err(AbsVmError::StackUnderflow), stack, scope, fuel: f2, out: acc }
            } else {
                run_spec(
                    prog,
                    stack.take(n - 2).push(AbsValue::Bool(abs_gt(stack[n - 2], stack[n - 1]))),
                    p + 1,
                    scope,
                    acc,
                    f2,
                )
            },
            AbsOp::LtEquals => if n < 2 {
                RunOut { result: Err(AbsVmError::StackUnderflow), stack, scope, fuel: f2, out: acc }
            } else {
                run_spec(
                    prog,
                    stack.take(n - 2).push(AbsValue::Bool(abs_le(stack[n - 2], stack[n - 1]))),
                    p + 1,
                    scope,
                    acc,
                    f2,
                )
            },
            AbsOp::GtEquals => if n < 2 {
                RunOut { result: Err(AbsVmError::StackUnderflow), stack, scope, fuel: f2, out: acc }
            } else {
                run_spec(
                    prog,
                    stack.take(n - 2).push(AbsValue::Bool(abs_ge(stack[n - 2], stack[n - 1]))),
                    p + 1,
                    scope,
                    acc,
                    f2,
                )
            },
            AbsOp::Return => RunOut { result: Ok(top_opt(stack)), stack, scope, fuel: f2, out: acc },
            AbsOp::Define => if n < 1 {
                RunOut { result: Err(AbsVmError::StackUnderflow), stack, scope, fuel: f2, out: acc }
            } else {
                match stack[n - 1] {
                    AbsValue::Str(name) => if n < 2 {
                        RunOut { result: Err(AbsVmError::StackUnderflow), stack, scope, fuel: f2, out: acc }
                    } else {
                        run_spec(
                            prog,
                            stack.take(n - 2),
                            p + 1,
                            scope.insert(name, stack[n - 2]),
                            acc,
                            f2,
                        )
                    },
                    _ => RunOut {
                        result: Err(AbsVmError::BrokenAssignment),
                        stack,
                        scope,
                        fuel: f2,
                        out: acc,
                    },
                }
            },
            AbsOp::Name(name) => if scope.contains_key(name) {
                run_spec(prog, stack.push(scope[name]), p + 1, scope, acc, f2)
            } else {
                run_spec(prog, stack, p + 1, scope, acc, f2)
            },
            AbsOp::JumpUnless(off) => if n < 1 {
                RunOut { result: Err(AbsVmError::StackUnderflow), stack, scope, fuel: f2, out: acc }
            } else if !abs_to_bool(stack[n - 1]) {
                if p + off < 0 {
                    RunOut { result: Err(AbsVmError::BadJump), stack: stack.take(n - 1), scope, fuel: f2, out: acc }
                } else {
                    run_spec(prog, stack.take(n - 1), p + off, scope, acc, f2)
                }
            } else {
                run_spec(prog, stack.take(n - 1), p + 1, scope, acc, f2)
            },
            AbsOp::JumpIf(off) => if n < 1 {
                RunOut { result: Err(AbsVmError::StackUnderflow), stack, scope, fuel: f2, out: acc }
            } else if abs_to_bool(stack[n - 1]) {
                if p + off < 0 {
                    RunOut { result: Err(AbsVmError::BadJump), stack: stack.take(n - 1), scope, fuel: f2, out: acc }
                } else {
                    run_spec(prog, stack.take(n - 1), p + off, scope, acc, f2)
                }
            } else {
                run_spec(prog, stack.take(n - 1), p + 1, scope, acc, f2)
            },
            AbsOp::Jump(off) => if p + off < 0 {
                RunOut { result: Err(AbsVmError::BadJump), stack, scope, fuel: f2, out: acc }
            } else {
                run_spec(prog, stack, p + off, scope, acc, f2)
            },
            AbsOp::Call => if n < 1 {
                RunOut { result: Err(AbsVmError::StackUnderflow), stack, scope, fuel: f2, out: acc }
            } else {
                match stack[n - 1] {
                    AbsValue::Int(cnt) => if cnt < 0 {
                        RunOut { result: Err(AbsVmError::BadArgCount), stack, scope, fuel: f2, out: acc }
                    } else if n - 1 < cnt + 1 {
                        RunOut { result: Err(AbsVmError::StackUnderflow), stack, scope, fuel: f2, out: acc }
                    } else {
                        let args = stack.subrange(n - 1 - cnt, n - 1);
                        let callee = stack[n - 2 - cnt];
                        let base = stack.take(n - 2 - cnt);
                        match callee {
                            AbsValue::Obj(AbsObject::Function { params, body }) => {
                                let sub = run_spec(
                                    body,
                                    Seq::empty(),
                                    0,
                                    bind_params(scope, params, args),
                                    Seq::empty(),
                                    f2,
                                );
                                let rem = if sub.fuel <= f2 {
                                    sub.fuel
                                } else {
                                    0
                                };
                                match sub.result {
                                    Err(e) => RunOut {
                                        result: Err(e),
                                        stack: base,
                                        scope: sub.scope,
                                        fuel: rem,
                                        out: acc + sub.out,
                                    },
                                    Ok(Some(v)) => run_spec(
                                        prog,
                                        base.push(v),
                                        p + 1,
                                        sub.scope,
                                        acc + sub.out,
                                        rem,
                                    ),
                                    Ok(None) => run_spec(
                                        prog,
                                        base,
                                        p + 1,
                                        sub.scope,
                                        acc + sub.out,
                                        rem,
                                    ),
                                }
                            },
                            AbsValue::Obj(AbsObject::Native(native)) => match native {
                                Native::Puts => run_spec(
                                    prog,
                                    base.push(AbsValue::Str(join_abs(args))),
                                    p + 1,
                                    scope,
                                    acc + join_abs(args),
                                    f2,
                                ),
                                Native::Putsln => run_spec(
                                    prog,
                                    base.push(AbsValue::Str(join_abs(args))),
                                    p + 1,
                                    scope,
                                    acc + join_abs(args) + seq!['\n'],
                                    f2,
                                ),
                                Native::Angry => RunOut {
                                    result: Err(AbsVmError::Abort(join_abs(args))),
                                    stack: base,
                                    scope,
                                    fuel: f2,
                                    out: acc,
                                },
                            },
                            _ => RunOut {
                                result: Err(AbsVmError::InvalidCall),
                                stack: base,
                                scope,
                                fuel: f2,
                                out: acc,
                            },
                        }
                    },
                    _ => RunOut { result: Err(AbsVmError::BadArgCount), stack, scope, fuel: f2, out: acc },
                }
            },
        }
    }
}

/// Running never gains fuel: the remaining budget is at most the given one.
pub proof fn lemma_run_spec_fuel(
    prog: Seq<AbsOp>,
    stack: Seq<AbsValue>,
    p: int,
    scope: Map<Seq<char>, AbsValue>,
    acc: Seq<char>,
    fuel: nat,
)
    ensures
        run_spec(prog, stack, p, scope, acc, fuel).fuel <= fuel,
    decreases fuel,
{
    reveal_with_fuel(run_spec, 1);
    if p < 0 || p >= prog.len() || fuel == 0 {
    } else {
        let f2 = (fuel - 1) as nat;
        let n = stack.len() as int;
        match prog[p] {
            AbsOp::Value(v) => lemma_run_spec_fuel(prog, stack.push(v), p + 1, scope, acc, f2),
            AbsOp::Add => if n >= 2 {
                match abs_add(stack[n - 2], stack[n - 1]) {
                    Ok(v) => lemma_run_spec_fuel(prog, stack.take(n - 2).push(v), p + 1, scope, acc, f2),
                    Err(e) => (),
                }
            },
            AbsOp::Sub => if n >= 2 {
                match abs_sub(stack[n - 2], stack[n - 1]) {
                    Ok(v) => lemma_run_spec_fuel(prog, stack.take(n - 2).push(v), p + 1, scope, acc, f2),
                    Err(e) => (),
                }
            },
            AbsOp::Mul => if n >= 2 {
                match abs_mul(stack[n - 2], stack[n - 1]) {
                    Ok(v) => lemma_run_spec_fuel(prog, stack.take(n - 2).push(v), p + 1, scope, acc, f2),
                    Err(e) => (),
                }
            },
            AbsOp::Div => if n >= 2 {
                match abs_div(stack[n - 2], stack[n - 1]) {
                    Ok(v) => lemma_run_spec_fuel(prog, stack.take(n - 2).push(v), p + 1, scope, acc, f2),
                    Err(e) => (),
                }
            },
            AbsOp::Equals => if n >= 2 {
                lemma_run_spec_fuel(
                    prog,
                    stack.take(n - 2).push(AbsValue::Bool(abs_eq(stack[n - 2], stack[n - 1]))),
                    p + 1,
                    scope,
                    acc,
                    f2,
                );
            },
            AbsOp::NEquals => if n >= 2 {
                lemma_run_spec_fuel(
                    prog,
                    stack.take(n - 2).push(AbsValue::Bool(!abs_eq(stack[n - 2], stack[n - 1]))),
                    p + 1,
                    scope,
                    acc,
                    f2,
                );
            },
            AbsOp::Lt => if n >= 2 {
                lemma_run_spec_fuel(
                    prog,
                    stack.take(n - 2).push(AbsValue::Bool(abs_lt(stack[n - 2], stack[n - 1]))),
                    p + 1,
                    scope,
                    acc,
                    f2,
                );
            },
            AbsOp::Gt => if n >= 2 {
                lemma_run_spec_fuel(
                    prog,
                    stack.take(n - 2).push(AbsValue::Bool(abs_gt(stack[n - 2], stack[n - 1]))),
                    p + 1,
                    scope,
                    acc,
                    f2,
                );
            },
            AbsOp::LtEquals => if n >= 2 {
                lemma_run_spec_fuel(
                    prog,
                    stack.take(n - 2).push(AbsValue::Bool(abs_le(stack[n - 2], stack[n - 1]))),
                    p + 1,
                    scope,
                    acc,
                    f2,
                );
            },
            AbsOp::GtEquals => if n >= 2 {
                lemma_run_spec_fuel(
                    prog,
                    stack.take(n - 2).push(AbsValue::Bool(abs_ge(stack[n - 2], stack[n - 1]))),
                    p + 1,
                    scope,
                    acc,
                    f2,
                );
            },
            AbsOp::Return => (),
            AbsOp::Define => if n >= 2 {
                match stack[n - 1] {
                    AbsValue::Str(name) => lemma_run_spec_fuel(
                        prog,
                        stack.take(n - 2),
                        p + 1,
                        scope.insert(name, stack[n - 2]),
                        acc,
                        f2,
                    ),
                    _ => (),
                }
            },
            AbsOp::Name(name) => if scope.contains_key(name) {
                lemma_run_spec_fuel(prog, stack.push(scope[name]), p + 1, scope, acc, f2);
            } else {
                lemma_run_spec_fuel(prog, stack, p + 1, scope, acc, f2);
            },
            AbsOp::JumpUnless(off) => if n >= 1 {
                if !abs_to_bool(stack[n - 1]) {
                    if p + off >= 0 {
                        lemma_run_spec_fuel(prog, stack.take(n - 1), p + off, scope, acc, f2);
                    }
                } else {
                    lemma_run_spec_fuel(prog, stack.take(n - 1), p + 1, scope, acc, f2);
                }
            },
            AbsOp::JumpIf(off) => if n >= 1 {
                if abs_to_bool(stack[n - 1]) {
                    if p + off >= 0 {
                        lemma_run_spec_fuel(prog, stack.take(n - 1), p + off, scope, acc, f2);
                    }
                } else {
                    lemma_run_spec_fuel(prog, stack.take(n - 1), p + 1, scope, acc, f2);
                }
            },
            AbsOp::Jump(off) => if p + off >= 0 {
                lemma_run_spec_fuel(prog, stack, p + off, scope, acc, f2);
            },
            AbsOp::Call => if n >= 1 {
                match stack[n - 1] {
                    AbsValue::Int(cnt) => if 0 <= cnt && n - 1 >= cnt + 1 {
                        let args = stack.subrange(n - 1 - cnt, n - 1);
                        let callee = stack[n - 2 - cnt];
                        let base = stack.take(n - 2 - cnt);
                        match callee {
                            AbsValue::Obj(AbsObject::Function { params, body }) => {
                                let sub = run_spec(
                                    body,
                                    Seq::empty(),
                                    0,
                                    bind_params(scope, params, args),
                                    Seq::empty(),
                                    f2,
                                );
                                let rem = if sub.fuel <= f2 {
                                    sub.fuel
                                } else {
                                    0
                                };
                                match sub.result {
                                    Err(e) => (),
                                    Ok(Some(v)) => lemma_run_spec_fuel(
                                        prog,
                                        base.push(v),
                                        p + 1,
                                        sub.scope,
                                        acc + sub.out,
                                        rem,
                                    ),
                                    Ok(None) => lemma_run_spec_fuel(
                                        prog,
                                        base,
                                        p + 1,
                                        sub.scope,
                                        acc + sub.out,
                                        rem,
                                    ),
                                }
                            },
                            AbsValue::Obj(AbsObject::Native(native)) => match native {
                                Native::Puts => lemma_run_spec_fuel(
                                    prog,
                                    base.push(AbsValue::Str(join_abs(args))),
                                    p + 1,
                                    scope,
                                    acc + join_abs(args),
                                    f2,
                                ),
                                Native::Putsln => lemma_run_spec_fuel(
                                    prog,
                                    base.push(AbsValue::Str(join_abs(args))),
                                    p + 1,
                                    scope,
                                    acc + join_abs(args) + seq!['\n'],
                                    f2,
                                ),
                                Native::Angry => (),
                            },
                            _ => (),
                        }
                    },
                    _ => (),
                }
            },
        }
    }
}

/// The model of a run's reported result.
pub open spec fn res_view(r: Result<Option<Value>, VmError>) -> Result<
    Option<AbsValue>,
    AbsVmError,
> {
    match r {
        Ok(Some(v)) => Ok(Some(value_view(v))),
        Ok(None) => Ok(None),
        Err(e) => Err(err_view(e)),
    }
}

/// The virtual machine: a compiled program, an operand stack, an instruction
/// pointer, a running flag, and the text its native print functions wrote.
pub struct Machine {
    pub program: Vec<Op>,
    pub stack: Vec<Value>,
    pub pointer: usize,
    pub running: bool,
    pub output: String,
}

impl Machine {
    /// A fresh machine over a program: empty stack, pointer at the start,
    /// not yet running, no output.
    pub fn new(program: Vec<Op>) -> (m: Machine)
        ensures
            m.program == program,
            m.stack@ == Seq::<Value>::empty(),
            m.pointer == 0,
            m.running == false,
            m.output@ == Seq::<char>::empty(),
    {
        Machine { program, stack: Vec::new(), pointer: 0, running: false, output: String::new() }
    }

    /// Runs the program against the given scope with the default step
    /// budget. The result, the final stack, the final scope and the final
    /// output text are exactly those of the mathematical interpreter
    /// `run_spec`.
    pub fn run(&mut self, scope: &mut Scope) -> (r: Result<Option<Value>, VmError>)
        ensures
            ({
                let o = run_spec(
                    ops_view(old(self).program@),
                    vals_view(old(self).stack@),
                    old(self).pointer as int,
                    old(scope)@,
                    old(self).output@,
                    DEFAULT_FUEL as nat,
                );
                &&& res_view(r) == o.result
                &&& vals_view(final(self).stack@) == o.stack
                &&& final(scope)@ == o.scope
                &&& final(self).output@ == o.out
            }),
            final(self).program == old(self).program,
            final(self).running == false,
    {
        let (r, _rem) = self.run_with_budget(scope, DEFAULT_FUEL);
        r
    }

    /// Runs the program on a caller-chosen step budget; returns the result
    /// and the remaining budget. This is the verified core: its outcome is
    /// exactly `run_spec` on the views of the entry state.
    #[verifier::rlimit(100)]
    #[verifier::spinoff_prover]
    pub fn run_with_budget(&mut self, scope: &mut Scope, fuel: u64) -> (res: (
        Result<Option<Value>, VmError>,
        u64,
    ))
        ensures
            ({
                let o = run_spec(
                    ops_view(old(self).program@),
                    vals_view(old(self).stack@),
                    old(self).pointer as int,
                    old(scope)@,
                    old(self).output@,
                    fuel as nat,
                );
                &&& res_view(res.0) == o.result
                &&& res.1 as nat == o.fuel
                &&& vals_view(final(self).stack@) == o.stack
                &&& final(scope)@ == o.scope
                &&& final(self).output@ == o.out
            }),
            final(self).program == old(self).program,
            final(self).running == false,
        decreases fuel,
    {
        self.running = true;
        let mut fuel_now: u64 = fuel;
        let ghost prog_v = ops_view(self.program@);
        let ghost o = run_spec(
            prog_v,
            vals_view(self.stack@),
            self.pointer as int,
            scope@,
            self.output@,
            fuel as nat,
        );
        proof {
            crate::op::lemma_ops_view_len(self.program@);
        }
        while self.pointer < self.program.len()
            invariant
                fuel_now <= fuel,
                self.program == old(self).program,
                prog_v == ops_view(self.program@),
                prog_v.len() == self.program@.len(),
                o == run_spec(
                    ops_view(old(self).program@),
                    vals_view(old(self).stack@),
                    old(self).pointer as int,
                    old(scope)@,
                    old(self).output@,
                    fuel as nat,
                ),
                o == run_spec(
                    prog_v,
                    vals_view(self.stack@),
                    self.pointer as int,
                    scope@,
                    self.output@,
                    fuel_now as nat,
                ),
            decreases fuel_now,
        {
            let ghost st0 = vals_view(self.stack@);
            let ghost sc0 = scope@;
            let ghost p0 = self.pointer as int;
            let ghost ot = self.output@;
            let ghost n = st0.len() as int;

            if fuel_now == 0 {
                self.running = false;
                proof {
                    reveal_with_fuel(run_spec, 1);
                    assert(run_spec(prog_v, st0, p0, sc0, ot, fuel_now as nat) == RunOut {
                        result: Err(AbsVmError::OutOfFuel),
                        stack: st0,
                        scope: sc0,
                        fuel: 0,
                        out: ot,
                    });
                }
                return (Err(VmError::OutOfFuel), 0);
            }
            let op = self.program[self.pointer].clone();
            proof {
                crate::op::lemma_ops_view_index(self.program@, p0);
                assert(op_view(op) == prog_v[p0]);
            }
            let ghost fp = fuel_now as nat;
            fuel_now = fuel_now - 1;
            let ghost f2 = fuel_now as nat;
            match op {
                Op::Value(v) => {
                    let ghost vv = value_view(v);
                    self.stack.push(v);
                    self.pointer = self.pointer + 1;
                    proof {
                        reveal_with_fuel(run_spec, 1);
                        assert(vals_view(self.stack@) =~= st0.push(vv));
                        assert(run_spec(prog_v, st0, p0, sc0, ot, fp) == run_spec(
                            prog_v,
                            st0.push(vv),
                            p0 + 1,
                            sc0,
                            ot,
                            f2,
                        ));
                    }
                },
                Op::Add => {
                    if self.stack.len() < 2 {
                        self.running = false;
                        proof {
                            reveal_with_fuel(run_spec, 1);
                            assert(run_spec(prog_v, st0, p0, sc0, ot, fp) == RunOut {
                                result: Err(AbsVmError::StackUnderflow),
                                stack: st0,
                                scope: sc0,
                                fuel: f2,
                                out: ot,
                            });
                        }
                        return (Err(VmError::StackUnderflow), fuel_now);
                    }
                    let b = self.stack.pop().unwrap();
                    let a = self.stack.pop().unwrap();
                    proof {
                        assert(vals_view(self.stack@) =~= st0.take(n - 2));
                        assert(value_view(a) == st0[n - 2]);
                        assert(value_view(b) == st0[n - 1]);
                    }
                    match a.add(b) {
                        Ok(v) => {
                            let ghost vv = value_view(v);
                            self.stack.push(v);
                            self.pointer = self.pointer + 1;
                            proof {
                                reveal_with_fuel(run_spec, 1);
                                assert(vals_view(self.stack@) =~= st0.take(n - 2).push(vv));
                                assert(run_spec(prog_v, st0, p0, sc0, ot, fp) == run_spec(
                                    prog_v,
                                    st0.take(n - 2).push(vv),
                                    p0 + 1,
                                    sc0,
                                    ot,
                                    f2,
                                ));
                            }
                        },
                        Err(e) => {
                            self.running = false;
                            proof {
                                reveal_with_fuel(run_spec, 1);
                                assert(run_spec(prog_v, st0, p0, sc0, ot, fp) == RunOut {
                                    result: Err(err_view(e)),
                                    stack: st0.take(n - 2),
                                    scope: sc0,
                                    fuel: f2,
                                    out: ot,
                                });
                            }
                            return (Err(e), fuel_now);
                        },
                    }
                },
                Op::Sub => {
                    if self.stack.len() < 2 {
                        self.running = false;
                        proof {
                            reveal_with_fuel(run_spec, 1);
                            assert(run_spec(prog_v, st0, p0, sc0, ot, fp) == RunOut {
                                result: Err(AbsVmError::StackUnderflow),
                                stack: st0,
                                scope: sc0,
                                fuel: f2,
                                out: ot,
                            });
                        }
                        return (Err(VmError::StackUnderflow), fuel_now);
                    }
                    let b = self.stack.pop().unwrap();
                    let a = self.stack.pop().unwrap();
                    proof {
                        assert(vals_view(self.stack@) =~= st0.take(n - 2));
                        assert(value_view(a) == st0[n - 2]);
                        assert(value_view(b) == st0[n - 1]);
                    }
                    match a.sub(b) {
                        Ok(v) => {
                            let ghost vv = value_view(v);
                            self.stack.push(v);
                            self.pointer = self.pointer + 1;
                            proof {
                                reveal_with_fuel(run_spec, 1);
                                assert(vals_view(self.stack@) =~= st0.take(n - 2).push(vv));
                                assert(run_spec(prog_v, st0, p0, sc0, ot, fp) == run_spec(
                                    prog_v,
                                    st0.take(n - 2).push(vv),
                                    p0 + 1,
                                    sc0,
                                    ot,
                                    f2,
                                ));
                            }
                        },
                        Err(e) => {
                            self.running = false;
                            proof {
                                reveal_with_fuel(run_spec, 1);
                                assert(run_spec(prog_v, st0, p0, sc0, ot, fp) == RunOut {
                                    result: Err(err_view(e)),
                                    stack: st0.take(n - 2),
                                    scope: sc0,
                                    fuel: f2,
                                    out: ot,
                                });
                            }
                            return (Err(e), fuel_now);
                        },
                    }
                },
                Op::Mul => {
                    if self.stack.len() < 2 {
                        self.running = false;
                        proof {
                            reveal_with_fuel(run_spec, 1);
                            assert(run_spec(prog_v, st0, p0, sc0, ot, fp) == RunOut {
                                result: Err(AbsVmError::StackUnderflow),
                                stack: st0,
                                scope: sc0,
                                fuel: f2,
                                out: ot,
                            });
                        }
                        return (Err(VmError::StackUnderflow), fuel_now);
                    }
                    let b = self.stack.pop().unwrap();
                    let a = self.stack.pop().unwrap();
                    proof {
                        assert(vals_view(self.stack@) =~= st0.take(n - 2));
                        assert(value_view(a) == st0[n - 2]);
                        assert(value_view(b) == st0[n - 1]);
                    }
                    match a.mul(b) {
                        Ok(v) => {
                            let ghost vv = value_view(v);
                            self.stack.push(v);
                            self.pointer = self.pointer + 1;
                            proof {
                                reveal_with_fuel(run_spec, 1);
                                assert(vals_view(self.stack@) =~= st0.take(n - 2).push(vv));
                                assert(run_spec(prog_v, st0, p0, sc0, ot, fp) == run_spec(
                                    prog_v,
                                    st0.take(n - 2).push(vv),
                                    p0 + 1,
                                    sc0,
                                    ot,
                                    f2,
                                ));
                            }
                        },
                        Err(e) => {
                            self.running = false;
                            proof {
                                reveal_with_fuel(run_spec, 1);
                                assert(run_spec(prog_v, st0, p0, sc0, ot, fp) == RunOut {
                                    result: Err(err_view(e)),
                                    stack: st0.take(n - 2),
                                    scope: sc0,
                                    fuel: f2,
                                    out: ot,
                                });
                            }
                            return (Err(e), fuel_now);
                        },
                    }
                },
                Op::Div => {
                    if self.stack.len() < 2 {
                        self.running = false;
                        proof {
                            reveal_with_fuel(run_spec, 1);
                            assert(run_spec(prog_v, st0, p0, sc0, ot, fp) == RunOut {
                                result: Err(AbsVmError::StackUnderflow),
                                stack: st0,
                                scope: sc0,
                                fuel: f2,
                                out: ot,
                            });
                        }
                        return (Err(VmError::StackUnderflow), fuel_now);
                    }
                    let b = self.stack.pop().unwrap();
                    let a = self.stack.pop().unwrap();
                    proof {
                        assert(vals_view(self.stack@) =~= st0.take(n - 2));
                        assert(value_view(a) == st0[n - 2]);
                        assert(value_view(b) == st0[n - 1]);
                    }
                    match a.div(b) {
                        Ok(v) => {
                            let ghost vv = value_view(v);
                            self.stack.push(v);
                            self.pointer = self.pointer + 1;
                            proof {
                                reveal_with_fuel(run_spec, 1);
                                assert(vals_view(self.stack@) =~= st0.take(n - 2).push(vv));
                                assert(run_spec(prog_v, st0, p0, sc0, ot, fp) == run_spec(
                                    prog_v,
                                    st0.take(n - 2).push(vv),
                                    p0 + 1,
                                    sc0,
                                    ot,
                                    f2,
                                ));
                            }
                        },
                        Err(e) => {
                            self.running = false;
                            proof {
                                reveal_with_fuel(run_spec, 1);
                                assert(run_spec(prog_v, st0, p0, sc0, ot, fp) == RunOut {
                                    result: Err(err_view(e)),
                                    stack: st0.take(n - 2),
                                    scope: sc0,
                                    fuel: f2,
                                    out: ot,
                                });
                            }
                            return (Err(e), fuel_now);
                        },
                    }
                },
                Op::Equals => {
                    if self.stack.len() < 2 {
                        self.running = false;
                        proof {
                            reveal_with_fuel(run_spec, 1);
                            assert(run_spec(prog_v, st0, p0, sc0, ot, fp) == RunOut {
                                result: Err(AbsVmError::StackUnderflow),
                                stack: st0,
                                scope: sc0,
                                fuel: f2,
                                out: ot,
                            });
                        }
                        return (Err(VmError::StackUnderflow), fuel_now);
                    }
                    let b = self.stack.pop().unwrap();
                    let a = self.stack.pop().unwrap();
                    proof {
                        assert(vals_view(self.stack@) =~= st0.take(n - 2));
                        assert(value_view(a) == st0[n - 2]);
                        assert(value_view(b) == st0[n - 1]);
                    }
                    let r = a.value_eq(&b);
                    self.stack.push(Value::BoolLiteral(r));
                    self.pointer = self.pointer + 1;
                    proof {
                        reveal_with_fuel(run_spec, 1);
                        let bv = AbsValue::Bool(abs_eq(st0[n - 2], st0[n - 1]));
                        assert(vals_view(self.stack@) =~= st0.take(n - 2).push(bv));
                        assert(run_spec(prog_v, st0, p0, sc0, ot, fp) == run_spec(
                            prog_v,
                            st0.take(n - 2).push(bv),
                            p0 + 1,
                            sc0,
                            ot,
                            f2,
                        ));
                    }
                },
                Op::NEquals => {
                    if self.stack.len() < 2 {
                        self.running = false;
                        proof {
                            reveal_with_fuel(run_spec, 1);
                            assert(run_spec(prog_v, st0, p0, sc0, ot, fp) == RunOut {
                                result: Err(AbsVmError::StackUnderflow),
                                stack: st0,
                                scope: sc0,
                                fuel: f2,
                                out: ot,
                            });
                        }
                        return (Err(VmError::StackUnderflow), fuel_now);
                    }
                    let b = self.stack.pop().unwrap();
                    let a = self.stack.pop().unwrap();
                    proof {
                        assert(vals_view(self.stack@) =~= st0.take(n - 2));
                        assert(value_view(a) == st0[n - 2]);
                        assert(value_view(b) == st0[n - 1]);
                    }
                    let r = !a.value_eq(&b);
                    self.stack.push(Value::BoolLiteral(r));
                    self.pointer = self.pointer + 1;
                    proof {
                        reveal_with_fuel(run_spec, 1);
                        let bv = AbsValue::Bool(!abs_eq(st0[n - 2], st0[n - 1]));
                        assert(vals_view(self.stack@) =~= st0.take(n - 2).push(bv));
                        assert(run_spec(prog_v, st0, p0, sc0, ot, fp) == run_spec(
                            prog_v,
                            st0.take(n - 2).push(bv),
                            p0 + 1,
                            sc0,
                            ot,
                            f2,
                        ));
                    }
                },
                Op::Lt => {
                    if self.stack.len() < 2 {
                        self.running = false;
                        proof {
                            reveal_with_fuel(run_spec, 1);
                            assert(run_spec(prog_v, st0, p0, sc0, ot, fp) == RunOut {
                                result: Err(AbsVmError::StackUnderflow),
                                stack: st0,
                                scope: sc0,
                                fuel: f2,
                                out: ot,
                            });
                        }
                        return (Err(VmError::StackUnderflow), fuel_now);
                    }
                    let b = self.stack.pop().unwrap();
                    let a = self.stack.pop().unwrap();
                    proof {
                        assert(vals_view(self.stack@) =~= st0.take(n - 2));
                        assert(value_view(a) == st0[n - 2]);
                        assert(value_view(b) == st0[n - 1]);
                    }
                    let r = match a.compare(&b) {
                        Some(Cmp::Less) => true,
                        _ => false,
                    };
                    self.stack.push(Value::BoolLiteral(r));
                    self.pointer = self.pointer + 1;
                    proof {
                        reveal_with_fuel(run_spec, 1);
                        let bv = AbsValue::Bool(abs_lt(st0[n - 2], st0[n - 1]));
                        assert(vals_view(self.stack@) =~= st0.take(n - 2).push(bv));
                        assert(run_spec(prog_v, st0, p0, sc0, ot, fp) == run_spec(
                            prog_v,
                            st0.take(n - 2).push(bv),
                            p0 + 1,
                            sc0,
                            ot,
                            f2,
                        ));
                    }
                },
                Op::Gt => {
                    if self.stack.len() < 2 {
                        self.running = false;
                        proof {
                            reveal_with_fuel(run_spec, 1);
                            assert(run_spec(prog_v, st0, p0, sc0, ot, fp) == RunOut {
                                result: Err(AbsVmError::StackUnderflow),
                                stack: st0,
                                scope: sc0,
                                fuel: f2,
                                out: ot,
                            });
                        }
                        return (Err(VmError::StackUnderflow), fuel_now);
                    }
                    let b = self.stack.pop().unwrap();
                    let a = self.stack.pop().unwrap();
                    proof {
                        assert(vals_view(self.stack@) =~= st0.take(n - 2));
                        assert(value_view(a) == st0[n - 2]);
                        assert(value_view(b) == st0[n - 1]);
                    }
                    let r = match a.compare(&b) {
                        Some(Cmp::Greater) => true,
                        _ => false,
                    };
                    self.stack.push(Value::BoolLiteral(r));
                    self.pointer = self.pointer + 1;
                    proof {
                        reveal_with_fuel(run_spec, 1);
                        let bv = AbsValue::Bool(abs_gt(st0[n - 2], st0[n - 1]));
                        assert(vals_view(self.stack@) =~= st0.take(n - 2).push(bv));
                        assert(run_spec(prog_v, st0, p0, sc0, ot, fp) == run_spec(
                            prog_v,
                            st0.take(n - 2).push(bv),
                            p0 + 1,
                            sc0,
                            ot,
                            f2,
                        ));
                    }
                },
                Op::LtEquals => {
                    if self.stack.len() < 2 {
                        self.running = false;
                        proof {
                            reveal_with_fuel(run_spec, 1);
                            assert(run_spec(prog_v, st0, p0, sc0, ot, fp) == RunOut {
                                result: Err(AbsVmError::StackUnderflow),
                                stack: st0,
                                scope: sc0,
                                fuel: f2,
                                out: ot,
                            });
                        }
                        return (Err(VmError::StackUnderflow), fuel_now);
                    }
                    let b = self.stack.pop().unwrap();
                    let a = self.stack.pop().unwrap();
                    proof {
                        assert(vals_view(self.stack@) =~= st0.take(n - 2));
                        assert(value_view(a) == st0[n - 2]);
                        assert(value_view(b) == st0[n - 1]);
                    }
                    let r = match a.compare(&b) {
                        Some(Cmp::Less) => true,
                        Some(Cmp::Equal) => true,
                        _ => false,
                    };
                    self.stack.push(Value::BoolLiteral(r));
                    self.pointer = self.pointer + 1;
                    proof {
                        reveal_with_fuel(run_spec, 1);
                        let bv = AbsValue::Bool(abs_le(st0[n - 2], st0[n - 1]));
                        assert(vals_view(self.stack@) =~= st0.take(n - 2).push(bv));
                        assert(run_spec(prog_v, st0, p0, sc0, ot, fp) == run_spec(
                            prog_v,
                            st0.take(n - 2).push(bv),
                            p0 + 1,
                            sc0,
                            ot,
                            f2,
                        ));
                    }
                },
                Op::GtEquals => {
                    if self.stack.len() < 2 {
                        self.running = false;
                        proof {
                            reveal_with_fuel(run_spec, 1);
                            assert(run_spec(prog_v, st0, p0, sc0, ot, fp) == RunOut {
                                result: Err(AbsVmError::StackUnderflow),
                                stack: st0,
                                scope: sc0,
                                fuel: f2,
                                out: ot,
                            });
                        }
                        return (Err(VmError::StackUnderflow), fuel_now);
                    }
                    let b = self.stack.pop().unwrap();
                    let a = self.stack.pop().unwrap();
                    proof {
                        assert(vals_view(self.stack@) =~= st0.take(n - 2));
                        assert(value_view(a) == st0[n - 2]);
                        assert(value_view(b) == st0[n - 1]);
                    }
                    let r = match a.compare(&b) {
                        Some(Cmp::Greater) => true,
                        Some(Cmp::Equal) => true,
                        _ => false,
                    };
                    self.stack.push(Value::BoolLiteral(r));
                    self.pointer = self.pointer + 1;
                    proof {
                        reveal_with_fuel(run_spec, 1);
                        let bv = AbsValue::Bool(abs_ge(st0[n - 2], st0[n - 1]));
                        assert(vals_view(self.stack@) =~= st0.take(n - 2).push(bv));
                        assert(run_spec(prog_v, st0, p0, sc0, ot, fp) == run_spec(
                            prog_v,
                            st0.take(n - 2).push(bv),
                            p0 + 1,
                            sc0,
                            ot,
                            f2,
                        ));
                    }
                },
                Op::Return => {
                    self.running = false;
                    proof {
                        reveal_with_fuel(run_spec, 1);
                        assert(run_spec(prog_v, st0, p0, sc0, ot, fp) == RunOut {
                            result: Ok(top_opt(st0)),
                            stack: st0,
                            scope: sc0,
                            fuel: f2,
                            out: ot,
                        });
                    }
                    let r = if self.stack.len() > 0 {
                        let v = self.stack[self.stack.len() - 1].clone();
                        proof {
                            assert(value_view(v) == st0[n - 1]);
                            assert(st0.last() == st0[n - 1]);
                        }
                        Some(v)
                    } else {
                        None
                    };
                    return (Ok(r), fuel_now);
                },
                Op::Define => {
                    let ln = self.stack.len();
                    if ln < 1 {
                        self.running = false;
                        proof {
                            reveal_with_fuel(run_spec, 1);
                            assert(run_spec(prog_v, st0, p0, sc0, ot, fp) == RunOut {
                                result: Err(AbsVmError::StackUnderflow),
                                stack: st0,
                                scope: sc0,
                                fuel: f2,
                                out: ot,
                            });
                        }
                        return (Err(VmError::StackUnderflow), fuel_now);
                    }
                    if !matches!(&self.stack[ln - 1], Value::StringLiteral(_)) {
                        self.running = false;
                        proof {
                            reveal_with_fuel(run_spec, 1);
                            assert(run_spec(prog_v, st0, p0, sc0, ot, fp) == RunOut {
                                result: Err(AbsVmError::BrokenAssignment),
                                stack: st0,
                                scope: sc0,
                                fuel: f2,
                                out: ot,
                            });
                        }
                        return (Err(VmError::BrokenAssignment), fuel_now);
                    }
                    if ln < 2 {
                        self.running = false;
                        proof {
                            reveal_with_fuel(run_spec, 1);
                            assert(run_spec(prog_v, st0, p0, sc0, ot, fp) == RunOut {
                                result: Err(AbsVmError::StackUnderflow),
                                stack: st0,
                                scope: sc0,
                                fuel: f2,
                                out: ot,
                            });
                        }
                        return (Err(VmError::StackUnderflow), fuel_now);
                    }
                    let nv = self.stack.pop().unwrap();
                    let val = self.stack.pop().unwrap();
                    proof {
                        assert(vals_view(self.stack@) =~= st0.take(n - 2));
                        assert(value_view(nv) == st0[n - 1]);
                        assert(value_view(val) == st0[n - 2]);
                    }
                    match nv {
                        Value::StringLiteral(s) => {
                            let ghost name = s@;
                            scope.insert(s, val);
                            self.pointer = self.pointer + 1;
                            proof {
                                reveal_with_fuel(run_spec, 1);
                                assert(run_spec(prog_v, st0, p0, sc0, ot, fp) == run_spec(
                                    prog_v,
                                    st0.take(n - 2),
                                    p0 + 1,
                                    sc0.insert(name, st0[n - 2]),
                                    ot,
                                    f2,
                                ));
                            }
                        },
                        _ => {
                            proof {
                                assert(false);
                            }
                            self.running = false;
                            return (Err(VmError::BrokenAssignment), fuel_now);
                        },
                    }
                },
                Op::Name(s) => {
                    match scope.get(&s) {
                        Some(v) => {
                            let c = v.clone();
                            self.stack.push(c);
                            proof {
                                reveal_with_fuel(run_spec, 1);
                                assert(sc0.contains_key(s@));
                                assert(vals_view(self.stack@) =~= st0.push(sc0[s@]));
                                assert(run_spec(prog_v, st0, p0, sc0, ot, fp) == run_spec(
                                    prog_v,
                                    st0.push(sc0[s@]),
                                    p0 + 1,
                                    sc0,
                                    ot,
                                    f2,
                                ));
                            }
                        },
                        None => {
                            proof {
                                reveal_with_fuel(run_spec, 1);
                                assert(!sc0.contains_key(s@));
                                assert(run_spec(prog_v, st0, p0, sc0, ot, fp) == run_spec(
                                    prog_v,
                                    st0,
                                    p0 + 1,
                                    sc0,
                                    ot,
                                    f2,
                                ));
                            }
                        },
                    }
                    self.pointer = self.pointer + 1;
                },
                Op::JumpUnless(off) => {
                    if self.stack.len() < 1 {
                        self.running = false;
                        proof {
                            reveal_with_fuel(run_spec, 1);
                            assert(run_spec(prog_v, st0, p0, sc0, ot, fp) == RunOut {
                                result: Err(AbsVmError::StackUnderflow),
                                stack: st0,
                                scope: sc0,
                                fuel: f2,
                                out: ot,
                            });
                        }
                        return (Err(VmError::StackUnderflow), fuel_now);
                    }
                    let c = self.stack.pop().unwrap();
                    proof {
                        assert(vals_view(self.stack@) =~= st0.take(n - 1));
                        assert(value_view(c) == st0[n - 1]);
                    }
                    if !c.to_boolean() {
                        let target: i128 = self.pointer as i128 + off as i128;
                        if target < 0 {
                            self.running = false;
                            proof {
                                reveal_with_fuel(run_spec, 1);
                                assert(run_spec(prog_v, st0, p0, sc0, ot, fp) == RunOut {
                                    result: Err(AbsVmError::BadJump),
                                    stack: st0.take(n - 1),
                                    scope: sc0,
                                    fuel: f2,
                                    out: ot,
                                });
                            }
                            return (Err(VmError::BadJump), fuel_now);
                        } else if target >= self.program.len() as i128 {
                            self.pointer = self.program.len();
                            proof {
                                reveal_with_fuel(run_spec, 1);
                                assert(run_spec(prog_v, st0, p0, sc0, ot, fp) == run_spec(
                                    prog_v,
                                    st0.take(n - 1),
                                    p0 + off as int,
                                    sc0,
                                    ot,
                                    f2,
                                ));
                                assert(run_spec(prog_v, st0.take(n - 1), p0 + off as int, sc0, ot, f2)
                                    == run_spec(
                                    prog_v,
                                    st0.take(n - 1),
                                    self.pointer as int,
                                    sc0,
                                    ot,
                                    f2,
                                ));
                            }
                        } else {
                            self.pointer = target as usize;
                            proof {
                                reveal_with_fuel(run_spec, 1);
                                assert(run_spec(prog_v, st0, p0, sc0, ot, fp) == run_spec(
                                    prog_v,
                                    st0.take(n - 1),
                                    p0 + off as int,
                                    sc0,
                                    ot,
                                    f2,
                                ));
                            }
                        }
                    } else {
                        self.pointer = self.pointer + 1;
                        proof {
                            reveal_with_fuel(run_spec, 1);
                            assert(run_spec(prog_v, st0, p0, sc0, ot, fp) == run_spec(
                                prog_v,
                                st0.take(n - 1),
                                p0 + 1,
                                sc0,
                                ot,
                                f2,
                            ));
                        }
                    }
                },
                Op::JumpIf(off) => {
                    if self.stack.len() < 1 {
                        self.running = false;
                        proof {
                            reveal_with_fuel(run_spec, 1);
                            assert(run_spec(prog_v, st0, p0, sc0, ot, fp) == RunOut {
                                result: Err(AbsVmError::StackUnderflow),
                                stack: st0,
                                scope: sc0,
                                fuel: f2,
                                out: ot,
                            });
                        }
                        return (Err(VmError::StackUnderflow), fuel_now);
                    }
                    let c = self.stack.pop().unwrap();
                    proof {
                        assert(vals_view(self.stack@) =~= st0.take(n - 1));
                        assert(value_view(c) == st0[n - 1]);
                    }
                    if c.to_boolean() {
                        let target: i128 = self.pointer as i128 + off as i128;
                        if target < 0 {
                            self.running = false;
                            proof {
                                reveal_with_fuel(run_spec, 1);
                                assert(run_spec(prog_v, st0, p0, sc0, ot, fp) == RunOut {
                                    result: Err(AbsVmError::BadJump),
                                    stack: st0.take(n - 1),
                                    scope: sc0,
                                    fuel: f2,
                                    out: ot,
                                });
                            }
                            return (Err(VmError::BadJump), fuel_now);
                        } else if target >= self.program.len() as i128 {
                            self.pointer = self.program.len();
                            proof {
                                reveal_with_fuel(run_spec, 1);
                                assert(run_spec(prog_v, st0, p0, sc0, ot, fp) == run_spec(
                                    prog_v,
                                    st0.take(n - 1),
                                    p0 + off as int,
                                    sc0,
                                    ot,
                                    f2,
                                ));
                                assert(run_spec(prog_v, st0.take(n - 1), p0 + off as int, sc0, ot, f2)
                                    == run_spec(
                                    prog_v,
                                    st0.take(n - 1),
                                    self.pointer as int,
                                    sc0,
                                    ot,
                                    f2,
                                ));
                            }
                        } else {
                            self.pointer = target as usize;
                            proof {
                                reveal_with_fuel(run_spec, 1);
                                assert(run_spec(prog_v, st0, p0, sc0, ot, fp) == run_spec(
                                    prog_v,
                                    st0.take(n - 1),
                                    p0 + off as int,
                                    sc0,
                                    ot,
                                    f2,
                                ));
                            }
                        }
                    } else {
                        self.pointer = self.pointer + 1;
                        proof {
                            reveal_with_fuel(run_spec, 1);
                            assert(run_spec(prog_v, st0, p0, sc0, ot, fp) == run_spec(
                                prog_v,
                                st0.take(n - 1),
                                p0 + 1,
                                sc0,
                                ot,
                                f2,
                            ));
                        }
                    }
                },
                Op::Jump(off) => {
                    let target: i128 = self.pointer as i128 + off as i128;
                    if target < 0 {
                        self.running = false;
                        proof {
                            reveal_with_fuel(run_spec, 1);
                            assert(run_spec(prog_v, st0, p0, sc0, ot, fp) == RunOut {
                                result: Err(AbsVmError::BadJump),
                                stack: st0,
                                scope: sc0,
                                fuel: f2,
                                out: ot,
                            });
                        }
                        return (Err(VmError::BadJump), fuel_now);
                    } else if target >= self.program.len() as i128 {
                        self.pointer = self.program.len();
                        proof {
                            reveal_with_fuel(run_spec, 1);
                            assert(run_spec(prog_v, st0, p0, sc0, ot, fp) == run_spec(
                                prog_v,
                                st0,
                                p0 + off as int,
                                sc0,
                                ot,
                                f2,
                            ));
                            assert(run_spec(prog_v, st0, p0 + off as int, sc0, ot, f2) == run_spec(
                                prog_v,
                                st0,
                                self.pointer as int,
                                sc0,
                                ot,
                                f2,
                            ));
                        }
                    } else {
                        self.pointer = target as usize;
                        proof {
                            reveal_with_fuel(run_spec, 1);
                            assert(run_spec(prog_v, st0, p0, sc0, ot, fp) == run_spec(
                                prog_v,
                                st0,
                                p0 + off as int,
                                sc0,
                                ot,
                                f2,
                            ));
                        }
                    }
                },
                Op::Call => {
                    let ln = self.stack.len();
                    if ln < 1 {
                        self.running = false;
                        proof {
                            reveal_with_fuel(run_spec, 1);
                            assert(run_spec(prog_v, st0, p0, sc0, ot, fp) == RunOut {
                                result: Err(AbsVmError::StackUnderflow),
                                stack: st0,
                                scope: sc0,
                                fuel: f2,
                                out: ot,
                            });
                        }
                        return (Err(VmError::StackUnderflow), fuel_now);
                    }
                    let cnt: i64 = match &self.stack[ln - 1] {
                        Value::IntLiteral(c) => *c,
                        _ => {
                            self.running = false;
                            proof {
                                reveal_with_fuel(run_spec, 1);
                                assert(run_spec(prog_v, st0, p0, sc0, ot, fp) == RunOut {
                                    result: Err(AbsVmError::BadArgCount),
                                    stack: st0,
                                    scope: sc0,
                                    fuel: f2,
                                    out: ot,
                                });
                            }
                            return (Err(VmError::BadArgCount), fuel_now);
                        },
                    };
                    proof {
                        assert(st0[n - 1] == AbsValue::Int(cnt as int));
                    }
                    if cnt < 0 {
                        self.running = false;
                        proof {
                            reveal_with_fuel(run_spec, 1);
                            assert(run_spec(prog_v, st0, p0, sc0, ot, fp) == RunOut {
                                result: Err(AbsVmError::BadArgCount),
                                stack: st0,
                                scope: sc0,
                                fuel: f2,
                                out: ot,
                            });
                        }
                        return (Err(VmError::BadArgCount), fuel_now);
                    }
                    if (cnt as i128) > (ln as i128) - 2 {
                        self.running = false;
                        proof {
                            reveal_with_fuel(run_spec, 1);
                            assert(run_spec(prog_v, st0, p0, sc0, ot, fp) == RunOut {
                                result: Err(AbsVmError::StackUnderflow),
                                stack: st0,
                                scope: sc0,
                                fuel: f2,
                                out: ot,
                            });
                        }
                        return (Err(VmError::StackUnderflow), fuel_now);
                    }
                    let k = cnt as usize;
                    self.stack.pop();
                    let ghost args_v = st0.subrange(n - 1 - cnt as int, n - 1);
                    let ghost base_v = st0.take(n - 2 - cnt as int);
                    proof {
                        assert(vals_view(self.stack@) =~= st0.take(n - 1));
                    }
                    let mut args: Vec<Value> = Vec::new();
                    let mut idx = ln - 1 - k;
                    while idx < ln - 1
                        invariant
                            ln - 1 - k <= idx <= ln - 1,
                            ln == n,
                            k == cnt,
                            0 <= cnt,
                            n >= k + 2,
                            n == st0.len(),
                            self.stack@.len() == n - 1,
                            vals_view(self.stack@) == st0.take(n - 1),
                            args@.len() == idx - (ln - 1 - k),
                            forall|q: int|
                                0 <= q < args@.len() ==> value_view(args@[q]) == st0[n - 1 - cnt
                                    + q],
                        decreases ln - 1 - idx,
                    {
                        let e = self.stack[idx].clone();
                        proof {
                            assert(value_view(self.stack@[idx as int]) == vals_view(self.stack@)[
                                idx as int
                            ]);
                            assert(st0.take(n - 1)[idx as int] == st0[idx as int]);
                        }
                        args.push(e);
                        idx = idx + 1;
                    }
                    proof {
                        assert(vals_view(args@) =~= args_v);
                    }
                    self.stack.truncate(ln - 1 - k);
                    let callee = self.stack.pop().unwrap();
                    proof {
                        assert(vals_view(self.stack@) =~= base_v);
                        assert(value_view(callee) == st0[n - 2 - cnt as int]);
                    }
                    match callee {
                        Value::Object(obj) => {
                            match obj {
                                Object::Function { args: params, body } => {
                                    let ghost ps_all = strs_view(params@);
                                    let ghost body_v = ops_view(body@);
                                    proof {
                                        assert(st0[n - 2 - cnt as int] == AbsValue::Obj(
                                            AbsObject::Function { params: ps_all, body: body_v },
                                        ));
                                    }
                                    let ghost sc_entry = scope@;
                                    let mut j: usize = 0;
                                    proof {
                                        assert(ps_all.skip(0) =~= ps_all);
                                        assert(args_v.skip(0) =~= args_v);
                                    }
                                    while j < params.len()
                                        invariant
                                            j <= params@.len(),
                                            ps_all == strs_view(params@),
                                            args_v == vals_view(args@),
                                            bind_params(sc_entry, ps_all, args_v) == bind_params(
                                                scope@,
                                                ps_all.skip(j as int),
                                                if j as int <= args_v.len() {
                                                    args_v.skip(j as int)
                                                } else {
                                                    args_v.skip(args_v.len() as int)
                                                },
                                            ),
                                        decreases params@.len() - j,
                                    {
                                        let v = if j < args.len() {
                                            args[j].clone()
                                        } else {
                                            Value::Nil
                                        };
                                        let name = params[j].clone();
                                        proof {
                                            let rem_p = ps_all.skip(j as int);
                                            assert(rem_p[0] == ps_all[j as int]);
                                            assert(rem_p.drop_first() =~= ps_all.skip(j as int + 1));
                                            assert(ps_all[j as int] == params@[j as int]@);
                                            assert(name@ == params@[j as int]@);
                                            if (j as int) < args_v.len() {
                                                let rem_v = args_v.skip(j as int);
                                                assert(rem_v[0] == args_v[j as int]);
                                                assert(rem_v.drop_first() =~= args_v.skip(
                                                    j as int + 1,
                                                ));
                                                assert(value_view(v) == args_v[j as int]);
                                            } else {
                                                assert(args_v.skip(args_v.len() as int).len() == 0);
                                                assert(value_view(v) == AbsValue::Nil);
                                            }
                                        }
                                        scope.insert(name, v);
                                        j = j + 1;
                                    }
                                    proof {
                                        assert(ps_all.skip(ps_all.len() as int).len() == 0);
                                        if ps_all.len() as int <= args_v.len() {
                                            assert(bind_params(
                                                scope@,
                                                ps_all.skip(ps_all.len() as int),
                                                args_v.skip(ps_all.len() as int),
                                            ) == scope@);
                                        } else {
                                            assert(bind_params(
                                                scope@,
                                                ps_all.skip(ps_all.len() as int),
                                                args_v.skip(args_v.len() as int),
                                            ) == scope@);
                                        }
                                        assert(scope@ == bind_params(sc_entry, ps_all, args_v));
                                    }
                                    let mut frame = Machine::new(body);
                                    let ghost sc2 = bind_params(sc_entry, ps_all, args_v);
                                    let (r, rem) = frame.run_with_budget(scope, fuel_now);
                                    let ghost sub = run_spec(body_v, Seq::empty(), 0, sc2, Seq::empty(), f2);
                                    proof {
                                        reveal_with_fuel(run_spec, 1);
                                        assert(vals_view(Seq::<Value>::empty()) =~= Seq::<
                                            AbsValue,
                                        >::empty());
                                        lemma_run_spec_fuel(body_v, Seq::empty(), 0, sc2, Seq::empty(), f2);
                                        assert(rem as nat == sub.fuel);
                                        assert(sub.fuel <= f2);
                                        assert(res_view(r) == sub.result);
                                        assert(scope@ == sub.scope);
                                    }
                                    self.output.append(frame.output.as_str());
                                    proof {
                                        assert(frame.output@ == sub.out);
                                        assert(self.output@ == ot + sub.out);
                                    }
                                    fuel_now = rem;
                                    match r {
                                        Err(e) => {
                                            self.running = false;
                                            proof {
                                                reveal_with_fuel(run_spec, 1);
                                                assert(run_spec(prog_v, st0, p0, sc0, ot, fp) == RunOut {
                                                    result: Err(err_view(e)),
                                                    stack: base_v,
                                                    scope: sub.scope,
                                                    fuel: sub.fuel,
                                                    out: ot + sub.out,
                                                });
                                            }
                                            return (Err(e), fuel_now);
                                        },
                                        Ok(Some(v)) => {
                                            let ghost vv = value_view(v);
                                            self.stack.push(v);
                                            self.pointer = self.pointer + 1;
                                            proof {
                                                reveal_with_fuel(run_spec, 1);
                                                assert(vals_view(self.stack@) =~= base_v.push(vv));
                                                assert(run_spec(prog_v, st0, p0, sc0, ot, fp)
                                                    == run_spec(
                                                    prog_v,
                                                    base_v.push(vv),
                                                    p0 + 1,
                                                    sub.scope,
                                                    ot + sub.out,
                                                    sub.fuel,
                                                ));
                                            }
                                        },
                                        Ok(None) => {
                                            self.pointer = self.pointer + 1;
                                            proof {
                                                reveal_with_fuel(run_spec, 1);
                                                assert(run_spec(prog_v, st0, p0, sc0, ot, fp)
                                                    == run_spec(
                                                    prog_v,
                                                    base_v,
                                                    p0 + 1,
                                                    sub.scope,
                                                    ot + sub.out,
                                                    sub.fuel,
                                                ));
                                            }
                                        },
                                    }
                                },
                                Object::Native(native) => {
                                    proof {
                                        assert(st0[n - 2 - cnt as int] == AbsValue::Obj(
                                            AbsObject::Native(native),
                                        ));
                                    }
                                    let joined = join_values(&args);
                                    proof {
                                        assert(joined@ == join_abs(args_v));
                                    }
                                    match native {
                                        Native::Puts => {
                                            self.output.append(joined.as_str());
                                            proof {
                                                assert(self.output@ == ot + join_abs(args_v));
                                            }
                                            self.stack.push(Value::StringLiteral(joined));
                                            self.pointer = self.pointer + 1;
                                            proof {
                                                reveal_with_fuel(run_spec, 1);
                                                let sv = AbsValue::Str(join_abs(args_v));
                                                assert(vals_view(self.stack@) =~= base_v.push(sv));
                                                assert(run_spec(prog_v, st0, p0, sc0, ot, fp)
                                                    == run_spec(
                                                    prog_v,
                                                    base_v.push(sv),
                                                    p0 + 1,
                                                    sc0,
                                                    ot + join_abs(args_v),
                                                    f2,
                                                ));
                                            }
                                        },
                                        Native::Putsln => {
                                            self.output.append(joined.as_str());
                                            push_char(&mut self.output, '\n');
                                            proof {
                                                crate::strutil::lemma_push_is_concat(
                                                    ot + join_abs(args_v),
                                                    '\n',
                                                );
                                                assert(self.output@ == ot + join_abs(args_v)
                                                    + seq!['\n']);
                                            }
                                            self.stack.push(Value::StringLiteral(joined));
                                            self.pointer = self.pointer + 1;
                                            proof {
                                                reveal_with_fuel(run_spec, 1);
                                                let sv = AbsValue::Str(join_abs(args_v));
                                                assert(vals_view(self.stack@) =~= base_v.push(sv));
                                                assert(run_spec(prog_v, st0, p0, sc0, ot, fp)
                                                    == run_spec(
                                                    prog_v,
                                                    base_v.push(sv),
                                                    p0 + 1,
                                                    sc0,
                                                    ot + join_abs(args_v) + seq!['\n'],
                                                    f2,
                                                ));
                                            }
                                        },
                                        Native::Angry => {
                                            self.running = false;
                                            proof {
                                                reveal_with_fuel(run_spec, 1);
                                                assert(run_spec(prog_v, st0, p0, sc0, ot, fp) == RunOut {
                                                    result: Err(AbsVmError::Abort(join_abs(args_v))),
                                                    stack: base_v,
                                                    scope: sc0,
                                                    fuel: f2,
                                                    out: ot,
                                                });
                                            }
                                            return (Err(VmError::Abort(joined)), fuel_now);
                                        },
                                    }
                                },
                            }
                        },
                        _ => {
                            self.running = false;
                            proof {
                                reveal_with_fuel(run_spec, 1);
                                assert(run_spec(prog_v, st0, p0, sc0, ot, fp) == RunOut {
                                    result: Err(AbsVmError::InvalidCall),
                                    stack: base_v,
                                    scope: sc0,
                                    fuel: f2,
                                    out: ot,
                                });
                            }
                            return (Err(VmError::InvalidCall), fuel_now);
                        },
                    }
                },
            }
        }
        self.running = false;
        proof {
            reveal_with_fuel(run_spec, 1);
            assert(run_spec(
                prog_v,
                vals_view(self.stack@),
                self.pointer as int,
                scope@,
                self.output@,
                fuel_now as nat,
            ) == RunOut {
                result: Ok(top_opt(vals_view(self.stack@))),
                stack: vals_view(self.stack@),
                scope: scope@,
                fuel: fuel_now as nat,
                out: self.output@,
            });
        }
        let r = if self.stack.len() > 0 {
            let v = self.stack[self.stack.len() - 1].clone();
            proof {
                let stv = vals_view(self.stack@);
                assert(value_view(v) == stv[stv.len() - 1]);
                assert(stv.last() == stv[stv.len() - 1]);
            }
            Some(v)
        } else {
            None
        };
        return (Ok(r), fuel_now);
    }
}

} // verus!

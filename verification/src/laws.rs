//! Laws of the pipeline, proved once and for all inputs: how compiled
//! two-literal arithmetic evaluates, the bind-then-read round trip, the
//! sharing of one scope across calls, and the push-nothing behaviour of
//! unbound name lookups.

use vstd::prelude::*;

verus! {

use crate::ast::{Expression, Operand};
use crate::compiler::compile_expr;
use crate::error::AbsVmError;
use crate::op::AbsOp;
use crate::machine::{run_spec, bind_params, RunOut};
use crate::value::{Value, AbsValue, AbsObject, wrap_to_i64};

/// For any two integer literals `a` and `b`, the compiled expression `a + b`
/// evaluates to the host integer sum (with wrapping), on any scope.
pub proof fn law_two_int_literals_add(
    e: Expression,
    a: i64,
    b: i64,
    scope: Map<Seq<char>, AbsValue>,
    acc: Seq<char>,
    fuel: nat,
)
    requires
        e matches Expression::Operation(l, op, r) && *l == Expression::Atom(
            Value::IntLiteral(a),
        ) && op == Operand::Plus && *r == Expression::Atom(Value::IntLiteral(b)),
        fuel >= 3,
    ensures
        run_spec(compile_expr(e), Seq::empty(), 0, scope, acc, fuel).result == Ok::<
            Option<AbsValue>,
            AbsVmError,
        >(Some(AbsValue::Int(wrap_to_i64(a as int + b as int)))),
{
    reveal_with_fuel(run_spec, 1);
    let p = compile_expr(e);
    assert(compile_expr(*(e->Operation_0)) =~= seq![AbsOp::Value(AbsValue::Int(a as int))]);
    assert(compile_expr(*(e->Operation_2)) =~= seq![AbsOp::Value(AbsValue::Int(b as int))]);
    assert(p =~= seq![
        AbsOp::Value(AbsValue::Int(b as int)),
        AbsOp::Value(AbsValue::Int(a as int)),
        AbsOp::Add,
    ]);
    let s0 = Seq::<AbsValue>::empty();
    let s1 = s0.push(AbsValue::Int(b as int));
    let s2 = s1.push(AbsValue::Int(a as int));
    assert(run_spec(p, s0, 0, scope, acc, fuel) == run_spec(p, s1, 1, scope, acc, (fuel - 1) as nat));
    assert(run_spec(p, s1, 1, scope, acc, (fuel - 1) as nat) == run_spec(
        p,
        s2,
        2,
        scope,
        acc,
        (fuel - 2) as nat,
    ));
    let v = AbsValue::Int(wrap_to_i64(b as int + a as int));
    assert(s2[0] == AbsValue::Int(b as int));
    assert(s2[1] == AbsValue::Int(a as int));
    let s3 = s2.take(0).push(v);
    assert(run_spec(p, s2, 2, scope, acc, (fuel - 2) as nat) == run_spec(
        p,
        s3,
        3,
        scope,
        acc,
        (fuel - 3) as nat,
    ));
    assert(s3.len() == 1);
    assert(s3.last() == v);
    assert(run_spec(p, s3, 3, scope, acc, (fuel - 3) as nat).result == Ok::<
        Option<AbsValue>,
        AbsVmError,
    >(Some(v)));
    assert(wrap_to_i64(b as int + a as int) == wrap_to_i64(a as int + b as int));
}

/// For any two integer literals `a` and `b`, the compiled expression `a - b`
/// evaluates to `b - a` (with wrapping), on any scope: the documented
/// reversed-operand behaviour of subtraction.
pub proof fn law_two_int_literals_sub(
    e: Expression,
    a: i64,
    b: i64,
    scope: Map<Seq<char>, AbsValue>,
    acc: Seq<char>,
    fuel: nat,
)
    requires
        e matches Expression::Operation(l, op, r) && *l == Expression::Atom(
            Value::IntLiteral(a),
        ) && op == Operand::Minus && *r == Expression::Atom(Value::IntLiteral(b)),
        fuel >= 3,
    ensures
        run_spec(compile_expr(e), Seq::empty(), 0, scope, acc, fuel).result == Ok::<
            Option<AbsValue>,
            AbsVmError,
        >(Some(AbsValue::Int(wrap_to_i64(b as int - a as int)))),
{
    reveal_with_fuel(run_spec, 1);
    let p = compile_expr(e);
    assert(compile_expr(*(e->Operation_0)) =~= seq![AbsOp::Value(AbsValue::Int(a as int))]);
    assert(compile_expr(*(e->Operation_2)) =~= seq![AbsOp::Value(AbsValue::Int(b as int))]);
    assert(p =~= seq![
        AbsOp::Value(AbsValue::Int(b as int)),
        AbsOp::Value(AbsValue::Int(a as int)),
        AbsOp::Sub,
    ]);
    let s0 = Seq::<AbsValue>::empty();
    let s1 = s0.push(AbsValue::Int(b as int));
    let s2 = s1.push(AbsValue::Int(a as int));
    assert(run_spec(p, s0, 0, scope, acc, fuel) == run_spec(p, s1, 1, scope, acc, (fuel - 1) as nat));
    assert(run_spec(p, s1, 1, scope, acc, (fuel - 1) as nat) == run_spec(
        p,
        s2,
        2,
        scope,
        acc,
        (fuel - 2) as nat,
    ));
    let v = AbsValue::Int(wrap_to_i64(b as int - a as int));
    assert(s2[0] == AbsValue::Int(b as int));
    assert(s2[1] == AbsValue::Int(a as int));
    let s3 = s2.take(0).push(v);
    assert(run_spec(p, s2, 2, scope, acc, (fuel - 2) as nat) == run_spec(
        p,
        s3,
        3,
        scope,
        acc,
        (fuel - 3) as nat,
    ));
    assert(s3.len() == 1);
    assert(s3.last() == v);
    assert(run_spec(p, s3, 3, scope, acc, (fuel - 3) as nat).result == Ok::<
        Option<AbsValue>,
        AbsVmError,
    >(Some(v)));
}

/// Binding a name and then reading it yields the bound value, for every
/// name, value and starting scope: the `Define` / `Name` round trip.
pub proof fn law_define_then_name(
    v: AbsValue,
    name: Seq<char>,
    prog: Seq<AbsOp>,
    scope: Map<Seq<char>, AbsValue>,
    acc: Seq<char>,
    fuel: nat,
)
    requires
        prog == seq![
            AbsOp::Value(v),
            AbsOp::Value(AbsValue::Str(name)),
            AbsOp::Define,
            AbsOp::Name(name),
        ],
        fuel >= 4,
    ensures
        ({
            let o = run_spec(prog, Seq::empty(), 0, scope, acc, fuel);
            &&& o.result == Ok::<Option<AbsValue>, AbsVmError>(Some(v))
            &&& o.scope == scope.insert(name, v)
            &&& o.stack == seq![v]
        }),
{
    reveal_with_fuel(run_spec, 1);
    let s0 = Seq::<AbsValue>::empty();
    let s1 = s0.push(v);
    let s2 = s1.push(AbsValue::Str(name));
    assert(run_spec(prog, s0, 0, scope, acc, fuel) == run_spec(prog, s1, 1, scope, acc, (fuel - 1) as nat));
    assert(run_spec(prog, s1, 1, scope, acc, (fuel - 1) as nat) == run_spec(
        prog,
        s2,
        2,
        scope,
        acc,
        (fuel - 2) as nat,
    ));
    assert(s2[1] == AbsValue::Str(name));
    assert(s2[0] == v);
    let sc2 = scope.insert(name, v);
    assert(run_spec(prog, s2, 2, scope, acc, (fuel - 2) as nat) == run_spec(
        prog,
        s2.take(0),
        3,
        sc2,
        acc,
        (fuel - 3) as nat,
    ));
    assert(sc2.contains_key(name));
    assert(sc2[name] == v);
    let s4 = s2.take(0).push(v);
    assert(run_spec(prog, s2.take(0), 3, sc2, acc, (fuel - 3) as nat) == run_spec(
        prog,
        s4,
        4,
        sc2,
        acc,
        (fuel - 4) as nat,
    ));
    assert(s4.len() == 1);
    assert(s4.last() == v);
    assert(s4 =~= seq![v]);
    assert(run_spec(prog, s4, 4, sc2, acc, (fuel - 4) as nat).result == Ok::<
        Option<AbsValue>,
        AbsVmError,
    >(Some(v)));
}

/// A called function shares the caller's scope: a binding made inside the
/// callee's body is in the scope the caller is left with, for every name,
/// value and starting scope — there is no isolation or restoration.
pub proof fn law_call_shares_scope(
    v: AbsValue,
    name: Seq<char>,
    prog: Seq<AbsOp>,
    body: Seq<AbsOp>,
    scope: Map<Seq<char>, AbsValue>,
    acc: Seq<char>,
    fuel: nat,
)
    requires
        body == seq![AbsOp::Value(v), AbsOp::Value(AbsValue::Str(name)), AbsOp::Define],
        prog == seq![
            AbsOp::Value(AbsValue::Obj(AbsObject::Function { params: Seq::empty(), body })),
            AbsOp::Value(AbsValue::Int(0)),
            AbsOp::Call,
        ],
        fuel >= 7,
    ensures
        run_spec(prog, Seq::empty(), 0, scope, acc, fuel).scope == scope.insert(name, v),
{
    reveal_with_fuel(run_spec, 1);
    let fobj = AbsValue::Obj(AbsObject::Function { params: Seq::empty(), body });
    let s0 = Seq::<AbsValue>::empty();
    let s1 = s0.push(fobj);
    let s2 = s1.push(AbsValue::Int(0));
    assert(run_spec(prog, s0, 0, scope, acc, fuel) == run_spec(
        prog,
        s1,
        1,
        scope,
        acc,
        (fuel - 1) as nat,
    ));
    assert(run_spec(prog, s1, 1, scope, acc, (fuel - 1) as nat) == run_spec(
        prog,
        s2,
        2,
        scope,
        acc,
        (fuel - 2) as nat,
    ));
    // the Call instruction: no arguments, the callee is the function object
    assert(s2[1] == AbsValue::Int(0));
    assert(s2.subrange(1, 1) =~= Seq::<AbsValue>::empty());
    assert(s2[0] == fobj);
    assert(s2.take(0) =~= Seq::<AbsValue>::empty());
    assert(bind_params(scope, Seq::empty(), Seq::empty()) == scope);
    // the callee's body binds the name in the shared scope
    let f3 = (fuel - 3) as nat;
    let b1 = Seq::<AbsValue>::empty().push(v);
    let b2 = b1.push(AbsValue::Str(name));
    let sc2 = scope.insert(name, v);
    assert(run_spec(body, Seq::empty(), 0, scope, Seq::empty(), f3) == run_spec(
        body,
        b1,
        1,
        scope,
        Seq::empty(),
        (f3 - 1) as nat,
    ));
    assert(run_spec(body, b1, 1, scope, Seq::empty(), (f3 - 1) as nat) == run_spec(
        body,
        b2,
        2,
        scope,
        Seq::empty(),
        (f3 - 2) as nat,
    ));
    assert(b2[1] == AbsValue::Str(name));
    assert(b2[0] == v);
    assert(b2.take(0) =~= Seq::<AbsValue>::empty());
    assert(run_spec(body, b2, 2, scope, Seq::empty(), (f3 - 2) as nat) == run_spec(
        body,
        Seq::empty(),
        3,
        sc2,
        Seq::empty(),
        (f3 - 3) as nat,
    ));
    let sub = run_spec(body, Seq::empty(), 0, scope, Seq::empty(), f3);
    assert(sub.result == Ok::<Option<AbsValue>, AbsVmError>(None::<AbsValue>));
    assert(sub.scope == sc2);
    assert(sub.fuel == (f3 - 3) as nat);
    // back in the caller: the run halts with the callee's scope
    assert(run_spec(prog, s2, 2, scope, acc, (fuel - 2) as nat) == run_spec(
        prog,
        Seq::empty(),
        3,
        sc2,
        acc + sub.out,
        sub.fuel,
    ));
    assert(run_spec(prog, Seq::<AbsValue>::empty(), 3, sc2, acc + sub.out, sub.fuel).scope
        == sc2);
}

/// Looking up an unbound name pushes nothing: execution continues at the
/// next instruction with the operand stack exactly as it was.
pub proof fn law_unbound_name_is_noop(
    prog: Seq<AbsOp>,
    stack: Seq<AbsValue>,
    p: int,
    scope: Map<Seq<char>, AbsValue>,
    acc: Seq<char>,
    fuel: nat,
    name: Seq<char>,
)
    requires
        0 <= p < prog.len(),
        prog[p] == AbsOp::Name(name),
        !scope.contains_key(name),
        fuel >= 1,
    ensures
        run_spec(prog, stack, p, scope, acc, fuel) == run_spec(
            prog,
            stack,
            p + 1,
            scope,
            acc,
            (fuel - 1) as nat,
        ),
{
    reveal_with_fuel(run_spec, 1);
}

} // verus!

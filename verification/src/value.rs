//! The runtime value model: tagged runtime values, callable objects, and the
//! mathematical semantics of the machine's arithmetic, equality, ordering and
//! truthiness rules.
//!
//! Every executable operation is specified against an abstract value
//! (`AbsValue`), the deep mathematical view of a `Value`.

use vstd::prelude::*;

verus! {

use crate::error::{VmError, AbsVmError, err_view};
use crate::op::{Op, AbsOp, op_view, ops_view};
use crate::strutil::{push_char, seq_lex_lt, str_lex_lt};
use vstd::string::StringExecFns;

/// A host-provided function callable from scripts. The set of natives is
/// closed: `puts` and `putsln` join their arguments, write them to the
/// machine's output and return the joined string; `angry` aborts the run
/// with the joined arguments as message.
#[derive(Debug, Clone, Copy, PartialEq, Eq, Structural)]
pub enum Native {
    Puts,
    Putsln,
    Angry,
}

/// A callable object: a native function, or a compiled closure-free function
/// carrying only its parameter names and its compiled body.
#[derive(Debug, PartialEq)]
pub enum Object {
    Native(Native),
    Function { args: Vec<String>, body: Vec<Op> },
}

/// A runtime value. Values are immutable and copied across stack moves.
#[derive(Debug, PartialEq)]
pub enum Value {
    IntLiteral(i64),
    StringLiteral(String),
    CharLiteral(char),
    BoolLiteral(bool),
    Object(Object),
    Nil,
}

/// The mathematical view of a callable object.
pub ghost enum AbsObject {
    Native(Native),
    Function { params: Seq<Seq<char>>, body: Seq<AbsOp> },
}

/// The mathematical view of a runtime value.
pub ghost enum AbsValue {
    Int(int),
    Str(Seq<char>),
    Char(char),
    Bool(bool),
    Obj(AbsObject),
    Nil,
}

/// The view of a parameter-name list.
pub open spec fn strs_view(args: Seq<String>) -> Seq<Seq<char>> {
    Seq::new(args.len(), |i: int| args[i]@)
}

/// The deep view of a value.
pub open spec fn value_view(v: Value) -> AbsValue
    decreases v,
{
    match v {
        Value::IntLiteral(n) => AbsValue::Int(n as int),
        Value::StringLiteral(s) => AbsValue::Str(s@),
        Value::CharLiteral(c) => AbsValue::Char(c),
        Value::BoolLiteral(b) => AbsValue::Bool(b),
        Value::Object(o) => AbsValue::Obj(object_view(o)),
        Value::Nil => AbsValue::Nil,
    }
}

/// The deep view of an object.
pub open spec fn object_view(o: Object) -> AbsObject
    decreases o,
{
    match o {
        Object::Native(n) => AbsObject::Native(n),
        Object::Function { args, body } => AbsObject::Function {
            params: strs_view(args@),
            body: crate::op::ops_view(body@),
        },
    }
}

/// The deep view of an operand stack.
pub open spec fn vals_view(s: Seq<Value>) -> Seq<AbsValue> {
    Seq::new(s.len(), |i: int| value_view(s[i]))
}

/// The width of the 64-bit integer ring.
pub open spec fn ring64() -> int {
    0x1_0000_0000_0000_0000
}

/// A sum or difference of two 64-bit integers, wrapped into the type.
pub open spec fn wrap_to_i64(n: int) -> int {
    if n > i64::MAX {
        n - ring64()
    } else if n < i64::MIN {
        n + ring64()
    } else {
        n
    }
}

/// A product of two 64-bit integers, wrapped into the type.
pub open spec fn wrap_mul_i64(x: int, y: int) -> int {
    if (x * y) % ring64() > i64::MAX {
        (x * y) % ring64() - ring64()
    } else {
        (x * y) % ring64()
    }
}

/// Division truncated toward zero, as the host integer division computes it.
pub open spec fn div_trunc(x: int, d: int) -> int {
    if x == 0 {
        0
    } else if x > 0 && d > 0 {
        x / d
    } else if x < 0 && d < 0 {
        (x * -1) / (d * -1)
    } else if x < 0 {
        ((x * -1) / d) * -1
    } else {
        (x / (d * -1)) * -1
    }
}

/// Addition: integers add with wrapping; strings concatenate; a character
/// appends to a string; two characters form a string. Everything else is an
/// invalid operation.
pub open spec fn abs_add(a: AbsValue, b: AbsValue) -> Result<AbsValue, AbsVmError> {
    match (a, b) {
        (AbsValue::Int(x), AbsValue::Int(y)) => Ok(AbsValue::Int(wrap_to_i64(x + y))),
        (AbsValue::Str(x), AbsValue::Str(y)) => Ok(AbsValue::Str(x + y)),
        (AbsValue::Str(x), AbsValue::Char(c)) => Ok(AbsValue::Str(x.push(c))),
        (AbsValue::Char(c), AbsValue::Char(d)) => Ok(AbsValue::Str(seq![c, d])),
        _ => Err(AbsVmError::InvalidOperation),
    }
}

/// Subtraction is defined on integers only, with wrapping.
pub open spec fn abs_sub(a: AbsValue, b: AbsValue) -> Result<AbsValue, AbsVmError> {
    match (a, b) {
        (AbsValue::Int(x), AbsValue::Int(y)) => Ok(AbsValue::Int(wrap_to_i64(x - y))),
        _ => Err(AbsVmError::InvalidOperation),
    }
}

/// Multiplication is defined on integers only, with wrapping.
pub open spec fn abs_mul(a: AbsValue, b: AbsValue) -> Result<AbsValue, AbsVmError> {
    match (a, b) {
        (AbsValue::Int(x), AbsValue::Int(y)) => Ok(AbsValue::Int(wrap_mul_i64(x, y))),
        _ => Err(AbsVmError::InvalidOperation),
    }
}

/// Division is defined on integers only; division by zero is an error and
/// the one overflowing quotient wraps.
pub open spec fn abs_div(a: AbsValue, b: AbsValue) -> Result<AbsValue, AbsVmError> {
    match (a, b) {
        (AbsValue::Int(x), AbsValue::Int(y)) => if y == 0 {
            Err(AbsVmError::DivisionByZero)
        } else if x == i64::MIN && y == -1 {
            Ok(AbsValue::Int(i64::MIN as int))
        } else {
            Ok(AbsValue::Int(div_trunc(x, y)))
        },
        _ => Err(AbsVmError::InvalidOperation),
    }
}

/// The language's equality: integers, booleans and strings compare by value,
/// `Nil` equals `Nil`, and every other pairing — characters and objects
/// included — is unequal.
pub open spec fn abs_eq(a: AbsValue, b: AbsValue) -> bool {
    match (a, b) {
        (AbsValue::Int(x), AbsValue::Int(y)) => x == y,
        (AbsValue::Bool(x), AbsValue::Bool(y)) => x == y,
        (AbsValue::Str(x), AbsValue::Str(y)) => x == y,
        (AbsValue::Nil, AbsValue::Nil) => true,
        _ => false,
    }
}

/// The outcome of an ordering comparison.
#[derive(Debug, Clone, Copy, PartialEq, Eq, Structural)]
pub enum Cmp {
    Less,
    Equal,
    Greater,
}

/// The language's ordering: equal values (by `abs_eq`) are `Equal`; otherwise
/// integers order numerically, booleans with `false` before `true`, strings
/// lexicographically; every other pairing is unordered.
pub open spec fn abs_cmp(a: AbsValue, b: AbsValue) -> Option<Cmp> {
    if abs_eq(a, b) {
        Some(Cmp::Equal)
    } else {
        match (a, b) {
            (AbsValue::Int(x), AbsValue::Int(y)) => Some(
                if x < y {
                    Cmp::Less
                } else {
                    Cmp::Greater
                },
            ),
            (AbsValue::Bool(x), AbsValue::Bool(y)) => Some(
                if !x && y {
                    Cmp::Less
                } else {
                    Cmp::Greater
                },
            ),
            (AbsValue::Str(x), AbsValue::Str(y)) => Some(
                if seq_lex_lt(x, y) {
                    Cmp::Less
                } else {
                    Cmp::Greater
                },
            ),
            _ => None,
        }
    }
}

pub open spec fn abs_lt(a: AbsValue, b: AbsValue) -> bool {
    abs_cmp(a, b) == Some(Cmp::Less)
}

pub open spec fn abs_le(a: AbsValue, b: AbsValue) -> bool {
    abs_cmp(a, b) == Some(Cmp::Less) || abs_cmp(a, b) == Some(Cmp::Equal)
}

pub open spec fn abs_gt(a: AbsValue, b: AbsValue) -> bool {
    abs_cmp(a, b) == Some(Cmp::Greater)
}

pub open spec fn abs_ge(a: AbsValue, b: AbsValue) -> bool {
    abs_cmp(a, b) == Some(Cmp::Greater) || abs_cmp(a, b) == Some(Cmp::Equal)
}

/// Truthiness: zero, the empty string and `Nil` are false; characters and
/// objects are always true.
pub open spec fn abs_to_bool(v: AbsValue) -> bool {
    match v {
        AbsValue::Int(x) => x != 0,
        AbsValue::Str(s) => s.len() > 0,
        AbsValue::Bool(b) => b,
        AbsValue::Char(_) => true,
        AbsValue::Obj(_) => true,
        AbsValue::Nil => false,
    }
}

/// Clones a parameter-name list, keeping every name.
pub(crate) fn clone_strings(v: &Vec<String>) -> (r: Vec<String>)
    ensures
        r@ == v@,
{
    let mut r: Vec<String> = Vec::new();
    let mut i: usize = 0;
    while i < v.len()
        invariant
            i <= v.len(),
            r@ =~= v@.take(i as int),
        decreases v.len() - i,
    {
        r.push(v[i].clone());
        i = i + 1;
    }
    proof {
        assert(r@ =~= v@);
    }
    r
}

/// Clones a compiled program, keeping its view.
pub(crate) fn clone_ops(v: &Vec<Op>) -> (r: Vec<Op>)
    ensures
        crate::op::ops_view(r@) == crate::op::ops_view(v@),
    decreases v@,
{
    let mut r: Vec<Op> = Vec::new();
    let mut i: usize = 0;
    while i < v.len()
        invariant
            i <= v.len(),
            r@.len() == i,
            forall|j: int| 0 <= j < i ==> op_view(r@[j]) == op_view(v@[j]),
        decreases v.len() - i,
    {
        proof {
            assert(decreases_to!(v@ => v@[i as int]));
        }
        let e = v[i].clone();
        r.push(e);
        i = i + 1;
    }
    proof {
        crate::op::lemma_ops_view_len(r@);
        crate::op::lemma_ops_view_len(v@);
        assert forall|j: int| 0 <= j < v@.len() implies ops_view(r@)[j] == ops_view(v@)[j] by {
            crate::op::lemma_ops_view_index(r@, j);
            crate::op::lemma_ops_view_index(v@, j);
        }
        assert(ops_view(r@) =~= ops_view(v@));
    }
    r
}

impl Clone for Value {
    /// A clone keeps the value's view.
    fn clone(&self) -> (r: Value)
        ensures
            value_view(r) == value_view(*self),
        decreases *self,
    {
        match self {
            Value::IntLiteral(n) => Value::IntLiteral(*n),
            Value::StringLiteral(s) => Value::StringLiteral(s.clone()),
            Value::CharLiteral(c) => Value::CharLiteral(*c),
            Value::BoolLiteral(b) => Value::BoolLiteral(*b),
            Value::Object(o) => Value::Object(o.clone()),
            Value::Nil => Value::Nil,
        }
    }
}

impl Clone for Object {
    /// A clone keeps the object's view.
    fn clone(&self) -> (r: Object)
        ensures
            object_view(r) == object_view(*self),
        decreases *self,
    {
        match self {
            Object::Native(n) => Object::Native(*n),
            Object::Function { args, body } => Object::Function {
                args: clone_strings(args),
                body: clone_ops(body),
            },
        }
    }
}

/// Truncated division of two 64-bit integers stays in the 64-bit range,
/// except for the one overflowing quotient, which is excluded here.
proof fn lemma_div_trunc_in_range(x: int, d: int)
    requires
        i64::MIN <= x <= i64::MAX,
        i64::MIN <= d <= i64::MAX,
        d != 0,
        !(x == i64::MIN && d == -1),
    ensures
        i64::MIN <= div_trunc(x, d) <= i64::MAX,
{
    let half = 0x8000_0000_0000_0000int;
    if x == 0 {
    } else if x > 0 && d > 0 {
        vstd::arithmetic::div_mod::lemma_div_pos_is_pos(x, d);
        vstd::arithmetic::div_mod::lemma_div_nonincreasing(x, d);
    } else if x < 0 && d < 0 {
        let a = x * -1;
        let e = d * -1;
        vstd::arithmetic::div_mod::lemma_div_pos_is_pos(a, e);
        if e == 1 {
            vstd::arithmetic::div_mod::lemma_div_nonincreasing(a, e);
        } else {
            vstd::arithmetic::div_mod::lemma_div_is_ordered_by_denominator(a, 2, e);
            vstd::arithmetic::div_mod::lemma_div_is_ordered(a, half, 2);
            assert(half / 2 == 0x4000_0000_0000_0000int);
        }
    } else if x < 0 {
        let a = x * -1;
        vstd::arithmetic::div_mod::lemma_div_pos_is_pos(a, d);
        vstd::arithmetic::div_mod::lemma_div_nonincreasing(a, d);
    } else {
        let e = d * -1;
        vstd::arithmetic::div_mod::lemma_div_pos_is_pos(x, e);
        vstd::arithmetic::div_mod::lemma_div_nonincreasing(x, e);
    }
}

impl Value {
    /// The `Add` rule of the machine, `self + b`.
    pub fn add(&self, b: Value) -> (r: Result<Value, VmError>)
        ensures
            match r {
                Ok(v) => abs_add(value_view(*self), value_view(b)) == Ok::<AbsValue, AbsVmError>(
                    value_view(v),
                ),
                Err(e) => abs_add(value_view(*self), value_view(b)) == Err::<AbsValue, AbsVmError>(err_view(e)),
            },
    {
        match (self, &b) {
            (Value::IntLiteral(x), Value::IntLiteral(y)) => Ok(
                Value::IntLiteral(x.wrapping_add(*y)),
            ),
            (Value::StringLiteral(x), Value::StringLiteral(y)) => Ok(
                Value::StringLiteral(x.clone().concat(y.as_str())),
            ),
            (Value::StringLiteral(x), Value::CharLiteral(c)) => {
                let mut s = x.clone();
                push_char(&mut s, *c);
                Ok(Value::StringLiteral(s))
            },
            (Value::CharLiteral(c), Value::CharLiteral(d)) => {
                let mut s = String::new();
                push_char(&mut s, *c);
                push_char(&mut s, *d);
                proof {
                    assert(s@ =~= seq![*c, *d]);
                }
                Ok(Value::StringLiteral(s))
            },
            _ => Err(VmError::InvalidOperation),
        }
    }

    /// The `Sub` rule of the machine, `self - b`.
    pub fn sub(&self, b: Value) -> (r: Result<Value, VmError>)
        ensures
            match r {
                Ok(v) => abs_sub(value_view(*self), value_view(b)) == Ok::<AbsValue, AbsVmError>(
                    value_view(v),
                ),
                Err(e) => abs_sub(value_view(*self), value_view(b)) == Err::<AbsValue, AbsVmError>(err_view(e)),
            },
    {
        match (self, &b) {
            (Value::IntLiteral(x), Value::IntLiteral(y)) => Ok(
                Value::IntLiteral(x.wrapping_sub(*y)),
            ),
            _ => Err(VmError::InvalidOperation),
        }
    }

    /// The `Mul` rule of the machine, `self * b`.
    pub fn mul(&self, b: Value) -> (r: Result<Value, VmError>)
        ensures
            match r {
                Ok(v) => abs_mul(value_view(*self), value_view(b)) == Ok::<AbsValue, AbsVmError>(
                    value_view(v),
                ),
                Err(e) => abs_mul(value_view(*self), value_view(b)) == Err::<AbsValue, AbsVmError>(err_view(e)),
            },
    {
        match (self, &b) {
            (Value::IntLiteral(x), Value::IntLiteral(y)) => Ok(
                Value::IntLiteral(x.wrapping_mul(*y)),
            ),
            _ => Err(VmError::InvalidOperation),
        }
    }

    /// The `Div` rule of the machine, `self / b`.
    pub fn div(&self, b: Value) -> (r: Result<Value, VmError>)
        ensures
            match r {
                Ok(v) => abs_div(value_view(*self), value_view(b)) == Ok::<AbsValue, AbsVmError>(
                    value_view(v),
                ),
                Err(e) => abs_div(value_view(*self), value_view(b)) == Err::<AbsValue, AbsVmError>(err_view(e)),
            },
    {
        match (self, &b) {
            (Value::IntLiteral(x), Value::IntLiteral(y)) => {
                if *y == 0 {
                    Err(VmError::DivisionByZero)
                } else if *x == i64::MIN && *y == -1 {
                    Ok(Value::IntLiteral(i64::MIN))
                } else {
                    proof {
                        lemma_div_trunc_in_range(*x as int, *y as int);
                    }
                    match x.checked_div(*y) {
                        Some(q) => Ok(Value::IntLiteral(q)),
                        None => {
                            proof {
                                assert(false);
                            }
                            Ok(Value::IntLiteral(i64::MIN))
                        },
                    }
                }
            },
            _ => Err(VmError::InvalidOperation),
        }
    }

    /// Truthiness of a value, as the conditional jumps read it.
    pub fn to_boolean(&self) -> (r: bool)
        ensures
            r == abs_to_bool(value_view(*self)),
    {
        match self {
            Value::IntLiteral(v) => *v != 0,
            Value::StringLiteral(v) => !v.as_str().is_empty(),
            Value::BoolLiteral(v) => *v,
            Value::CharLiteral(_) => true,
            Value::Object(_) => true,
            Value::Nil => false,
        }
    }

    /// The language's equality, as the `Equals`/`NEquals` instructions read
    /// it. Note that two equal characters and two objects are *unequal*.
    pub fn value_eq(&self, other: &Value) -> (r: bool)
        ensures
            r == abs_eq(value_view(*self), value_view(*other)),
    {
        match (self, other) {
            (Value::IntLiteral(a), Value::IntLiteral(b)) => *a == *b,
            (Value::BoolLiteral(a), Value::BoolLiteral(b)) => *a == *b,
            (Value::StringLiteral(a), Value::StringLiteral(b)) => *a == *b,
            (Value::Nil, Value::Nil) => true,
            _ => false,
        }
    }

    /// The language's ordering, as the comparison instructions read it.
    pub fn compare(&self, other: &Value) -> (r: Option<Cmp>)
        ensures
            r == abs_cmp(value_view(*self), value_view(*other)),
    {
        if self.value_eq(other) {
            return Some(Cmp::Equal);
        }
        match (self, other) {
            (Value::IntLiteral(a), Value::IntLiteral(b)) => Some(
                if *a < *b {
                    Cmp::Less
                } else {
                    Cmp::Greater
                },
            ),
            (Value::BoolLiteral(a), Value::BoolLiteral(b)) => Some(
                if !*a && *b {
                    Cmp::Less
                } else {
                    Cmp::Greater
                },
            ),
            (Value::StringLiteral(a), Value::StringLiteral(b)) => Some(
                if str_lex_lt(a.as_str(), b.as_str()) {
                    Cmp::Less
                } else {
                    Cmp::Greater
                },
            ),
            _ => None,
        }
    }
}

} // verus!
